//! A miner's side: which peer to listen to, what to make of a reply, and which
//! payments go into the next block.

use crate::encoding::{hex_encode, hex_text};
use crate::json::json_read;
use crate::p2p::{optional_pending, pending_read, Frame, Pending, CAP, PENDING};
use crate::text::{any_in, insert_all, same_text, texts};
use vstd::hash_set::StringHashSet;
use vstd::prelude::*;

verus! {

/// Whether a peer is the server: its identifier, in hexadecimal, is the configured
/// one.
pub fn is_server(peer: &[u8], server_id: &str) -> (server: bool)
    ensures
        server == (hex_text(peer@) == server_id@),
{
    same_text(hex_encode(peer).as_str(), server_id)
}

/// Whether the frames of a reply are one pending set of admissible size.
pub open spec fn is_pending_reply(frames: Seq<Frame>) -> bool {
    &&& frames.len() == 1
    &&& frames[0].message_type == PENDING
    &&& frames[0].flags == 0
    &&& frames[0].payload@.len() <= CAP
}

/// What a miner makes of a reply.
pub enum Reply {
    /// There is no pending set in it.
    Unavailable,
    /// The pending set, and whether it differs from the last one.
    Received(Pending, bool),
}

/// Why a reply stops the miner.
#[derive(Debug, PartialEq)]
pub enum ReplyError {
    /// It cannot be read.
    Malformed(String),
    /// It is about another chain.
    WrongChain,
}

impl ReplyError {
    /// The error in words.
    pub fn message(&self) -> (text: String)
        ensures
            match *self {
                ReplyError::Malformed(words) => text@ == words@,
                ReplyError::WrongChain => text@ == "wrong chain in pending response"@,
            },
    {
        match self {
            ReplyError::Malformed(words) => words.clone(),
            ReplyError::WrongChain => "wrong chain in pending response".to_string(),
        }
    }
}

/// Reads the reply of the server.
pub fn read_reply(frames: &Vec<Frame>, chain_id: &str, last: &Option<Pending>) -> (reply: Result<Reply, ReplyError>)
    ensures
        match reply {
            Ok(Reply::Unavailable) => !is_pending_reply(frames@),
            Ok(Reply::Received(pending, changed)) => {
                &&& is_pending_reply(frames@)
                &&& pending_read(frames@[0].payload@) == Some(pending@)
                &&& pending@.chain_id == chain_id@
                &&& changed == (optional_pending(*last) != Some(pending@))
            },
            Err(ReplyError::Malformed(words)) => {
                &&& is_pending_reply(frames@)
                &&& pending_read(frames@[0].payload@) is None
                &&& json_read(frames@[0].payload@) is Some ==> words@ == "invalid pending set"@
            },
            Err(ReplyError::WrongChain) => {
                &&& is_pending_reply(frames@)
                &&& pending_read(frames@[0].payload@) is Some
                &&& pending_read(frames@[0].payload@)->0.chain_id != chain_id@
            },
        },
{
    if frames.len() != 1 || frames[0].message_type != PENDING || frames[0].flags != 0 || frames[0].payload.len() > CAP {
        return Ok(Reply::Unavailable);
    }
    let pending = match Pending::from_message(frames[0].payload.as_slice()) {
        Ok(pending) => pending,
        Err(words) => {
            return Err(ReplyError::Malformed(words));
        },
    };
    if !same_text(pending.chain_id.as_str(), chain_id) {
        return Err(ReplyError::WrongChain);
    }
    let changed = match last {
        Some(last) => !last.same(&pending),
        None => true,
    };
    Ok(Reply::Received(pending, changed))
}

/// Whether the payments must be selected anew: the pending set has changed, or what
/// was selected was for another block than the one after `tip`.
pub fn needs_selection(changed: bool, selected_for: Option<&str>, tip: &str) -> (needed: bool)
    ensures
        needed == (changed || selected_for is None || selected_for->0@ != tip@),
{
    match selected_for {
        Some(parent) => changed || !same_text(parent, tip),
        None => true,
    }
}

/// Whether the payments that were selected for the block after `parent` can be handed
/// on: it is still the best block.
pub fn still_best(parent: &str, best: Option<&str>) -> (still: bool)
    ensures
        still == (best is Some && best->0@ == parent@),
{
    match best {
        Some(best) => same_text(best, parent),
        None => false,
    }
}

/// The nullifiers of each payment that was verified; nothing for one that was not.
pub open spec fn offer_views(offers: Seq<Option<Vec<String>>>) -> Seq<Option<Seq<Seq<char>>>> {
    offers.map_values(
        |o: Option<Vec<String>>|
            match o {
                Some(list) => Some(texts(list@)),
                None => None,
            },
    )
}

/// Whether two payments spend a common note.
pub open spec fn collide(a: Seq<Seq<char>>, b: Seq<Seq<char>>) -> bool {
    exists|nf: Seq<char>| #[trigger] a.contains(nf) && b.contains(nf)
}

/// Whether a payment spends a note that one of the selected payments spends.
pub open spec fn is_taken(offers: Seq<Option<Seq<Seq<char>>>>, selected: Seq<usize>, payment: Seq<Seq<char>>) -> bool {
    exists|j: int| 0 <= j < selected.len() && collide(offers[#[trigger] selected[j] as int]->0, payment)
}

/// The payments that are selected among the first `n`: in order, each that was
/// verified and spends no note that an earlier selected payment spends.
pub open spec fn selection(offers: Seq<Option<Seq<Seq<char>>>>, n: int) -> Seq<usize>
    decreases n,
{
    if n <= 0 {
        Seq::empty()
    } else {
        let before = selection(offers, n - 1);
        if offers[n - 1] is Some && !is_taken(offers, before, offers[n - 1]->0) {
            before.push((n - 1) as usize)
        } else {
            before
        }
    }
}

/// Whether a selected payment reveals a nullifier.
pub open spec fn is_reserved(offers: Seq<Option<Seq<Seq<char>>>>, selected: Seq<usize>, nullifier: Seq<char>) -> bool {
    exists|j: int| 0 <= j < selected.len() && (offers[#[trigger] selected[j] as int]->0).contains(nullifier)
}

/// Selects the payments for the next block.
pub fn select(offers: &Vec<Option<Vec<String>>>) -> (selected: Vec<usize>)
    ensures
        selected@ == selection(offer_views(offers@), offers@.len() as int),
{
    let ghost views = offer_views(offers@);
    let mut selected: Vec<usize> = Vec::new();
    let mut reserved = StringHashSet::new();
    let mut i: usize = 0;
    while i < offers.len()
        invariant
            i <= offers.len(),
            views == offer_views(offers@),
            selected@ == selection(views, i as int),
            forall|nf: Seq<char>| #[trigger] reserved@.contains(nf) <==> is_reserved(views, selected@, nf),
        decreases offers.len() - i,
    {
        let ghost before = selected@;
        let ghost held = reserved@;
        if let Some(nullifiers) = &offers[i] {
            assert(views[i as int] == Some(texts(nullifiers@)));
            let taken = any_in(nullifiers, &reserved);
            proof {
                if is_taken(views, before, texts(nullifiers@)) {
                    let j = choose|j: int|
                        0 <= j < before.len() && collide(views[#[trigger] before[j] as int]->0, texts(nullifiers@));
                    let nf = choose|nf: Seq<char>| #[trigger]
                        (views[before[j] as int]->0).contains(nf) && texts(nullifiers@).contains(nf);
                    assert(is_reserved(views, before, nf));
                    assert(held.contains(nf));
                }
                if taken {
                    let nf = choose|nf: Seq<char>| #[trigger] texts(nullifiers@).contains(nf) && held.contains(nf);
                    assert(is_reserved(views, before, nf));
                    let j = choose|j: int| 0 <= j < before.len() && (views[#[trigger] before[j] as int]->0).contains(nf);
                    assert(collide(views[before[j] as int]->0, texts(nullifiers@)));
                }
                assert(taken == is_taken(views, before, texts(nullifiers@)));
            }
            if !taken {
                insert_all(&mut reserved, nullifiers);
                selected.push(i);
                proof {
                    assert forall|nf: Seq<char>| #[trigger]
                        reserved@.contains(nf) <==> is_reserved(views, selected@, nf) by {
                        assert(reserved@.contains(nf) <==> held.contains(nf) || texts(nullifiers@).contains(nf));
                        assert(held.contains(nf) <==> is_reserved(views, before, nf));
                        if is_reserved(views, before, nf) {
                            let j = choose|j: int|
                                0 <= j < before.len() && (views[#[trigger] before[j] as int]->0).contains(nf);
                            assert(selected@[j] == before[j]);
                        }
                        if texts(nullifiers@).contains(nf) {
                            assert(selected@[before.len() as int] == i);
                        }
                        if is_reserved(views, selected@, nf) {
                            let j = choose|j: int|
                                0 <= j < selected@.len() && (views[#[trigger] selected@[j] as int]->0).contains(nf);
                            if j < before.len() {
                                assert(before[j] == selected@[j]);
                            }
                        }
                    }
                }
            }
        } else {
            assert(views[i as int] is None);
        }
        i += 1;
    }
    selected
}

/// No two payments of a selection spend a common note, every selected payment was
/// verified, and they keep their order.
pub proof fn law_selection_has_no_double_spend(offers: Seq<Option<Seq<Seq<char>>>>, n: int)
    requires
        0 <= n <= offers.len() <= usize::MAX,
    ensures
        forall|j: int|
            0 <= j < selection(offers, n).len() ==> (#[trigger] selection(offers, n)[j]) < n
                && offers[selection(offers, n)[j] as int] is Some,
        forall|j: int, k: int|
            0 <= j < k < selection(offers, n).len() ==> (#[trigger] selection(offers, n)[j]) < (#[trigger] selection(
                offers,
                n,
            )[k]) && !collide(offers[selection(offers, n)[j] as int]->0, offers[selection(offers, n)[k] as int]->0),
    decreases n,
{
    if n > 0 {
        law_selection_has_no_double_spend(offers, n - 1);
        let before = selection(offers, n - 1);
        let after = selection(offers, n);
        if after.len() > before.len() {
            assert forall|j: int, k: int| 0 <= j < k < after.len() implies (#[trigger] after[j]) < (#[trigger] after[k])
                && !collide(offers[after[j] as int]->0, offers[after[k] as int]->0) by {
                assert(after[j] == before[j]);
                if k < before.len() {
                    assert(after[k] == before[k]);
                } else {
                    assert(!is_taken(offers, before, offers[n - 1]->0));
                }
            }
            assert forall|j: int| 0 <= j < after.len() implies (#[trigger] after[j]) < n && offers[after[j] as int] is Some by {
                if j < before.len() {
                    assert(after[j] == before[j]);
                }
            }
        }
    }
}

/// A verified payment is left out only for the sake of an earlier one: every payment
/// that was verified is selected or spends a note that a selected one spends.
pub proof fn law_selection_is_maximal(offers: Seq<Option<Seq<Seq<char>>>>, n: int, i: int)
    requires
        0 <= i < n <= offers.len() <= usize::MAX,
        offers[i] is Some,
    ensures
        selection(offers, n).contains(i as usize) || is_taken(offers, selection(offers, n), offers[i]->0),
    decreases n,
{
    let before = selection(offers, n - 1);
    let after = selection(offers, n);
    if i < n - 1 {
        law_selection_is_maximal(offers, n - 1, i);
        if before.contains(i as usize) {
            let j = choose|j: int| 0 <= j < before.len() && before[j] == i as usize;
            assert(after[j] == i as usize);
        } else {
            let j = choose|j: int| 0 <= j < before.len() && collide(offers[#[trigger] before[j] as int]->0, offers[i]->0);
            assert(after[j] == before[j]);
        }
    } else if !is_taken(offers, before, offers[i]->0) {
        assert(after[before.len() as int] == i as usize);
    }
}

} // verus!
