//! Paying out: how a payout comes from being owed to being sent.

use crate::event::{optional_event, Event, EventView};
use crate::json::{as_items, as_text, json, jsons, Json};
use crate::ledger::{payout_views, LedgerView, Payout, PayoutView, Store, StoreView};
use crate::reconcile::is_open;
use crate::reconcile::settle::is_expired;
use crate::text::{optional_str, optional_text, same_optional, same_text};
use crate::transaction::{insert_nullifiers, is_raw_error, raw_transaction, raw_tx, spends, RawTxError};
use serde_json::Value;
use vstd::hash_set::StringHashSet;
use vstd::prelude::*;

verus! {

/// The network fee of a payout, which the service pays beside the amount.
pub const PAYOUT_FEE: u64 = 20000;

/// What has to be done next for a payout.
#[derive(Debug, PartialEq, Eq, Structural, Clone, Copy)]
pub enum Need {
    /// Nothing, for now.
    Nothing,
    /// Build and sign its transaction.
    Build,
    /// Ask for the hash of the block at the height of its block.
    BlockHash,
    /// Ask for the transactions that wait to be mined.
    Mempool,
    /// Send its transaction.
    Broadcast,
}

/// How what had to be done for a payout came out.
#[derive(Debug, PartialEq)]
pub enum Reply {
    /// Its transaction was built.
    Built { raw_tx: String, payout_txid: String },
    /// Its transaction could not be built.
    NotBuilt { words: String },
    /// The hash of the block at the height of its block.
    BlockHash { found: Option<String> },
    /// The transactions that wait to be mined.
    Mempool { waiting: Vec<Option<String>> },
    /// Its transaction was sent.
    Sent,
    /// Its transaction could not be sent.
    NotSent,
}

#[verifier::ext_equal]
pub enum ReplyView {
    Built { raw_tx: Seq<char>, payout_txid: Seq<char> },
    NotBuilt { words: Seq<char> },
    BlockHash { found: Option<Seq<char>> },
    Mempool { waiting: Seq<Option<Seq<char>>> },
    Sent,
    NotSent,
}

/// The characters of each text of a list, where there is one.
pub open spec fn optional_texts(list: Seq<Option<String>>) -> Seq<Option<Seq<char>>> {
    list.map_values(|t: Option<String>| optional_text(t))
}

impl View for Reply {
    type V = ReplyView;

    open spec fn view(&self) -> ReplyView {
        match *self {
            Reply::Built { raw_tx, payout_txid } => ReplyView::Built { raw_tx: raw_tx@, payout_txid: payout_txid@ },
            Reply::NotBuilt { words } => ReplyView::NotBuilt { words: words@ },
            Reply::BlockHash { found } => ReplyView::BlockHash { found: optional_text(found) },
            Reply::Mempool { waiting } => ReplyView::Mempool { waiting: optional_texts(waiting@) },
            Reply::Sent => ReplyView::Sent,
            Reply::NotSent => ReplyView::NotSent,
        }
    }
}

/// Why a payout cannot go on.
#[derive(Debug, PartialEq)]
pub enum PayoutError {
    /// Its transaction was not built.
    Unsigned,
    /// Its transaction cannot be read.
    Raw(RawTxError),
}

impl PayoutError {
    /// The error in words.
    pub fn message(&self) -> (text: String)
        ensures
            match *self {
                PayoutError::Unsigned => text@ == "signed payout"@,
                PayoutError::Raw(RawTxError::Hex(words)) => text@ == words@,
                PayoutError::Raw(RawTxError::Malformed(words)) => text@ == words@,
                PayoutError::Raw(RawTxError::Trailing) => text@ == "trailing transaction bytes"@,
            },
    {
        match self {
            PayoutError::Unsigned => "signed payout".to_string(),
            PayoutError::Raw(e) => e.message(),
        }
    }
}

/// Whether an error is the reason for which a payout whose block is in place cannot
/// go on.
pub open spec fn is_payout_error(e: PayoutError, payout: PayoutView) -> bool {
    match e {
        PayoutError::Unsigned => payout.raw_tx is None,
        PayoutError::Raw(e) => payout.raw_tx is Some && is_raw_error(e, payout.raw_tx->0),
    }
}

/// What has to be done first for a payout: nothing unless it is open and its block
/// has a block on top of it.
pub open spec fn first_need(payout: PayoutView, height: u32) -> Need {
    if !is_open(payout) || height <= payout.block.height {
        Need::Nothing
    } else if payout.raw_tx is None {
        Need::Build
    } else {
        Need::BlockHash
    }
}

/// A payout after a step, what has to be done next, and what has to be saved.
pub struct Step {
    pub payout: PayoutView,
    pub need: Need,
    pub event: Option<EventView>,
}

/// What becomes of a payout. Before it is sent, its block is looked at again, and it
/// is blocked if the chain lost the block or the transaction has expired. A
/// transaction that is already on its way is not sent again.
pub open spec fn stepped(payout: PayoutView, height: u32, reply: ReplyView) -> Option<Step> {
    let hash = payout.block.hash;
    match reply {
        ReplyView::Built { raw_tx, payout_txid } => Some(
            Step {
                payout: PayoutView { raw_tx: Some(raw_tx), txid: Some(payout_txid), reason: None, ..payout },
                need: Need::BlockHash,
                event: Some(EventView::PayoutSigned { block_hash: hash, txid: payout_txid, amount: payout.amount }),
            },
        ),
        ReplyView::NotBuilt { words } => Some(
            Step { payout: PayoutView { reason: Some(words), ..payout }, need: Need::Nothing, event: None },
        ),
        ReplyView::BlockHash { found } => if found != Some(hash) {
            Some(
                Step {
                    payout: PayoutView { status: "blocked"@, ..payout },
                    need: Need::Nothing,
                    event: Some(EventView::PayoutBlocked { block_hash: hash }),
                },
            )
        } else if payout.raw_tx is None || raw_transaction(payout.raw_tx->0) is None {
            None
        } else if is_expired(raw_transaction(payout.raw_tx->0)->0, height) {
            Some(
                Step {
                    payout: PayoutView {
                        status: "blocked"@,
                        reason: Some("signed payout expired; inspect before retry"@),
                        ..payout
                    },
                    need: Need::Nothing,
                    event: Some(EventView::PayoutBlocked { block_hash: hash }),
                },
            )
        } else {
            Some(Step { payout, need: Need::Mempool, event: None })
        },
        ReplyView::Mempool { waiting } => if !waiting.contains(payout.txid) {
            Some(Step { payout, need: Need::Broadcast, event: None })
        } else if payout.status != "broadcast"@ {
            Some(
                Step {
                    payout: PayoutView { status: "broadcast"@, ..payout },
                    need: Need::Nothing,
                    event: Some(EventView::PayoutRecovered { block_hash: hash }),
                },
            )
        } else {
            Some(Step { payout, need: Need::Nothing, event: None })
        },
        ReplyView::Sent => Some(
            Step {
                payout: PayoutView { status: "broadcast"@, ..payout },
                need: Need::Nothing,
                event: Some(EventView::PayoutBroadcast { block_hash: hash, sent: payout.txid }),
            },
        ),
        ReplyView::NotSent => Some(Step { payout, need: Need::Nothing, event: None }),
    }
}

fn contains_optional(list: &Vec<Option<String>>, text: &Option<String>) -> (found: bool)
    ensures
        found == optional_texts(list@).contains(optional_text(*text)),
{
    let mut i: usize = 0;
    while i < list.len()
        invariant
            i <= list.len(),
            forall|k: int| 0 <= k < i ==> #[trigger] optional_texts(list@)[k] != optional_text(*text),
        decreases list.len() - i,
    {
        if same_optional(optional_str(&list[i]), optional_str(text)) {
            assert(optional_texts(list@)[i as int] == optional_text(*text));
            return true;
        }
        i += 1;
    }
    false
}

impl Payout {
    /// Decides what has to be done first.
    pub fn first_need(&self, height: u32) -> (need: Need)
        ensures
            need == first_need(self@, height),
    {
        let open = same_text(self.status.as_str(), "waiting") || same_text(self.status.as_str(), "broadcast");
        if !open || height <= self.block.height {
            Need::Nothing
        } else if self.raw_tx.is_none() {
            Need::Build
        } else {
            Need::BlockHash
        }
    }

    /// Takes note of how a step came out and decides what has to be done next. The
    /// event has to be saved before that.
    pub fn step(&mut self, height: u32, reply: Reply) -> (next: Result<(Need, Option<Event>), PayoutError>)
        ensures
            match next {
                Ok((need, event)) => stepped(old(self)@, height, reply@) == Some(
                    Step { payout: final(self)@, need, event: optional_event(event) },
                ),
                Err(e) => {
                    &&& stepped(old(self)@, height, reply@) is None
                    &&& final(self)@ == old(self)@
                    &&& is_payout_error(e, old(self)@)
                },
            },
    {
        let block_hash = self.block.hash.clone();
        match reply {
            Reply::Built { raw_tx, payout_txid } => {
                let event = Event::PayoutSigned { block_hash, txid: payout_txid.clone(), amount: self.amount };
                self.raw_tx = Some(raw_tx);
                self.txid = Some(payout_txid);
                self.reason = None;
                Ok((Need::BlockHash, Some(event)))
            },
            Reply::NotBuilt { words } => {
                self.reason = Some(words);
                Ok((Need::Nothing, None))
            },
            Reply::BlockHash { found } => {
                if !same_optional(optional_str(&found), Some(block_hash.as_str())) {
                    self.status = "blocked".to_string();
                    return Ok((Need::Nothing, Some(Event::PayoutBlocked { block_hash })));
                }
                let tx = match &self.raw_tx {
                    Some(raw) => match raw_tx(raw.as_str()) {
                        Ok(tx) => tx,
                        Err(e) => {
                            return Err(PayoutError::Raw(e));
                        },
                    },
                    None => {
                        return Err(PayoutError::Unsigned);
                    },
                };
                let expired = match tx.expiry {
                    Some(last) => last != 0 && last <= height,
                    None => false,
                };
                if expired {
                    self.status = "blocked".to_string();
                    self.reason = Some("signed payout expired; inspect before retry".to_string());
                    Ok((Need::Nothing, Some(Event::PayoutBlocked { block_hash })))
                } else {
                    Ok((Need::Mempool, None))
                }
            },
            Reply::Mempool { waiting } => {
                if !contains_optional(&waiting, &self.txid) {
                    Ok((Need::Broadcast, None))
                } else if !same_text(self.status.as_str(), "broadcast") {
                    self.status = "broadcast".to_string();
                    Ok((Need::Nothing, Some(Event::PayoutRecovered { block_hash })))
                } else {
                    Ok((Need::Nothing, None))
                }
            },
            Reply::Sent => {
                self.status = "broadcast".to_string();
                let sent = self.txid.clone();
                Ok((Need::Nothing, Some(Event::PayoutBroadcast { block_hash, sent })))
            },
            Reply::NotSent => Ok((Need::Nothing, None)),
        }
    }

    /// What the transaction of the payout has to pay: the amount, to the miner.
    pub fn outputs(&self) -> (outputs: Vec<(String, u64)>)
        ensures
            outputs@.len() == 1,
            outputs@[0].0@ == self.address@,
            outputs@[0].1 == self.amount,
    {
        vec![(self.address.clone(), self.amount)]
    }
}

impl Store {
    /// Takes note of how a step of one payout came out. No other payout, and nothing
    /// else of the ledger, changes.
    pub fn step_payout(&mut self, i: usize, height: u32, reply: Reply) -> (next: Result<(Need, Option<Event>), PayoutError>)
        requires
            i < old(self).ledger.payouts@.len(),
        ensures
            match next {
                Ok((need, event)) => {
                    let step = stepped(old(self)@.ledger.payouts[i as int], height, reply@);
                    &&& step == Some(
                        Step { payout: final(self)@.ledger.payouts[i as int], need, event: optional_event(event) },
                    )
                    &&& final(self)@ == (StoreView {
                        ledger: LedgerView {
                            payouts: old(self)@.ledger.payouts.update(i as int, step->0.payout),
                            ..old(self)@.ledger
                        },
                        ..old(self)@
                    })
                },
                Err(e) => {
                    &&& stepped(old(self)@.ledger.payouts[i as int], height, reply@) is None
                    &&& is_payout_error(e, old(self)@.ledger.payouts[i as int])
                    &&& final(self)@ == old(self)@
                },
            },
    {
        let ghost before = self@;
        assert(before.ledger.payouts[i as int] == self.ledger.payouts@[i as int]@);
        let next = self.ledger.payouts[i].step(height, reply);
        proof {
            let after = self.ledger.payouts@[i as int]@;
            assert(self@.ledger.payouts =~= before.ledger.payouts.update(i as int, after));
            if next is Err {
                assert(self@.ledger.payouts =~= before.ledger.payouts);
            }
        }
        next
    }

    /// Collects the nullifiers that the signed payouts reveal, so that no note is
    /// spent for two of them.
    pub fn reserved_nullifiers(&self) -> (reserved: Result<StringHashSet, RawTxError>)
        ensures
            match reserved {
                Ok(reserved) => {
                    &&& signed_readable(self@.ledger.payouts, self@.ledger.payouts.len() as int)
                    &&& forall|nf: Seq<char>| #[trigger]
                        reserved@.contains(nf) <==> is_reserved(
                            self@.ledger.payouts,
                            self@.ledger.payouts.len() as int,
                            nf,
                        )
                },
                Err(e) => exists|p: int| #[trigger] first_unreadable(self@.ledger.payouts, p, e),
            },
    {
        let payouts = &self.ledger.payouts;
        let ghost all = payout_views(payouts@);
        let mut reserved = StringHashSet::new();
        let mut p: usize = 0;
        while p < payouts.len()
            invariant
                p <= payouts.len(),
                all == payout_views(payouts@),
                signed_readable(all, p as int),
                forall|nf: Seq<char>| #[trigger] reserved@.contains(nf) <==> is_reserved(all, p as int, nf),
                self@.ledger.payouts == all,
            decreases payouts.len() - p,
        {
            let ghost before = reserved@;
            assert(all[p as int] == payouts@[p as int]@);
            if let Some(raw) = &payouts[p].raw_tx {
                match raw_tx(raw.as_str()) {
                    Ok(tx) => {
                        insert_nullifiers(&mut reserved, &tx);
                        proof {
                            assert forall|nf: Seq<char>| #[trigger]
                                reserved@.contains(nf) <==> is_reserved(all, p + 1, nf) by {
                                assert(reserved@.contains(nf) <==> before.contains(nf) || spends(tx@, nf));
                                assert(before.contains(nf) <==> is_reserved(all, p as int, nf));
                                if spends(tx@, nf) {
                                    assert(reveals(all[p as int], nf));
                                }
                            }
                        }
                    },
                    Err(e) => {
                        assert(first_unreadable(all, p as int, e));
                        return Err(e);
                    },
                }
            } else {
                assert forall|nf: Seq<char>| #[trigger] reserved@.contains(nf) <==> is_reserved(all, p + 1, nf) by {
                    assert(before.contains(nf) <==> is_reserved(all, p as int, nf));
                }
            }
            p += 1;
        }
        Ok(reserved)
    }
}

/// Whether the transaction of a payout reveals a nullifier.
pub open spec fn reveals(payout: PayoutView, nullifier: Seq<char>) -> bool {
    payout.raw_tx is Some && raw_transaction(payout.raw_tx->0) is Some && spends(
        raw_transaction(payout.raw_tx->0)->0,
        nullifier,
    )
}

/// Whether one of the first `n` payouts reveals a nullifier.
pub open spec fn is_reserved(payouts: Seq<PayoutView>, n: int, nullifier: Seq<char>) -> bool {
    exists|p: int| 0 <= p < n && reveals(#[trigger] payouts[p], nullifier)
}

/// Whether the transactions of the first `n` payouts can be read, where they were
/// built.
pub open spec fn signed_readable(payouts: Seq<PayoutView>, n: int) -> bool {
    forall|p: int|
        0 <= p < n && (#[trigger] payouts[p]).raw_tx is Some ==> raw_transaction(payouts[p].raw_tx->0) is Some
}

/// Whether a payout is the first whose transaction was built and cannot be read, and
/// an error is the reason for it.
pub open spec fn first_unreadable(payouts: Seq<PayoutView>, p: int, e: RawTxError) -> bool {
    &&& 0 <= p < payouts.len()
    &&& signed_readable(payouts, p)
    &&& payouts[p].raw_tx is Some && is_raw_error(e, payouts[p].raw_tx->0)
}

/// The identifiers of the transactions that wait to be mined, as a node lists them.
pub open spec fn listed(value: Json) -> Option<Seq<Option<Seq<char>>>> {
    match value {
        Json::Array(items) => Some(items.map_values(|item: Json| crate::json::json_text(Some(item)))),
        _ => None,
    }
}

/// Reads the list of the transactions that wait to be mined.
pub fn read_mempool(value: &Value) -> (waiting: Option<Vec<Option<String>>>)
    ensures
        match waiting {
            Some(waiting) => listed(json(*value)) == Some(optional_texts(waiting@)),
            None => listed(json(*value)) is None,
        },
{
    let items = match as_items(value) {
        Some(items) => items,
        None => {
            return None;
        },
    };
    let ghost all = listed(json(*value))->0;
    let mut waiting: Vec<Option<String>> = Vec::new();
    let mut i: usize = 0;
    while i < items.len()
        invariant
            i <= items.len(),
            json(*value) == Json::Array(jsons(items@)),
            all == listed(json(*value))->0,
            all.len() == items@.len(),
            optional_texts(waiting@) =~= all.take(i as int),
        decreases items.len() - i,
    {
        let ghost before = waiting@;
        let id = match as_text(&items[i]) {
            Some(text) => Some(text.to_string()),
            None => None,
        };
        assert(jsons(items@)[i as int] == json(items@[i as int]));
        assert(all[i as int] == optional_text(id));
        waiting.push(id);
        assert(optional_texts(waiting@) =~= optional_texts(before).push(optional_text(id)));
        i += 1;
    }
    assert(all.take(all.len() as int) =~= all);
    Some(waiting)
}

/// A payout is built or sent only at two confirmations: when there is a block on top
/// of the block that it pays for.
pub proof fn law_payout_waits_for_two_confirmations(payout: PayoutView, height: u32)
    ensures
        first_need(payout, height) != Need::Nothing ==> height >= payout.block.height + 1 && is_open(payout),
        first_need(payout, height) == Need::Build ==> payout.raw_tx is None,
{
}

/// A payout that was signed is never signed anew: what it owes, to whom and for which
/// payments does not change, nor does its transaction, except that an unsigned one
/// gets one. Only building is ever the first step, and never a later one.
pub proof fn law_payout_keeps_its_transaction(payout: PayoutView, height: u32, reply: ReplyView)
    requires
        stepped(payout, height, reply) is Some,
    ensures
        ({
            let step = stepped(payout, height, reply)->0;
            &&& step.need != Need::Build
            &&& step.payout.block == payout.block
            &&& step.payout.address == payout.address
            &&& step.payout.amount == payout.amount
            &&& step.payout.txids == payout.txids
            &&& !(reply is Built) ==> step.payout.raw_tx == payout.raw_tx && step.payout.txid == payout.txid
        }),
{
}

/// A payout is sent only after its block was found in place, its transaction was
/// found not to have expired, and was not found on its way. One that is blocked is
/// left alone.
pub proof fn law_payout_is_sent_only_when_due(payout: PayoutView, height: u32, reply: ReplyView)
    ensures
        stepped(payout, height, reply) is Some && stepped(payout, height, reply)->0.need == Need::Broadcast ==> (reply
            matches ReplyView::Mempool { waiting } && !waiting.contains(payout.txid)),
        stepped(payout, height, reply) is Some && stepped(payout, height, reply)->0.need == Need::Mempool ==> (reply
            matches ReplyView::BlockHash { found } && found == Some(payout.block.hash) && payout.raw_tx is Some
            && !is_expired(raw_transaction(payout.raw_tx->0)->0, height)),
        payout.status == "blocked"@ ==> first_need(payout, height) == Need::Nothing,
{
    reveal_strlit("blocked");
    reveal_strlit("waiting");
    reveal_strlit("broadcast");
    assert("blocked"@.len() == 7 && "waiting"@.len() == 7 && "broadcast"@.len() == 9);
    assert("blocked"@[0] != "waiting"@[0]);
}

/// A step of a payout keeps the ledger in order.
pub proof fn law_payout_step_keeps_the_ledger_sound(ledger: LedgerView, i: int, height: u32, reply: ReplyView)
    requires
        ledger.sound(),
        0 <= i < ledger.payouts.len(),
        stepped(ledger.payouts[i], height, reply) is Some,
    ensures
        (LedgerView { payouts: ledger.payouts.update(i, stepped(ledger.payouts[i], height, reply)->0.payout), ..ledger }).sound(),
{
    let before = ledger.payouts;
    let after = before.update(i, stepped(before[i], height, reply)->0.payout);
    assert forall|p: int, a: int, q: int, b: int|
        0 <= p < after.len() && 0 <= q < after.len() && 0 <= a < after[p].txids.len() && 0 <= b < after[q].txids.len() && (
        #[trigger] after[p].txids[a]) == (#[trigger] after[q].txids[b]) implies p == q && a == b by {
        assert(after[p].txids == before[p].txids && after[q].txids == before[q].txids);
        assert(before[p].txids[a] == before[q].txids[b]);
    }
}

} // verus!
