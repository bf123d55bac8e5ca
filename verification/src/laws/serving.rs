//! Serving: the pending set, who gets it, and what miners make of it.

use crate::laws::{lemma_filter_places, picks};
use crate::ledger::{LedgerView, RecordView};
use crate::miner::{collide, is_pending_reply, is_taken, law_selection_has_no_double_spend, selection};
use crate::p2p::{
    frame_room, pending_bytes, reply, CAP, CAPABILITY, FRAME_CAP, Frame, MAX_HEIGHT, PENDING, PendingView, REFUSAL,
    REQUEST, STREAM_KIND, STREAM_VERSION,
};
use crate::server::{is_pending, pending_set};
use crate::transaction::{ironwood_only, TxView};
use vstd::prelude::*;
use vstd::utf8::encode_utf8;

verus! {

/// Whether a payment waits to be mined.
pub open spec fn waits() -> spec_fn(RecordView) -> bool {
    |r: RecordView| r.status == "pending"@
}

/// The pending set is of the chain of the service and of the tip of the ledger, and it
/// lists the transaction of every payment that is pending, each once, in the order of
/// the ledger, and no other. There is none before the ledger has a tip.
pub proof fn law_the_pending_set_lists_every_pending_payment(chain_id: Seq<char>, ledger: LedgerView)
    ensures
        match pending_set(chain_id, ledger) {
            Some(pending) => {
                &&& ledger.tip == Some(pending.tip)
                &&& pending.chain_id == chain_id
                &&& exists|places: Seq<int>| #[trigger]
                    picks(places, ledger.records, waits()) && pending.transactions == Seq::new(
                        places.len(),
                        |i: int| ledger.records[places[i]].raw_tx,
                    )
            },
            None => ledger.tip is None,
        },
{
    let chosen = |r: RecordView| is_pending(r);
    let places = lemma_filter_places(ledger.records, chosen);
    assert(picks(places, ledger.records, waits())) by {
        assert forall|k: int| 0 <= k < ledger.records.len() && (waits())(#[trigger] ledger.records[k]) implies places.contains(
            k,
        ) by {
            assert(chosen(ledger.records[k]));
        }
        assert forall|i: int| 0 <= i < places.len() implies 0 <= #[trigger] places[i] < ledger.records.len() && (waits())(
            ledger.records[places[i]],
        ) by {
            assert(chosen(ledger.records[places[i]]));
        }
    }
    if pending_set(chain_id, ledger) is Some {
        assert(pending_set(chain_id, ledger)->0.transactions =~= Seq::new(
            places.len(),
            |i: int| ledger.records[places[i]].raw_tx,
        ));
    }
}

/// A request for the chain of the service is answered with the whole pending set, where
/// there is one and it fits; one for another chain, one without a pending set, and one
/// with too little room is refused with the reason. What fits is what the smaller limit
/// of the two peers leaves beside eight bytes of header.
pub proof fn law_requests_are_answered_or_refused_with_the_reason(
    feed: Option<PendingView>,
    own: Seq<char>,
    asked: Seq<char>,
    max_frame: u32,
    max_message: u32,
)
    ensures
        ({
            let room = frame_room(max_frame, max_message);
            let answer = reply(feed, own, asked, room);
            let elsewhere = encode_utf8("{\"reason\":\"wrong_chain\"}"@);
            let early = encode_utf8("{\"reason\":\"not_ready\"}"@);
            let narrow = encode_utf8("{\"reason\":\"capacity\"}"@);
            &&& room + 8 <= max_frame || room == 0
            &&& room + 8 <= max_message || room == 0
            &&& max_frame >= 8 && max_message >= 8 ==> room + 8 == max_frame || room + 8 == max_message
            &&& asked == own && feed is Some && pending_bytes(feed->0).len() <= room ==> answer == Some(
                (1u16, pending_bytes(feed->0)),
            )
            &&& asked != own && elsewhere.len() <= room ==> answer == Some((2u16, elsewhere))
            &&& asked == own && feed is None && early.len() <= room ==> answer == Some((2u16, early))
            &&& asked == own && feed is Some && pending_bytes(feed->0).len() > room && narrow.len() <= room ==> answer
                == Some((2u16, narrow))
            &&& asked != own && elsewhere.len() > room && narrow.len() <= room ==> answer == Some((2u16, narrow))
            &&& asked == own && feed is None && early.len() > room && narrow.len() <= room ==> answer == Some(
                (2u16, narrow),
            )
            &&& answer is None ==> narrow.len() > room
            &&& answer is Some ==> (answer->0).1.len() <= room
        }),
{
}

/// The numbers that both sides of the wire must agree on.
pub proof fn law_both_sides_agree_on_the_stream()
    ensures
        REQUEST == 0 && PENDING == 1 && REFUSAL == 2,
        CAP == 2 * 1024 * 1024,
        FRAME_CAP == CAP + 8,
        STREAM_KIND == 65 && STREAM_VERSION == 1,
        CAPABILITY == 131072,
        MAX_HEIGHT == 2147483647,
{
}

/// A miner takes a reply for a pending set only if it is one frame of that kind,
/// without flags and within the limit.
pub proof fn law_only_one_whole_frame_is_a_pending_set(frames: Seq<Frame>)
    ensures
        is_pending_reply(frames) <==> frames.len() == 1 && frames[0].message_type == 1 && frames[0].flags == 0
            && frames[0].payload@.len() <= 2097152,
{
}

/// A payment is eligible only if it is of version 6, is no coinbase transaction, spends
/// and pays nothing outside the Ironwood pool, and something inside it.
pub proof fn law_eligible_payments_are_shielded(tx: TxView)
    ensures
        ironwood_only(tx) ==> tx.pools.version == 6 && tx.pools.ironwood && !tx.pools.coinbase,
        ironwood_only(tx) ==> tx.pools.inputs == 0 && tx.pools.outputs == 0,
        ironwood_only(tx) ==> tx.pools.sapling_outputs == 0 && tx.pools.sapling_spends == 0 && !tx.pools.orchard,
        !ironwood_only(tx) ==> tx.pools.version != 6 || !tx.pools.ironwood || tx.pools.coinbase || tx.pools.inputs > 0
            || tx.pools.outputs > 0 || tx.pools.sapling_outputs > 0 || tx.pools.sapling_spends > 0 || tx.pools.orchard,
{
}

/// Whether two payments have a nullifier in common.
pub open spec fn rivals(a: Seq<Seq<char>>, b: Seq<Seq<char>>) -> bool {
    exists|i: int, j: int| 0 <= i < a.len() && 0 <= j < b.len() && #[trigger] a[i] == #[trigger] b[j]
}

proof fn lemma_rivals(a: Seq<Seq<char>>, b: Seq<Seq<char>>)
    ensures
        collide(a, b) == rivals(a, b),
{
    if collide(a, b) {
        let nf = choose|nf: Seq<char>| #[trigger] a.contains(nf) && b.contains(nf);
        let i = choose|i: int| 0 <= i < a.len() && a[i] == nf;
        let j = choose|j: int| 0 <= j < b.len() && b[j] == nf;
        assert(a[i] == b[j]);
    }
    if rivals(a, b) {
        let (i, j) = choose|i: int, j: int| 0 <= i < a.len() && 0 <= j < b.len() && #[trigger] a[i] == #[trigger] b[j];
        assert(a.contains(a[i]) && b.contains(a[i]));
    }
}

proof fn lemma_selected_stays(offers: Seq<Option<Seq<Seq<char>>>>, m: int, n: int, i: int)
    requires
        0 <= i < m <= n <= offers.len() <= usize::MAX,
    ensures
        selection(offers, n).contains(i as usize) == selection(offers, m).contains(i as usize),
    decreases n,
{
    if m < n {
        lemma_selected_stays(offers, m, n - 1, i);
        let before = selection(offers, n - 1);
        let after = selection(offers, n);
        if before.contains(i as usize) {
            let j = choose|j: int| 0 <= j < before.len() && before[j] == i as usize;
            assert(after[j] == i as usize);
        }
        if after.contains(i as usize) {
            let j = choose|j: int| 0 <= j < after.len() && after[j] == i as usize;
            assert(j < before.len());
            assert(before[j] == i as usize);
        }
    }
}

/// A payment goes into the next block exactly if it was verified and has no nullifier
/// in common with an earlier payment that goes into it. The payments keep their order.
pub proof fn law_payments_are_selected_first_come_first_served(offers: Seq<Option<Seq<Seq<char>>>>, i: int)
    requires
        0 <= i < offers.len() <= usize::MAX,
    ensures
        ({
            let selected = selection(offers, offers.len() as int);
            &&& selected.contains(i as usize) <==> offers[i] is Some && forall|j: int|
                0 <= j < i && #[trigger] selected.contains(j as usize) ==> !rivals(offers[j]->0, offers[i]->0)
            &&& forall|a: int, b: int| 0 <= a < b < selected.len() ==> #[trigger] selected[a] < #[trigger] selected[b]
            &&& forall|a: int| 0 <= a < selected.len() ==> #[trigger] selected[a] < offers.len()
        }),
{
    let n = offers.len() as int;
    let selected = selection(offers, n);
    law_selection_has_no_double_spend(offers, n);
    law_selection_has_no_double_spend(offers, i);
    lemma_selected_stays(offers, i + 1, n, i);
    let before = selection(offers, i);
    let after = selection(offers, i + 1);
    assert(!before.contains(i as usize)) by {
        if before.contains(i as usize) {
            let a = choose|a: int| 0 <= a < before.len() && before[a] == i as usize;
            assert(before[a] < i);
        }
    }
    if offers[i] is Some {
        if is_taken(offers, before, offers[i]->0) {
            let a = choose|a: int| 0 <= a < before.len() && collide(offers[#[trigger] before[a] as int]->0, offers[i]->0);
            let j = before[a] as int;
            assert(before.contains(j as usize));
            lemma_selected_stays(offers, i, n, j);
            lemma_rivals(offers[j]->0, offers[i]->0);
            assert(selected.contains(j as usize));
        } else {
            assert(after[before.len() as int] == i as usize);
            assert forall|j: int| 0 <= j < i && #[trigger] selected.contains(j as usize) implies !rivals(
                offers[j]->0,
                offers[i]->0,
            ) by {
                lemma_selected_stays(offers, i, n, j);
                let a = choose|a: int| 0 <= a < before.len() && before[a] == j as usize;
                assert(before[a] as int == j);
                lemma_rivals(offers[j]->0, offers[i]->0);
            }
        }
    }
}

} // verus!
