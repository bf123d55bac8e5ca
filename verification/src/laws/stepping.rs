//! Stepping: how payouts are built, sent and blocked.

use crate::event::EventView;
use crate::json::Json;
use crate::laws::deciding::bears;
use crate::laws::telling::part;
use crate::ledger::PayoutView;
use crate::payout::{
    first_need, first_unreadable, is_payout_error, is_reserved, listed, signed_readable, stepped, Need, PAYOUT_FEE,
    PayoutError, ReplyView,
};
use crate::transaction::{is_raw_error, raw_transaction, RawTxError};
use crate::worker::{json_outputs, requested_fee, requested_outputs, wants_conflict, CONFLICT_PREMIUM, DEFAULT_FEE};
use vstd::prelude::*;

verus! {

proof fn lemma_statuses()
    ensures
        "waiting"@ != "broadcast"@,
        "waiting"@ != "blocked"@,
        "waiting"@ != "confirmed"@,
        "broadcast"@ != "blocked"@,
        "broadcast"@ != "confirmed"@,
        "blocked"@ != "confirmed"@,
{
    reveal_strlit("waiting");
    reveal_strlit("broadcast");
    reveal_strlit("blocked");
    reveal_strlit("confirmed");
    assert("waiting"@.len() == 7 && "blocked"@.len() == 7 && "broadcast"@.len() == 9 && "confirmed"@.len() == 9);
    assert("waiting"@[0] == 'w' && "blocked"@[0] == 'b' && "broadcast"@[0] == 'b' && "confirmed"@[0] == 'c');
}

/// Something is done for a payout exactly if it waits or was sent, and the chain is
/// higher than its block: it is built if it was not, and else its block is looked at.
pub proof fn law_due_payouts_are_taken_up(payout: PayoutView, height: u32)
    ensures
        ({
            let due = (payout.status == "waiting"@ || payout.status == "broadcast"@) && payout.block.height < height;
            &&& first_need(payout, height) == Need::Build <==> due && payout.raw_tx is None
            &&& first_need(payout, height) == Need::BlockHash <==> due && payout.raw_tx is Some
            &&& first_need(payout, height) == Need::Nothing <==> !due
        }),
{
}

/// Whether the transaction of a payout can no longer be mined after a height.
pub open spec fn is_too_late(payout: PayoutView, height: u32) -> bool {
    let tx = raw_transaction(payout.raw_tx->0)->0;
    tx.expiry is Some && 0 < tx.expiry->0 <= height
}

/// A step of a payout fails only if the block is in place and the payout has no
/// transaction that can be read.
pub proof fn law_steps_fail_only_without_a_transaction(payout: PayoutView, height: u32, reply: ReplyView)
    ensures
        stepped(payout, height, reply) is None <==> reply is BlockHash && reply->found == Some(payout.block.hash) && (
        payout.raw_tx is None || raw_transaction(payout.raw_tx->0) is None),
{
}

/// A payout gets its transaction when it is built, and never another way. What it owes
/// and to whom stays.
pub proof fn law_payouts_get_their_transaction_when_built(payout: PayoutView, height: u32, reply: ReplyView)
    ensures
        stepped(payout, height, reply) is Some ==> {
            let after = stepped(payout, height, reply)->0.payout;
            &&& after.block == payout.block && after.address == payout.address
            &&& after.amount == payout.amount && after.txids == payout.txids
            &&& reply is Built ==> after.raw_tx == Some(reply->raw_tx) && after.txid == Some(reply->payout_txid)
            &&& !(reply is Built) ==> after.raw_tx == payout.raw_tx && after.txid == payout.txid
        },
{
}

/// A payout is blocked when the chain has another block in the place of its own, or its
/// transaction has expired; it is on its way when it was sent, or found waiting to be
/// mined. Else its status stays.
pub proof fn law_payouts_change_their_status_for_a_reason(payout: PayoutView, height: u32, reply: ReplyView)
    ensures
        stepped(payout, height, reply) is Some ==> {
            let after = stepped(payout, height, reply)->0.payout;
            let lost = reply is BlockHash && reply->found != Some(payout.block.hash);
            let late = reply is BlockHash && !lost && is_too_late(payout, height);
            let underway = reply is Sent || reply is Mempool && exists|i: int|
                0 <= i < reply->waiting.len() && #[trigger] reply->waiting[i] == payout.txid;
            &&& lost || late ==> after.status == "blocked"@
            &&& underway ==> after.status == "broadcast"@
            &&& !lost && !late && !underway ==> after.status == payout.status
            &&& late ==> after.reason == Some("signed payout expired; inspect before retry"@)
            &&& reply is Built ==> after.reason is None
            &&& reply is NotBuilt ==> after.reason == Some(reply->words)
            &&& !late && !(reply is Built) && !(reply is NotBuilt) ==> after.reason == payout.reason
        },
{
    lemma_statuses();
}

/// After a payout was built its block is looked at; if that is in place and the
/// transaction has not expired, the waiting transactions are; if it is not among them,
/// it is sent. Else nothing more is done.
pub proof fn law_payouts_are_sent_after_three_looks(payout: PayoutView, height: u32, reply: ReplyView)
    ensures
        stepped(payout, height, reply) is Some ==> {
            let need = stepped(payout, height, reply)->0.need;
            let waits = reply is Mempool && exists|i: int|
                0 <= i < reply->waiting.len() && #[trigger] reply->waiting[i] == payout.txid;
            &&& need == Need::BlockHash <==> reply is Built
            &&& need == Need::Mempool <==> reply is BlockHash && reply->found == Some(payout.block.hash)
                && !is_too_late(
                payout,
                height,
            )
            &&& need == Need::Broadcast <==> reply is Mempool && !waits
            &&& need != Need::Build
        },
{
    if reply is Mempool && reply->waiting.contains(payout.txid) {
        let i = choose|i: int| 0 <= i < reply->waiting.len() && reply->waiting[i] == payout.txid;
        assert(reply->waiting[i] == payout.txid);
    }
}

/// What is written down of a step: that the payout was signed, blocked, sent, or found
/// on its way for the first time; else nothing.
pub proof fn law_steps_are_written_down(payout: PayoutView, height: u32, reply: ReplyView)
    ensures
        stepped(payout, height, reply) is Some ==> {
            let step = stepped(payout, height, reply)->0;
            let hash = payout.block.hash;
            let lost = reply is BlockHash && reply->found != Some(hash);
            let late = reply is BlockHash && !lost && is_too_late(payout, height);
            let found = reply is Mempool && reply->waiting.contains(payout.txid) && payout.status != "broadcast"@;
            &&& reply is Built ==> step.event == Some(
                EventView::PayoutSigned { block_hash: hash, txid: reply->payout_txid, amount: payout.amount },
            )
            &&& lost || late ==> step.event == Some(EventView::PayoutBlocked { block_hash: hash })
            &&& found ==> step.event == Some(EventView::PayoutRecovered { block_hash: hash })
            &&& reply is Sent ==> step.event == Some(EventView::PayoutBroadcast { block_hash: hash, sent: payout.txid })
            &&& !(reply is Built) && !lost && !late && !found && !(reply is Sent) ==> step.event is None
        },
{
}

/// Why a payout cannot go on: it has no transaction, or one that cannot be read.
pub proof fn law_payouts_cannot_go_on_without_a_transaction(e: PayoutError, payout: PayoutView)
    requires
        is_payout_error(e, payout),
    ensures
        e is Unsigned <==> payout.raw_tx is None,
        e is Raw ==> raw_transaction(payout.raw_tx->0) is None && is_raw_error(e->Raw_0, payout.raw_tx->0),
{
}

/// A note is reserved exactly if the transaction of a payout reveals its nullifier.
pub proof fn law_notes_of_payouts_are_reserved(payouts: Seq<PayoutView>, nullifier: Seq<char>)
    ensures
        is_reserved(payouts, payouts.len() as int, nullifier) <==> exists|p: int, i: int|
            {
                let tx = raw_transaction(payouts[p].raw_tx->0);
                &&& 0 <= p < payouts.len() && payouts[p].raw_tx is Some && tx is Some
                &&& 0 <= i < tx->0.nullifiers.len()
                &&& #[trigger] raw_transaction(payouts[p].raw_tx->0)->0.nullifiers[i] == nullifier
            },
        signed_readable(payouts, payouts.len() as int) <==> forall|p: int|
            0 <= p < payouts.len() && (#[trigger] payouts[p]).raw_tx is Some ==> raw_transaction(
                payouts[p].raw_tx->0,
            ) is Some,
{
    if is_reserved(payouts, payouts.len() as int, nullifier) {
        let p = choose|p: int| 0 <= p < payouts.len() && crate::payout::reveals(#[trigger] payouts[p], nullifier);
        let list = raw_transaction(payouts[p].raw_tx->0)->0.nullifiers;
        let i = choose|i: int| 0 <= i < list.len() && list[i] == nullifier;
        assert(raw_transaction(payouts[p].raw_tx->0)->0.nullifiers[i] == nullifier);
    }
    if exists|p: int, i: int|
        {
            let tx = raw_transaction(payouts[p].raw_tx->0);
            &&& 0 <= p < payouts.len() && payouts[p].raw_tx is Some && tx is Some
            &&& 0 <= i < tx->0.nullifiers.len()
            &&& #[trigger] raw_transaction(payouts[p].raw_tx->0)->0.nullifiers[i] == nullifier
        } {
        let (p, i) = choose|p: int, i: int|
            {
                let tx = raw_transaction(payouts[p].raw_tx->0);
                &&& 0 <= p < payouts.len() && payouts[p].raw_tx is Some && tx is Some
                &&& 0 <= i < tx->0.nullifiers.len()
                &&& #[trigger] raw_transaction(payouts[p].raw_tx->0)->0.nullifiers[i] == nullifier
            };
        assert(crate::payout::reveals(payouts[p], nullifier));
    }
}

/// The notes of payouts are unknown if a transaction cannot be read; the first such one
/// is reported.
pub proof fn law_the_first_unreadable_payout_is_reported(payouts: Seq<PayoutView>, p: int, e: RawTxError)
    requires
        first_unreadable(payouts, p, e),
    ensures
        0 <= p < payouts.len(),
        payouts[p].raw_tx is Some && raw_transaction(payouts[p].raw_tx->0) is None,
        is_raw_error(e, payouts[p].raw_tx->0),
        forall|q: int| 0 <= q < p && (#[trigger] payouts[q]).raw_tx is Some ==> raw_transaction(payouts[q].raw_tx->0) is Some,
{
}

/// The waiting transactions are read in order; what is no text stands for none.
pub proof fn law_waiting_transactions_are_read_in_order(value: Json)
    ensures
        listed(value) is Some <==> value is Array,
        value is Array ==> listed(value)->0.len() == value->Array_0.len(),
        value is Array ==> forall|i: int|
            0 <= i < value->Array_0.len() ==> match #[trigger] value->Array_0[i] {
                Json::Text(text) => listed(value)->0[i] == Some(text),
                _ => listed(value)->0[i] is None,
            },
{
}

/// What an order says: the outputs, pairs of an address and an amount in order; the
/// fee, 20000 unless it says another; and whether a rival is wanted.
pub proof fn law_orders_say_outputs_fee_and_rival(request: Json)
    ensures
        ({
            let list = part(request, "outputs"@);
            let read = requested_outputs(request);
            &&& read is Some <==> bears(request, "outputs"@) && list is Array && forall|i: int|
                0 <= i < list->Array_0.len() ==> is_pair(#[trigger] list->Array_0[i])
            &&& read is Some ==> read->0.len() == list->Array_0.len()
            &&& read is Some ==> forall|i: int|
                0 <= i < list->Array_0.len() ==> (#[trigger] list->Array_0[i])->Array_0[0] == Json::Text(read->0[i].0)
                    && list->Array_0[i]->Array_0[1] == Json::Unsigned(read->0[i].1)
            &&& bears(request, "fee"@) && part(request, "fee"@) is Unsigned ==> part(request, "fee"@) == Json::Unsigned(
                requested_fee(request),
            )
            &&& !(bears(request, "fee"@) && part(request, "fee"@) is Unsigned) ==> requested_fee(request) == 20000
            &&& wants_conflict(request) <==> bears(request, "conflict"@)
                && part(request, "conflict"@) == Json::Bool(true)
        }),
{
    let list = part(request, "outputs"@);
    if list is Array {
        assert forall|i: int| 0 <= i < list->Array_0.len() implies is_pair(#[trigger] list->Array_0[i]) == (
        crate::worker::json_output(list->Array_0[i]) is Some) by {
        }
        if json_outputs(list) is Some {
            assert forall|i: int| 0 <= i < list->Array_0.len() implies is_pair(#[trigger] list->Array_0[i]) by {
                assert(crate::worker::json_output(list->Array_0[i]) is Some);
            }
        }
    }
}

/// Whether a value is a pair of a text and a number.
pub open spec fn is_pair(value: Json) -> bool {
    value is Array && value->Array_0.len() == 2 && value->Array_0[0] is Text && value->Array_0[1] is Unsigned
}

/// The network fees.
pub proof fn law_network_fees_are_fixed()
    ensures
        PAYOUT_FEE == 20000,
        DEFAULT_FEE == 20000,
        CONFLICT_PREMIUM == 100000,
{
}

} // verus!
