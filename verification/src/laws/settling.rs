//! Reconciling: what a chain makes of payments and payouts.

use crate::event::{Event, EventView};
use crate::laws::owing::{
    last_with, law_included_payments_get_a_payout, law_payouts_owe_the_miner_its_share, mined_by, owes, paid_for,
};
use crate::laws::{lemma_filter_places, picks};
use crate::ledger::{PayoutView, RecordView, StoreView, TipView};
use crate::reconcile::assign::Setting;
use crate::reconcile::index::{block_includes, inclusion, lemma_inclusion, lemma_position};
use crate::reconcile::settle::{
    has_block, in_conflict, included, is_kept, is_readable, needs_verdict, settled, settled_payouts, updated,
};
use crate::reconcile::{is_reconciled, must_reconcile, ReconcileError};
use crate::transaction::{chain_spends, list_spends, raw_transaction, spends, BlockView, TxView};
use vstd::prelude::*;

verus! {

/// Whether a block of the chain has a hash.
pub open spec fn holds(blocks: Seq<BlockView>, hash: Seq<char>) -> bool {
    exists|b: int| 0 <= b < blocks.len() && (#[trigger] blocks[b]).hash == hash
}

/// Whether a block has a transaction with an identifier.
pub open spec fn mined_in(block: BlockView, txid: Seq<char>) -> bool {
    exists|t: int| 0 <= t < block.transactions.len() && (#[trigger] block.transactions[t]).txid == txid
}

/// Whether a block of the chain has a transaction with an identifier.
pub open spec fn mined(blocks: Seq<BlockView>, txid: Seq<char>) -> bool {
    exists|b: int| 0 <= b < blocks.len() && mined_in(#[trigger] blocks[b], txid)
}

/// Whether a transaction of the chain reveals a nullifier.
pub open spec fn revealed(blocks: Seq<BlockView>, nullifier: Seq<char>) -> bool {
    exists|b: int, t: int|
        0 <= b < blocks.len() && 0 <= t < blocks[b].transactions.len() && (
        #[trigger] blocks[b].transactions[t]).nullifiers.contains(nullifier)
}

/// Whether a transaction reveals a nullifier that a transaction of the chain reveals.
pub open spec fn overtaken(tx: TxView, blocks: Seq<BlockView>) -> bool {
    exists|i: int| 0 <= i < tx.nullifiers.len() && revealed(blocks, #[trigger] tx.nullifiers[i])
}

pub proof fn lemma_holds(blocks: Seq<BlockView>, hash: Seq<char>)
    ensures
        has_block(blocks, hash) == holds(blocks, hash),
{
    lemma_position(blocks, blocks.len(), hash);
}

pub proof fn lemma_mined(blocks: Seq<BlockView>, txid: Seq<char>)
    ensures
        included(blocks, txid) is Some == mined(blocks, txid),
{
    lemma_inclusion(blocks, blocks.len(), txid);
    if included(blocks, txid) is Some {
        let b = choose|b: int|
            0 <= b < blocks.len() && block_includes(#[trigger] blocks[b], txid) && included(blocks, txid)->0
                == crate::reconcile::index::block_tip(blocks[b]);
        assert(mined_in(blocks[b], txid));
    }
    if mined(blocks, txid) {
        let b = choose|b: int| 0 <= b < blocks.len() && mined_in(#[trigger] blocks[b], txid);
        assert(block_includes(blocks[b], txid));
    }
}

/// What a chain makes of a payout, in terms of its fields and of the blocks.
pub open spec fn settles(before: PayoutView, after: PayoutView, blocks: Seq<BlockView>) -> bool {
    let there = holds(blocks, before.block.hash);
    let paid = before.txid is Some && mined(blocks, before.txid->0);
    &&& after.block == before.block && after.address == before.address && after.amount == before.amount
    &&& after.txids == before.txids && after.raw_tx == before.raw_tx && after.txid == before.txid
    &&& before.status == "blocked"@ ==> after.status == "blocked"@ && after.reason == before.reason
    &&& before.status != "blocked"@ && there && paid ==> after.status == "confirmed"@ && after.reason == before.reason
    &&& after.status == "confirmed"@ && (there || before.raw_tx is Some) ==> before.status != "blocked"@ && there
        && paid
    &&& before.status != "blocked"@ && there && !paid && before.status == "confirmed"@ ==> after.status == "blocked"@
        && after.reason == Some("payout confirmation orphaned; inspect before retry"@)
    &&& there && !paid && before.status != "confirmed"@ ==> after.status == before.status && after.reason
        == before.reason
    &&& before.status != "blocked"@ && !there && before.raw_tx is Some ==> after.status == "blocked"@ && after.reason
        == Some("inclusion block orphaned after signing; inspect before retry"@)
    &&& !there && before.raw_tx is None ==> after.status == before.status && after.reason == before.reason
}

/// A payout that is not blocked, whose block is in the chain and whose transaction is
/// mined, is confirmed, whatever its status was, and no other payout that stays in the
/// ledger is. One that was signed for a lost block, or whose confirmation was lost, is
/// blocked. Nothing else about a payout changes.
pub proof fn law_mined_payouts_are_confirmed(payout: PayoutView, blocks: Seq<BlockView>)
    ensures
        settles(payout, settled(payout, blocks), blocks),
{
    lemma_holds(blocks, payout.block.hash);
    if payout.txid is Some {
        lemma_mined(blocks, payout.txid->0);
    }
    reveal_strlit("blocked");
    reveal_strlit("confirmed");
    assert("blocked"@.len() == 7 && "confirmed"@.len() == 9);
}

/// The payouts that a chain leaves in the ledger: those that were signed, and those
/// whose block it has. They keep their order, and each is settled.
pub open spec fn settles_all(before: Seq<PayoutView>, after: Seq<PayoutView>, blocks: Seq<BlockView>) -> bool {
    let stays = |p: PayoutView| p.raw_tx is Some || holds(blocks, p.block.hash);
    exists|places: Seq<int>| #[trigger]
        picks(places, before, stays) && after.len() == places.len() && forall|i: int|
            0 <= i < places.len() ==> settles(before[#[trigger] places[i]], after[i], blocks)
}

/// Settling keeps the payouts that were signed and those whose block the chain has, in
/// order, and settles each.
pub proof fn law_settling_keeps_signed_and_mined_payouts(payouts: Seq<PayoutView>, blocks: Seq<BlockView>)
    ensures
        settles_all(payouts, settled_payouts(payouts, blocks), blocks),
{
    let f = |p: PayoutView| settled(p, blocks);
    let keep = |p: PayoutView| is_kept(p, blocks);
    let wanted = |p: PayoutView| p.raw_tx is Some || holds(blocks, p.block.hash);
    let mapped = payouts.map_values(f);
    let places = lemma_filter_places(mapped, keep);
    let after = settled_payouts(payouts, blocks);
    assert forall|k: int| 0 <= k < payouts.len() implies keep(#[trigger] mapped[k]) == wanted(payouts[k]) by {
        law_mined_payouts_are_confirmed(payouts[k], blocks);
        lemma_holds(blocks, payouts[k].block.hash);
        lemma_holds(blocks, mapped[k].block.hash);
    }
    assert(picks(places, payouts, wanted)) by {
        assert forall|i: int| 0 <= i < places.len() implies 0 <= #[trigger] places[i] < payouts.len() && wanted(
            payouts[places[i]],
        ) by {
            assert(keep(mapped[places[i]]));
        }
        assert forall|k: int| 0 <= k < payouts.len() && wanted(#[trigger] payouts[k]) implies places.contains(k) by {
            assert(keep(mapped[k]));
        }
    }
    assert forall|i: int| 0 <= i < places.len() implies settles(payouts[#[trigger] places[i]], after[i], blocks) by {
        law_mined_payouts_are_confirmed(payouts[places[i]], blocks);
        assert(after[i] == mapped[places[i]]);
    }
}

/// Whether a block is the last of the chain that mines a payment.
pub open spec fn last_mined(blocks: Seq<BlockView>, b: int, txid: Seq<char>) -> bool {
    &&& 0 <= b < blocks.len() && mined_in(blocks[b], txid)
    &&& forall|c: int| b < c < blocks.len() ==> !mined_in(#[trigger] blocks[c], txid)
}

proof fn lemma_last_mined(blocks: Seq<BlockView>, n: nat, txid: Seq<char>)
    requires
        n <= blocks.len(),
    ensures
        match inclusion(blocks, n, txid) {
            Some(tip) => exists|b: int|
                {
                    &&& 0 <= b < n && #[trigger] mined_in(blocks[b], txid)
                    &&& forall|c: int| b < c < n ==> !mined_in(#[trigger] blocks[c], txid)
                    &&& tip == (TipView { height: blocks[b].height->0, hash: blocks[b].hash })
                },
            None => forall|c: int| 0 <= c < n ==> !mined_in(#[trigger] blocks[c], txid),
        },
    decreases n,
{
    if n > 0 {
        assert(mined_in(blocks[n - 1], txid) == block_includes(blocks[n - 1], txid));
        lemma_last_mined(blocks, (n - 1) as nat, txid);
        if !mined_in(blocks[n - 1], txid) && inclusion(blocks, n, txid) is Some {
            let tip = inclusion(blocks, n, txid)->0;
            let b = choose|b: int|
                {
                    &&& 0 <= b < n - 1 && #[trigger] mined_in(blocks[b], txid)
                    &&& forall|c: int| b < c < n - 1 ==> !mined_in(#[trigger] blocks[c], txid)
                    &&& tip == (TipView { height: blocks[b].height->0, hash: blocks[b].hash })
                };
            assert(mined_in(blocks[b], txid));
        }
    }
}

proof fn lemma_overtaken(tx: TxView, blocks: Seq<BlockView>)
    ensures
        in_conflict(tx, blocks) == overtaken(tx, blocks),
{
    if in_conflict(tx, blocks) {
        let nf = choose|nf: Seq<char>| #[trigger] spends(tx, nf) && chain_spends(blocks, 0, blocks.len() as int, nf);
        let i = choose|i: int| 0 <= i < tx.nullifiers.len() && tx.nullifiers[i] == nf;
        let b = choose|b: int|
            0 <= b < blocks.len() && list_spends(
                (#[trigger] blocks[b]).transactions,
                blocks[b].transactions.len() as int,
                nf,
            );
        let t = choose|t: int| 0 <= t < blocks[b].transactions.len() && spends(#[trigger] blocks[b].transactions[t], nf);
        assert(blocks[b].transactions[t].nullifiers.contains(nf));
        assert(revealed(blocks, tx.nullifiers[i]));
    }
    if overtaken(tx, blocks) {
        let i = choose|i: int| 0 <= i < tx.nullifiers.len() && revealed(blocks, #[trigger] tx.nullifiers[i]);
        let nf = tx.nullifiers[i];
        let (b, t) = choose|b: int, t: int|
            0 <= b < blocks.len() && 0 <= t < blocks[b].transactions.len() && (
            #[trigger] blocks[b].transactions[t]).nullifiers.contains(nf);
        assert(spends(blocks[b].transactions[t], nf));
        assert(list_spends(blocks[b].transactions, blocks[b].transactions.len() as int, nf));
        assert(chain_spends(blocks, 0, blocks.len() as int, nf));
        assert(spends(tx, nf));
    }
}

/// What a chain and the verdict of the node make of an accepted payment: it is included
/// where a block mines it, in the last block that does; failed where the chain has seen
/// one of its notes spent or the node finds it invalid; and pending otherwise.
pub open spec fn turns_out(before: RecordView, after: RecordView, blocks: Seq<BlockView>, valid: bool, height: u32) -> bool {
    let tx = raw_transaction(before.raw_tx)->0;
    &&& after.txid == before.txid && after.raw_tx == before.raw_tx && after.fee == before.fee
    &&& after.receipt == before.receipt
    &&& mined(blocks, before.txid) ==> after.status == "included"@ && after.failure_reason is None && exists|b: int|
        #[trigger] last_mined(blocks, b, before.txid) && after.inclusion == Some(
            TipView { height: blocks[b].height->0, hash: blocks[b].hash },
        )
    &&& !mined(blocks, before.txid) ==> after.inclusion is None
    &&& !mined(blocks, before.txid) && raw_transaction(before.raw_tx) is Some ==> {
        &&& overtaken(tx, blocks) ==> after.status == "failed"@ && after.failure_reason == Some("conflict"@)
        &&& !overtaken(tx, blocks) && valid ==> after.status == "pending"@ && after.failure_reason is None
        &&& !overtaken(tx, blocks) && !valid ==> after.status == "failed"@
        &&& !overtaken(tx, blocks) && !valid && (tx.expiry is None || tx.expiry->0 == 0 || tx.expiry->0 > height)
            ==> after.failure_reason == Some("invalidated"@)
        &&& !overtaken(tx, blocks) && !valid && tx.expiry is Some && 0 < tx.expiry->0 <= height
            ==> after.failure_reason == Some("expired"@)
    }
}

/// A payment turns out as the chain and the node say, and keeps its receipt.
pub proof fn law_payments_turn_out_as_the_chain_says(
    record: RecordView,
    blocks: Seq<BlockView>,
    valid: bool,
    height: u32,
)
    ensures
        turns_out(record, updated(record, blocks, valid, height), blocks, valid, height),
{
    lemma_mined(blocks, record.txid);
    lemma_last_mined(blocks, blocks.len(), record.txid);
    if included(blocks, record.txid) is Some {
        let tip = included(blocks, record.txid)->0;
        let b = choose|b: int|
            {
                &&& 0 <= b < blocks.len() && #[trigger] mined_in(blocks[b], record.txid)
                &&& forall|c: int| b < c < blocks.len() ==> !mined_in(#[trigger] blocks[c], record.txid)
                &&& tip == (TipView { height: blocks[b].height->0, hash: blocks[b].hash })
            };
        assert(last_mined(blocks, b, record.txid));
    }
    if raw_transaction(record.raw_tx) is Some {
        lemma_overtaken(raw_transaction(record.raw_tx)->0, blocks);
    }
}

/// The node is asked about exactly those payments that can be read, are in no block and
/// spend no note that the chain has seen spent.
pub proof fn law_the_node_is_asked_about_open_payments(record: RecordView, blocks: Seq<BlockView>)
    ensures
        needs_verdict(record, blocks) == (!mined(blocks, record.txid) && raw_transaction(record.raw_tx) is Some
            && !overtaken(raw_transaction(record.raw_tx)->0, blocks)),
        is_readable(record, blocks) == (mined(blocks, record.txid) || raw_transaction(record.raw_tx) is Some),
{
    lemma_mined(blocks, record.txid);
    if raw_transaction(record.raw_tx) is Some {
        lemma_overtaken(raw_transaction(record.raw_tx)->0, blocks);
    }
}

/// The ledger is reconciled whenever the node has a best block that is not the tip of
/// the ledger, and also while payouts are waiting or on their way or the service is not
/// ready; but not while a node that the service has just been started with is still
/// behind the ledger.
pub proof fn law_the_ledger_is_reconciled_when_it_must_be(
    store: StoreView,
    best_hash: Option<Seq<char>>,
    best_height: Option<u32>,
    p: int,
)
    requires
        0 <= p < store.ledger.payouts.len(),
    ensures
        best_hash is None ==> !must_reconcile(store, best_hash, best_height),
        best_hash is Some && store.ledger.tip is None ==> must_reconcile(store, best_hash, best_height),
        store.recovering && store.ledger.tip is Some && (best_height is None || best_height->0 < store.ledger.tip->0.height)
            ==> !must_reconcile(store, best_hash, best_height),
        best_hash is Some && store.ledger.tip is Some && (!store.recovering || best_height is Some && best_height->0
            >= store.ledger.tip->0.height) ==> {
            &&& !store.ready ==> must_reconcile(store, best_hash, best_height)
            &&& store.ledger.tip->0.hash != best_hash->0 ==> must_reconcile(store, best_hash, best_height)
            &&& store.ledger.payouts[p].status == "waiting"@ || store.ledger.payouts[p].status == "broadcast"@
                ==> must_reconcile(store, best_hash, best_height)
        },
        store.ready && store.ledger.tip is Some && best_hash == Some(store.ledger.tip->0.hash) && (forall|q: int|
            0 <= q < store.ledger.payouts.len() ==> (#[trigger] store.ledger.payouts[q]).status != "waiting"@
                && store.ledger.payouts[q].status != "broadcast"@) ==> !must_reconcile(store, best_hash, best_height),
{
    assert(crate::reconcile::is_open(store.ledger.payouts[p]) == (store.ledger.payouts[p].status == "waiting"@
        || store.ledger.payouts[p].status == "broadcast"@));
}

/// Whether a ledger without payouts must be reconciled.
pub proof fn law_a_ledger_without_payouts_is_reconciled_for_a_new_block(
    store: StoreView,
    best_hash: Option<Seq<char>>,
    best_height: Option<u32>,
)
    requires
        store.ledger.payouts.len() == 0,
        store.ledger.tip is Some,
        !store.recovering || best_height is Some && best_height->0 >= store.ledger.tip->0.height,
        best_hash is Some,
    ensures
        must_reconcile(store, best_hash, best_height) == (!store.ready || best_hash->0 != store.ledger.tip->0.hash),
{
}

/// Whether a reconciliation did all that the chain and the node ask for.
pub open spec fn is_brought_up_to_date(
    event: EventView,
    before: StoreView,
    after: StoreView,
    best_hash: Option<Seq<char>>,
    verdicts: Seq<bool>,
    setting: Setting,
) -> bool {
    let blocks = setting.blocks;
    let tip = TipView { height: blocks.last().height->0, hash: blocks.last().hash };
    &&& blocks.len() > 0 && best_hash == Some(blocks.last().hash)
    &&& forall|b: int| 0 <= b < blocks.len() ==> (#[trigger] blocks[b]).height is Some
    &&& event == (EventView::Reconciled { tip })
    &&& !after.ready && after.recovering == before.recovering
    &&& after.ledger.tip == Some(tip)
    &&& after.ledger.records.len() == before.ledger.records.len()
    &&& forall|i: int|
        0 <= i < before.ledger.records.len() ==> turns_out(
            before.ledger.records[i],
            #[trigger] after.ledger.records[i],
            blocks,
            verdicts[i],
            tip.height,
        )
    &&& exists|kept: Seq<PayoutView>| #[trigger]
        settles_all(before.ledger.payouts, kept, blocks) && kept.len() <= after.ledger.payouts.len()
            && after.ledger.payouts.take(kept.len() as int) == kept && owes_all(
            after.ledger.records,
            kept,
            after.ledger.payouts,
            setting,
        )
}

/// What a reconciliation that comes to its end does: it has followed the best chain of
/// the node to its tip; every payment has turned out as the chain and the node say; the
/// payouts that were there are settled, and behind them stands, for each block with
/// payments that are due, what is owed to its miner. The service is not ready before
/// the ledger was saved.
pub proof fn law_reconciliation_follows_the_chain(
    done: Result<Event, ReconcileError>,
    before: StoreView,
    after: StoreView,
    best_hash: Option<Seq<char>>,
    verdicts: Seq<bool>,
    setting: Setting,
)
    requires
        is_reconciled(done, before, after, best_hash, verdicts, setting),
        verdicts.len() == before.ledger.records.len(),
        done is Ok,
    ensures
        is_brought_up_to_date(done->Ok_0@, before, after, best_hash, verdicts, setting),
{
    let blocks = setting.blocks;
    let records = after.ledger.records;
    let height = blocks.last().height->0;
    assert forall|i: int| 0 <= i < before.ledger.records.len() implies turns_out(
        before.ledger.records[i],
        #[trigger] records[i],
        blocks,
        verdicts[i],
        height,
    ) by {
        law_payments_turn_out_as_the_chain_says(before.ledger.records[i], blocks, verdicts[i], height);
    }
    let kept = settled_payouts(before.ledger.payouts, blocks);
    law_settling_keeps_signed_and_mined_payouts(before.ledger.payouts, blocks);
    crate::reconcile::assign::lemma_assigned(records, kept, records.len(), setting);
    assert forall|i: int| 0 <= i < records.len() && (#[trigger] records[i]).inclusion is Some implies holds(
        blocks,
        records[i].inclusion->0.hash,
    ) by {
        let b = choose|b: int| #[trigger]
            last_mined(blocks, b, before.ledger.records[i].txid) && records[i].inclusion == Some(
                TipView { height: blocks[b].height->0, hash: blocks[b].hash },
            );
        assert(blocks[b].hash == records[i].inclusion->0.hash);
    }
    assert forall|q: int| kept.len() <= q < after.ledger.payouts.len() implies owes(
        #[trigger] after.ledger.payouts[q],
        records,
        kept,
        setting,
    ) by {
        law_payouts_owe_the_miner_its_share(records, kept, setting, q);
    }
    assert forall|i: int, b: int|
        0 <= i < records.len() && (#[trigger] records[i]).inclusion is Some && !paid_for(kept, records[i].txid)
            && #[trigger] last_with(blocks, b, records[i].inclusion->0.hash) && (forall|j: int, k: int|
            0 <= j < k < records.len() ==> (#[trigger] records[j]).txid != (#[trigger] records[k]).txid) implies (
    exists|address: Seq<char>| mined_by(blocks[b], setting.miners, address, setting.net)) == paid_for(
        after.ledger.payouts,
        records[i].txid,
    ) by {
        law_included_payments_get_a_payout(records, kept, setting, i, b);
    }
}

/// Whether the payouts behind those that were kept are what is owed: each for what is
/// due for its block, one for each block, and, as long as no payment is in the ledger
/// twice, a payment that is included and was not paid for gets one exactly if its block
/// was mined by one configured miner.
pub open spec fn owes_all(
    records: Seq<RecordView>,
    kept: Seq<PayoutView>,
    payouts: Seq<PayoutView>,
    setting: Setting,
) -> bool {
    &&& forall|q: int| kept.len() <= q < payouts.len() ==> owes(#[trigger] payouts[q], records, kept, setting)
    &&& forall|p: int, q: int|
        kept.len() <= p < q < payouts.len() ==> (#[trigger] payouts[p]).block.hash != (#[trigger] payouts[q]).block.hash
    &&& forall|i: int, b: int|
        0 <= i < records.len() && (#[trigger] records[i]).inclusion is Some && !paid_for(kept, records[i].txid)
            && #[trigger] last_with(setting.blocks, b, records[i].inclusion->0.hash) && (forall|j: int, k: int|
            0 <= j < k < records.len() ==> (#[trigger] records[j]).txid != (#[trigger] records[k]).txid) ==> (exists|
            address: Seq<char>,
        | mined_by(setting.blocks[b], setting.miners, address, setting.net)) == paid_for(payouts, records[i].txid)
}

/// Whether a reconciliation is refused exactly where there is a reason.
pub open spec fn is_refused_rightly(
    done: Result<Event, ReconcileError>,
    before: StoreView,
    after: StoreView,
    best_hash: Option<Seq<char>>,
    setting: Setting,
) -> bool {
    let blocks = setting.blocks;
    let stale = blocks.len() > 0 && blocks.last().height is Some && best_hash != Some(blocks.last().hash);
    let bare = blocks.len() > 0 && blocks.last().height is None;
    let gap = exists|b: int| 0 <= b < blocks.len() && (#[trigger] blocks[b]).height is None;
    let broken = exists|i: int|
        0 <= i < before.ledger.records.len() && !mined(blocks, (#[trigger] before.ledger.records[i]).txid)
            && raw_transaction(before.ledger.records[i].raw_tx) is None;
    &&& blocks.len() == 0 <==> (done is Err && done->Err_0 is EmptyChain)
    &&& stale <==> (done is Err && done->Err_0 is TipChanged)
    &&& blocks.len() == 0 || stale || bare ==> after == before
    &&& !(blocks.len() == 0 || stale || bare) ==> !after.ready
    &&& blocks.len() > 0 && !stale ==> (gap <==> (done is Err && done->Err_0 is Height))
    &&& (done is Err && done->Err_0 is Record) ==> broken
    &&& done is Ok ==> !broken
    &&& (done is Err && done->Err_0 is Assign) ==> !broken
}

/// A reconciliation that an error stops leaves the service not ready once it has
/// started, and changes nothing where the chain is empty, has a last block without a
/// height, or is not the best chain of the node.
pub proof fn law_reconciliation_is_refused_for_a_reason(
    done: Result<Event, ReconcileError>,
    before: StoreView,
    after: StoreView,
    best_hash: Option<Seq<char>>,
    verdicts: Seq<bool>,
    setting: Setting,
)
    requires
        is_reconciled(done, before, after, best_hash, verdicts, setting),
        verdicts.len() == before.ledger.records.len(),
    ensures
        is_refused_rightly(done, before, after, best_hash, setting),
{
    let blocks = setting.blocks;
    let records = before.ledger.records;
    assert forall|i: int| 0 <= i < records.len() implies is_readable(#[trigger] records[i], blocks) == (mined(
        blocks,
        records[i].txid,
    ) || raw_transaction(records[i].raw_tx) is Some) by {
        law_the_node_is_asked_about_open_payments(records[i], blocks);
    }
    if done is Err && done->Err_0 is Record {
        let n = choose|n: int| #[trigger]
            crate::reconcile::settle::stopped_at(
                n,
                records,
                after.ledger.records,
                blocks,
                verdicts,
                blocks.last().height->0,
            );
        assert(!is_readable(records[n], blocks));
    }
}

} // verus!
