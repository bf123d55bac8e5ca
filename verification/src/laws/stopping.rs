//! Stopping: what is left where a reconciliation or a payment cannot go on.

use crate::amount::sum;
use crate::laws::owing::{
    due_for, fees_at, last_with, law_blocks_are_attributed_to_the_miner_they_pay, law_payouts_owe_the_miner_its_share,
    lemma_last_position, lemma_paid_for, mined_by, owes, paid_for,
};
use crate::laws::paying::{can_fund, cutoff, held, law_the_cutoff_loses_no_funding_note, needs};
use crate::laws::settling::{
    holds, last_mined, law_payments_turn_out_as_the_chain_says, law_settling_keeps_signed_and_mined_payouts,
    law_the_node_is_asked_about_open_payments, mined, settles_all, turns_out,
};
use crate::laws::syncing::{hunt, is_noted, law_wallets_hold_every_note_and_no_other, reached, Hunt, Place};
use crate::laws::{lemma_filter_places, picks};
use crate::ledger::{PayoutView, RecordView, StoreView, Tip, TipView};
use crate::reconcile::assign::{
    assigned, fees, is_member, leads, lemma_assigned, members, owed, txids, AssignError, AssignFault, Setting,
};
use crate::reconcile::index::block_position;
use crate::reconcile::settle::{is_readable, settled_payouts, stopped_at};
use crate::reconcile::{is_reconciled, is_tip, ReconcileError};
use crate::transaction::{is_raw_error, raw_transaction, BlockView, RawTxError};
use crate::wallet::keys::{is_key_error, receiver_spec, seed_key, unified_receiver, viewing_key, ReceiverError};
use crate::wallet::payment::{cost, first_unreachable, fits, is_choice, is_obstacle, is_refusal, CreateError};
use crate::wallet::scan::{coinbase, note_nullifier, note_value, parsed_transaction};
use crate::encoding::hex_text;
use crate::wallet::state::{synced, Fault, WalletView};
use vstd::prelude::*;
use zakura_chain::parameters::Network;

verus! {

/// The tip of a chain is its last block, if that has a height and is the best block of
/// the node; else there is a reason why there is none.
pub proof fn law_the_tip_is_the_last_block(tip: Result<Tip, ReconcileError>, blocks: Seq<BlockView>, best_hash: Option<Seq<char>>)
    requires
        is_tip(tip, blocks, best_hash),
    ensures
        ({
            let last = blocks[blocks.len() - 1];
            let best = best_hash is Some && best_hash->0 == last.hash;
            &&& blocks.len() == 0 <==> (tip is Err && tip->Err_0 is EmptyChain)
            &&& blocks.len() > 0 && last.height is None <==> (tip is Err && tip->Err_0 is Height)
            &&& blocks.len() > 0 && last.height is Some && !best <==> (tip is Err && tip->Err_0 is TipChanged)
            &&& blocks.len() > 0 && last.height is Some && best <==> tip is Ok
            &&& tip is Ok ==> Some(tip->Ok_0@.height) == last.height && tip->Ok_0@.hash == last.hash
        }),
{
}

/// Whether a payment cannot be brought up to date: no block mines it, and it cannot be
/// read.
pub open spec fn is_lost(record: RecordView, blocks: Seq<BlockView>) -> bool {
    !mined(blocks, record.txid) && raw_transaction(record.raw_tx) is None
}

/// Whether a payment that cannot be read stopped a reconciliation.
pub open spec fn is_stopped_by_a_payment(
    e: RawTxError,
    before: StoreView,
    after: StoreView,
    verdicts: Seq<bool>,
    setting: Setting,
) -> bool {
    let blocks = setting.blocks;
    let old_records = before.ledger.records;
    let new_records = after.ledger.records;
    &&& !after.ready && after.recovering == before.recovering && after.ledger.tip == before.ledger.tip
    &&& settles_all(before.ledger.payouts, after.ledger.payouts, blocks)
    &&& new_records.len() == old_records.len()
    &&& exists|n: int|
        {
            &&& 0 <= n < old_records.len() && is_lost(#[trigger] old_records[n], blocks)
            &&& is_raw_error(e, old_records[n].raw_tx)
            &&& forall|i: int| 0 <= i < n ==> !is_lost(#[trigger] old_records[i], blocks)
            &&& forall|i: int|
                0 <= i < n ==> turns_out(
                    old_records[i],
                    #[trigger] new_records[i],
                    blocks,
                    verdicts[i],
                    blocks.last().height->0,
                )
            &&& new_records[n] == (RecordView { inclusion: None, ..old_records[n] })
            &&& forall|i: int| n < i < old_records.len() ==> #[trigger] new_records[i] == old_records[i]
        }
}

/// A payment that cannot be read stops a reconciliation. The payouts are settled by
/// then, and the payments before it have turned out; those behind it, and the tip, stay.
pub proof fn law_an_unreadable_payment_stops_the_reconciliation(
    e: RawTxError,
    before: StoreView,
    after: StoreView,
    best_hash: Option<Seq<char>>,
    verdicts: Seq<bool>,
    setting: Setting,
)
    requires
        is_reconciled(Err(ReconcileError::Record(e)), before, after, best_hash, verdicts, setting),
        verdicts.len() == before.ledger.records.len(),
    ensures
        is_stopped_by_a_payment(e, before, after, verdicts, setting),
{
    let blocks = setting.blocks;
    let old_records = before.ledger.records;
    let new_records = after.ledger.records;
    let height = blocks.last().height->0;
    law_settling_keeps_signed_and_mined_payouts(before.ledger.payouts, blocks);
    let n = choose|n: int| #[trigger]
        stopped_at(n, old_records, new_records, blocks, verdicts, height) && is_raw_error(e, old_records[n].raw_tx);
    assert forall|i: int| 0 <= i < old_records.len() implies is_lost(#[trigger] old_records[i], blocks) == !is_readable(
        old_records[i],
        blocks,
    ) by {
        law_the_node_is_asked_about_open_payments(old_records[i], blocks);
    }
    assert forall|i: int| 0 <= i < n implies turns_out(
        old_records[i],
        #[trigger] new_records[i],
        blocks,
        verdicts[i],
        height,
    ) by {
        law_payments_turn_out_as_the_chain_says(old_records[i], blocks, verdicts[i], height);
    }
    assert(is_lost(old_records[n], blocks));
}

/// The payments that are due for a block, and what they pay.
proof fn lemma_due(records: Seq<RecordView>, payouts: Seq<PayoutView>, hash: Seq<char>) -> (places: Seq<int>)
    ensures
        picks(places, records, due_for(hash, payouts)),
        fees(members(records, payouts, hash)) == fees_at(records, places),
        txids(members(records, payouts, hash)) == Seq::new(places.len(), |k: int| records[places[k]].txid),
{
    let chosen = |r: RecordView| is_member(r, payouts, hash);
    let due = due_for(hash, payouts);
    let places = lemma_filter_places(records, chosen);
    let group = members(records, payouts, hash);
    assert forall|k: int| 0 <= k < records.len() implies chosen(#[trigger] records[k]) == due(records[k]) by {
        lemma_paid_for(payouts, records[k].txid);
    }
    assert forall|k: int| 0 <= k < records.len() && due(#[trigger] records[k]) implies places.contains(k) by {
        assert(chosen(records[k]));
    }
    assert forall|k: int| 0 <= k < places.len() implies 0 <= #[trigger] places[k] < records.len() && due(
        records[places[k]],
    ) by {
        assert(chosen(records[places[k]]));
    }
    assert(fees(group) =~= fees_at(records, places));
    assert(txids(group) =~= Seq::new(places.len(), |k: int| records[places[k]].txid));
    places
}

/// Whether a payment is the first that is due for its block.
pub open spec fn first_due(records: Seq<RecordView>, payouts: Seq<PayoutView>, i: int) -> bool {
    let hash = records[i].inclusion->0.hash;
    &&& 0 <= i < records.len() && records[i].inclusion is Some && !paid_for(payouts, records[i].txid)
    &&& forall|j: int|
        0 <= j < i && (#[trigger] records[j]).inclusion is Some && records[j].inclusion->0.hash == hash ==> paid_for(
            payouts,
            records[j].txid,
        )
}

proof fn lemma_first_due(records: Seq<RecordView>, payouts: Seq<PayoutView>, i: int)
    requires
        0 <= i < records.len(),
    ensures
        leads(records, payouts, i) == first_due(records, payouts, i),
{
    assert forall|j: int| 0 <= j < records.len() implies crate::reconcile::assign::is_assigned(
        payouts,
        (#[trigger] records[j]).txid,
    ) == paid_for(payouts, records[j].txid) by {
        lemma_paid_for(payouts, records[j].txid);
    }
    if leads(records, payouts, i) {
        let hash = records[i].inclusion->0.hash;
        assert forall|j: int|
            0 <= j < i && (#[trigger] records[j]).inclusion is Some && records[j].inclusion->0.hash == hash implies paid_for(
            payouts,
            records[j].txid,
        ) by {
            assert(!is_member(records[j], payouts, hash));
        }
    }
    if first_due(records, payouts, i) {
        let hash = records[i].inclusion->0.hash;
        assert forall|j: int| 0 <= j < i implies !is_member(#[trigger] records[j], payouts, hash) by {
            if is_member(records[j], payouts, hash) {
                assert(paid_for(payouts, records[j].txid));
            }
        }
    }
}

proof fn lemma_assignment(records: Seq<RecordView>, payouts: Seq<PayoutView>, n: nat, setting: Setting)
    requires
        n <= records.len(),
    ensures
        ({
            let (list, fault) = assigned(records, payouts, n, setting);
            &&& payouts.len() <= list.len()
            &&& fault is Some ==> exists|i: int|
                0 <= i < n && #[trigger] leads(records, payouts, i) && owed(records, payouts, i, setting) == Err::<
                    Option<PayoutView>,
                    AssignFault,
                >(fault->0)
            &&& forall|q: int|
                payouts.len() <= q < list.len() ==> exists|i: int| #[trigger]
                    leads(records, payouts, i) && 0 <= i < n && records[i].inclusion == Some((#[trigger] list[q]).block)
            &&& forall|p: int, q: int, i: int, j: int|
                payouts.len() <= p < q < list.len() && #[trigger] leads(records, payouts, i) && #[trigger] leads(
                    records,
                    payouts,
                    j,
                ) && 0 <= i < n && 0 <= j < n && records[i].inclusion == Some((#[trigger] list[p]).block)
                    && records[j].inclusion == Some((#[trigger] list[q]).block) ==> i < j
        }),
    decreases n,
{
    if n > 0 {
        lemma_assignment(records, payouts, (n - 1) as nat, setting);
        let before = assigned(records, payouts, (n - 1) as nat, setting);
        let after = assigned(records, payouts, n, setting);
        let list = after.0;
        let m = n - 1;
        assert forall|q: int| payouts.len() <= q < list.len() implies exists|i: int| #[trigger]
            leads(records, payouts, i) && 0 <= i < n && records[i].inclusion == Some((#[trigger] list[q]).block) by {
            if q < before.0.len() {
                let i = choose|i: int| #[trigger]
                    leads(records, payouts, i) && 0 <= i < n - 1 && records[i].inclusion == Some(before.0[q].block);
                assert(leads(records, payouts, i) && list[q] == before.0[q]);
            } else {
                assert(leads(records, payouts, m));
            }
        }
        if after.1 is Some && before.1 is None {
            assert(leads(records, payouts, m));
        }
        assert forall|p: int, q: int, i: int, j: int|
            payouts.len() <= p < q < list.len() && #[trigger] leads(records, payouts, i) && #[trigger] leads(
                records,
                payouts,
                j,
            ) && 0 <= i < n && 0 <= j < n && records[i].inclusion == Some((#[trigger] list[p]).block)
                && records[j].inclusion == Some((#[trigger] list[q]).block) implies i < j by {
            lemma_leads_once(records, payouts, p, q, i, j, n, setting);
        }
    }
}

proof fn lemma_leads_once(
    records: Seq<RecordView>,
    payouts: Seq<PayoutView>,
    p: int,
    q: int,
    i: int,
    j: int,
    n: nat,
    setting: Setting,
)
    requires
        0 < n <= records.len(),
        payouts.len() <= p < q < assigned(records, payouts, n, setting).0.len(),
        leads(records, payouts, i) && leads(records, payouts, j),
        0 <= i < n && 0 <= j < n,
        records[i].inclusion == Some(assigned(records, payouts, n, setting).0[p].block),
        records[j].inclusion == Some(assigned(records, payouts, n, setting).0[q].block),
    ensures
        i < j,
    decreases n,
{
    let before = assigned(records, payouts, (n - 1) as nat, setting).0;
    let list = assigned(records, payouts, n, setting).0;
    lemma_assigned(records, payouts, (n - 1) as nat, setting);
    lemma_assigned(records, payouts, n, setting);
    assert(list[p].block.hash != list[q].block.hash);
    // The payout that was there first belongs to a payment among the first.
    assert(p < before.len() && list[p] == before[p]);
    assert(crate::reconcile::assign::is_new(records, payouts, n - 1, setting, before[p]));
    let a = choose|a: int|
        0 <= a < n - 1 && #[trigger] leads(records, payouts, a) && owed(records, payouts, a, setting) == Ok::<
            Option<PayoutView>,
            AssignFault,
        >(Some(before[p]));
    lemma_one_leader(records, payouts, a, i);
    if q < before.len() {
        assert(list[q] == before[q]);
        assert(crate::reconcile::assign::is_new(records, payouts, n - 1, setting, before[q]));
        let c = choose|c: int|
            0 <= c < n - 1 && #[trigger] leads(records, payouts, c) && owed(records, payouts, c, setting) == Ok::<
                Option<PayoutView>,
                AssignFault,
            >(Some(before[q]));
        lemma_one_leader(records, payouts, c, j);
        lemma_leads_once(records, payouts, p, q, i, j, (n - 1) as nat, setting);
    } else {
        assert(leads(records, payouts, n - 1));
        lemma_one_leader(records, payouts, n - 1, j);
    }
}

proof fn lemma_one_leader(records: Seq<RecordView>, payouts: Seq<PayoutView>, a: int, b: int)
    requires
        0 <= a < records.len() && 0 <= b < records.len(),
        leads(records, payouts, a) && leads(records, payouts, b),
        records[a].inclusion->0.hash == records[b].inclusion->0.hash,
    ensures
        a == b,
{
    let hash = records[a].inclusion->0.hash;
    assert(is_member(records[a], payouts, hash) && is_member(records[b], payouts, hash));
}

/// New payouts stand in the order in which the payments name their blocks: the first
/// payment that is due for the block of the one comes before that of the other.
pub proof fn law_new_payouts_are_in_the_order_of_payments(
    records: Seq<RecordView>,
    payouts: Seq<PayoutView>,
    setting: Setting,
    p: int,
    q: int,
)
    requires
        payouts.len() <= p < q < assigned(records, payouts, records.len(), setting).0.len(),
    ensures
        ({
            let list = assigned(records, payouts, records.len(), setting).0;
            exists|i: int, j: int|
                i < j && #[trigger] first_due(records, payouts, i) && #[trigger] first_due(records, payouts, j)
                    && records[i].inclusion == Some(list[p].block) && records[j].inclusion == Some(list[q].block)
        }),
{
    let n = records.len();
    let list = assigned(records, payouts, n, setting).0;
    lemma_assignment(records, payouts, n, setting);
    assert(payouts.len() <= p < list.len() && payouts.len() <= q < list.len());
    let i = choose|i: int| #[trigger]
        leads(records, payouts, i) && 0 <= i < n && records[i].inclusion == Some(list[p].block);
    let j = choose|j: int| #[trigger]
        leads(records, payouts, j) && 0 <= j < n && records[j].inclusion == Some(list[q].block);
    assert(i < j);
    lemma_first_due(records, payouts, i);
    lemma_first_due(records, payouts, j);
}

/// Whether the fees that are due for a block exceed a bound.
pub open spec fn due_exceed(records: Seq<RecordView>, payouts: Seq<PayoutView>, hash: Seq<char>, times: nat, bound: nat) -> bool {
    exists|places: Seq<int>| #[trigger]
        picks(places, records, due_for(hash, payouts)) && times * sum(fees_at(records, places)) > bound
}

/// The assignment of payouts stops only at a block for which payments are due: it has no
/// height or no transaction, its first transaction cannot be read, or the fees that are
/// due to its miner, or ninety-eight times as much, do not fit.
pub proof fn law_assignment_stops_for_a_reason(records: Seq<RecordView>, payouts: Seq<PayoutView>, setting: Setting)
    requires
        assigned(records, payouts, records.len(), setting).1 is Some,
        forall|i: int|
            0 <= i < records.len() && (#[trigger] records[i]).inclusion is Some ==> holds(
                setting.blocks,
                records[i].inclusion->0.hash,
            ),
    ensures
        exists|i: int, b: int|
            #![trigger first_due(records, payouts, i), last_with(setting.blocks, b, records[i].inclusion->0.hash)]
            {
                let fault = assigned(records, payouts, records.len(), setting).1->0;
                let hash = records[i].inclusion->0.hash;
                let block = setting.blocks[b];
                let bare = block.height is None || block.transactions.len() == 0;
                let parsed = parsed_transaction(block.transactions[0].bytes, setting.net, block.height->0);
                &&& first_due(records, payouts, i) && last_with(setting.blocks, b, hash)
                &&& fault is Height <==> bare
                &&& fault is Coinbase <==> !bare && parsed is None
                &&& fault is Fees || fault is Amount ==> exists|address: Seq<char>|
                    mined_by(block, setting.miners, address, setting.net)
                &&& fault is Fees ==> due_exceed(records, payouts, hash, 1, u64::MAX as nat)
                &&& fault is Amount ==> due_exceed(records, payouts, hash, 98, u64::MAX as nat)
            },
{
    let n = records.len();
    let fault = assigned(records, payouts, n, setting).1->0;
    lemma_assignment(records, payouts, n, setting);
    let i = choose|i: int|
        0 <= i < n && #[trigger] leads(records, payouts, i) && owed(records, payouts, i, setting) == Err::<
            Option<PayoutView>,
            AssignFault,
        >(fault);
    lemma_first_due(records, payouts, i);
    let hash = records[i].inclusion->0.hash;
    assert(holds(setting.blocks, hash));
    lemma_last_position(setting.blocks, setting.blocks.len(), hash);
    let b = block_position(setting.blocks, setting.blocks.len(), hash)->0;
    assert(last_with(setting.blocks, b, hash));
    let block = setting.blocks[b];
    if coinbase(block, setting.net) is Some {
        law_blocks_are_attributed_to_the_miner_they_pay(block, setting.miners, setting.net);
        let places = lemma_due(records, payouts, hash);
        let total = sum(fees_at(records, places));
        assert(picks(places, records, due_for(hash, payouts)));
        if fault is Fees {
            assert(1 * total > u64::MAX);
            assert(due_exceed(records, payouts, hash, 1, u64::MAX as nat));
        }
        if fault is Amount {
            assert(98 * total > u64::MAX);
            assert(due_exceed(records, payouts, hash, 98, u64::MAX as nat));
        }
    }
}

/// Whether payouts that cannot be assigned stopped a reconciliation.
pub open spec fn is_stopped_by_a_block(
    e: AssignError,
    before: StoreView,
    after: StoreView,
    verdicts: Seq<bool>,
    setting: Setting,
) -> bool {
    let blocks = setting.blocks;
    let height = blocks.last().height->0;
    let kept = settled_payouts(before.ledger.payouts, blocks);
    let old_records = before.ledger.records;
    let new_records = after.ledger.records;
    let fault = assigned(new_records, kept, new_records.len(), setting).1;
    &&& !after.ready && after.recovering == before.recovering
    &&& after.ledger.tip == Some(TipView { height, hash: blocks.last().hash })
    &&& new_records.len() == old_records.len()
    &&& forall|i: int|
        0 <= i < old_records.len() ==> turns_out(
            old_records[i],
            #[trigger] new_records[i],
            blocks,
            verdicts[i],
            height,
        )
    &&& settles_all(before.ledger.payouts, kept, blocks)
    &&& kept.len() <= after.ledger.payouts.len() && after.ledger.payouts.take(kept.len() as int) == kept
    &&& forall|q: int|
        kept.len() <= q < after.ledger.payouts.len() ==> owes(
            #[trigger] after.ledger.payouts[q],
            new_records,
            kept,
            setting,
        )
    &&& fault is Some
    &&& fault->0 is Height <==> (e is Coinbase && e->Coinbase_0 is Height)
    &&& fault->0 is Coinbase <==> (e is Coinbase && e->Coinbase_0 is Malformed)
    &&& fault->0 is Fees <==> (e is Share && e->Share_0 is Fees)
    &&& fault->0 is Amount <==> (e is Share && e->Share_0 is Amount)
}

/// Where the payouts cannot be assigned, the rest is done: the tip is the new one, the
/// payments have turned out, the payouts that were there are settled, and those that
/// could be assigned stand behind them. The error says what stopped it.
pub proof fn law_unassignable_payouts_stop_the_reconciliation(
    e: AssignError,
    before: StoreView,
    after: StoreView,
    best_hash: Option<Seq<char>>,
    verdicts: Seq<bool>,
    setting: Setting,
)
    requires
        is_reconciled(Err(ReconcileError::Assign(e)), before, after, best_hash, verdicts, setting),
        verdicts.len() == before.ledger.records.len(),
    ensures
        is_stopped_by_a_block(e, before, after, verdicts, setting),
{
    let blocks = setting.blocks;
    let height = blocks.last().height->0;
    let records = after.ledger.records;
    let kept = settled_payouts(before.ledger.payouts, blocks);
    law_settling_keeps_signed_and_mined_payouts(before.ledger.payouts, blocks);
    lemma_assigned(records, kept, records.len(), setting);
    assert forall|i: int| 0 <= i < before.ledger.records.len() implies turns_out(
        before.ledger.records[i],
        #[trigger] records[i],
        blocks,
        verdicts[i],
        height,
    ) by {
        law_payments_turn_out_as_the_chain_says(before.ledger.records[i], blocks, verdicts[i], height);
    }
    assert forall|i: int| 0 <= i < records.len() && (#[trigger] records[i]).inclusion is Some implies holds(
        blocks,
        records[i].inclusion->0.hash,
    ) by {
        let b = choose|b: int| #[trigger]
            last_mined(blocks, b, before.ledger.records[i].txid) && records[i].inclusion == Some(
                TipView { height: blocks[b].height->0, hash: blocks[b].hash },
            );
        assert(blocks[b].hash == records[i].inclusion->0.hash);
    }
    assert forall|q: int| kept.len() <= q < after.ledger.payouts.len() implies owes(
        #[trigger] after.ledger.payouts[q],
        records,
        kept,
        setting,
    ) by {
        law_payouts_owe_the_miner_its_share(records, kept, setting, q);
    }
}

/// Whether an address can be paid an amount.
pub open spec fn is_payable(output: (Seq<char>, u64), net: Network) -> bool {
    unified_receiver(output.0, net) is Some && unified_receiver(output.0, net)->0 is Some && output.1
        <= 2_100_000_000_000_000
}

/// Whether an error is the first thing that stands against a payment.
pub open spec fn is_first_reason(
    e: CreateError,
    wallet: WalletView,
    blocks: Seq<BlockView>,
    seed: Seq<char>,
    outputs: Seq<(Seq<char>, u64)>,
    fee: u64,
    input: Option<Seq<char>>,
    reserved: Set<Seq<char>>,
    net: Network,
) -> bool {
    let fvk = viewing_key(seed_key(seed)->0);
    let tip = held(wallet, blocks, seed, outputs, fee, net);
    let fault = synced(wallet, blocks, fvk, net, cutoff(outputs, fee) as u64).fault;
    let keyed = seed_key(seed) is Some;
    let fits_in = cutoff(outputs, fee) <= u64::MAX;
    let follows = keyed && fits_in && fault is None;
    let funded = exists|k: int|
        0 <= k < tip.notes.len() && can_fund(
            #[trigger] tip.notes[k],
            fvk,
            needs(outputs, fee),
            reserved,
            input,
        );
    let affordable = follows && needs(outputs, fee) <= u64::MAX;
    &&& e is Key <==> !keyed
    &&& e is Key ==> is_key_error(e->Key_0, seed)
    &&& e is Sync <==> keyed && fits_in && fault is Some
    &&& e is Sync ==> (e->Sync_0 is Height <==> fault == Some(Fault::Height)) && (e->Sync_0 is Malformed
        <==> fault == Some(Fault::Malformed)) && (e->Sync_0 is TreeFull <==> fault == Some(Fault::TreeFull))
    &&& e is Overflow <==> keyed && (!fits_in || follows && needs(outputs, fee) > u64::MAX)
    &&& e is NoNote <==> affordable && !funded
    &&& e is EmptyChain <==> affordable && funded && blocks.len() == 0
    &&& e is Height <==> affordable && funded && blocks.len() > 0 && blocks.last().height is None
    &&& e is Receiver || e is Amount || e is Refused <==> affordable && funded && blocks.len() > 0
        && blocks.last().height is Some
    &&& e is Receiver ==> exists|i: int|
        {
            &&& 0 <= i < outputs.len()
            &&& forall|j: int| 0 <= j < i ==> is_payable(#[trigger] outputs[j], net)
            &&& e->Receiver_0 is NotUnified <==> unified_receiver((#[trigger] outputs[i]).0, net) is None
            &&& e->Receiver_0 is NoReceiver <==> unified_receiver(outputs[i].0, net) is Some && unified_receiver(
                outputs[i].0,
                net,
            )->0 is None
        }
}

/// A payment is refused for the first thing that stands against it: the seed gives no
/// key, the amounts do not fit, the wallet does not follow the chain, no note can fund
/// it, the chain is empty, or its last block has no height.
pub proof fn law_payments_are_refused_for_the_first_reason(
    e: CreateError,
    wallet: WalletView,
    blocks: Seq<BlockView>,
    seed: Seq<char>,
    outputs: Seq<(Seq<char>, u64)>,
    fee: u64,
    input: Option<Seq<char>>,
    reserved: Set<Seq<char>>,
    net: Network,
)
    requires
        is_refusal(e, wallet, blocks, seed, outputs, fee, input, reserved, net),
    ensures
        is_first_reason(e, wallet, blocks, seed, outputs, fee, input, reserved, net),
{
    law_the_cutoff_loses_no_funding_note(outputs, fee);
    let fvk = viewing_key(seed_key(seed)->0);
    let tip = held(wallet, blocks, seed, outputs, fee, net);
    let total = cost(outputs, fee);
    assert forall|k: int| 0 <= k < tip.notes.len() implies can_fund(
        #[trigger] tip.notes[k],
        fvk,
        needs(outputs, fee),
        reserved,
        input,
    ) == fits(tip.notes[k], fvk, total, reserved, input) by {
    }
    if exists|k: int|
        0 <= k < tip.notes.len() && can_fund(#[trigger] tip.notes[k], fvk, needs(outputs, fee), reserved, input) {
        let k = choose|k: int|
            0 <= k < tip.notes.len() && can_fund(#[trigger] tip.notes[k], fvk, needs(outputs, fee), reserved, input);
        let first = crate::laws::paying::lemma_first_fit(tip, k, fvk, total, reserved, input);
        assert(is_choice(tip, first, fvk, total, reserved, input));
    } else {
        assert forall|k: int| !#[trigger] is_choice(tip, k, fvk, total, reserved, input) by {
            if is_choice(tip, k, fvk, total, reserved, input) {
                assert(can_fund(tip.notes[k], fvk, needs(outputs, fee), reserved, input));
            }
        }
    }
    if e is Receiver {
        let height = (blocks.last().height->0 + 1) as u32;
        let k = choose|k: int| #[trigger]
            is_choice(tip, k, fvk, total, reserved, input) && is_obstacle(e, tip, k, fvk, height, outputs, fee, net);
        let r = e->Receiver_0;
        let i = choose|i: int| #[trigger] first_unreachable(outputs, i, r, net);
        assert(receiver_spec(outputs[i].0, net) == Err::<orchard::Address, ReceiverError>(r));
        assert forall|j: int| 0 <= j < i implies is_payable(#[trigger] outputs[j], net) by {
            assert(receiver_spec(outputs[j].0, net) is Ok);
        }
    }
}

/// A note that the chain pays to the seed, that it does not spend, that is worth what a
/// payment needs, that is not reserved, and that was paid by the transaction that the
/// payment names, if it names one, keeps the payment from being refused for want of a
/// note.
pub proof fn law_a_note_paid_by_the_named_transaction_is_found(
    e: CreateError,
    wallet: WalletView,
    blocks: Seq<BlockView>,
    seed: Seq<char>,
    outputs: Seq<(Seq<char>, u64)>,
    fee: u64,
    input: Option<Seq<char>>,
    reserved: Set<Seq<char>>,
    net: Network,
    at: Place,
)
    requires
        is_refusal(e, wallet, blocks, seed, outputs, fee, input, reserved, net),
        seed_key(seed) is Some,
        ({
            let fvk = viewing_key(seed_key(seed)->0);
            let h = hunt(wallet, blocks, fvk, net, cutoff(outputs, fee) as u64);
            &&& h.finds(at)
            &&& needs(outputs, fee) <= note_value(h.note(at)->0)
            &&& !reserved.contains(hex_text(note_nullifier(h.note(at)->0, fvk)))
            &&& input is None || input->0 == blocks[at.b].transactions[at.t].txid
        }),
    ensures
        !(e is NoNote),
{
    if e is NoNote {
        let fvk = viewing_key(seed_key(seed)->0);
        let least = cutoff(outputs, fee) as u64;
        let h = hunt(wallet, blocks, fvk, net, least);
        law_payments_are_refused_for_the_first_reason(e, wallet, blocks, seed, outputs, fee, input, reserved, net);
        law_wallets_hold_every_note_and_no_other(wallet, blocks, fvk, net, least);
        let over = crate::laws::syncing::starts_over(wallet, blocks, least);
        let own = crate::laws::syncing::own_notes(wallet, over);
        let tip = held(wallet, blocks, seed, outputs, fee, net);
        let end = Place { b: blocks.len() as int, t: 0, i: 0 };
        let places = choose|places: Seq<int>| #[trigger]
            picks(places, own, crate::laws::syncing::stays(h)) && reached(
                h,
                crate::laws::syncing::picked(own, places),
                tip,
                end,
            );
        let old_notes = crate::laws::syncing::picked(own, places);
        assert(is_noted(h, tip.notes, old_notes.len() as int, at)) by {
            reveal(reached);
            reveal(Hunt::finds);
        }
        reveal(is_noted);
        let k = choose|k: int| old_notes.len() <= k < tip.notes.len() && h.is_at(#[trigger] tip.notes[k], at);
        reveal(Hunt::is_at);
        assert(can_fund(tip.notes[k], fvk, needs(outputs, fee), reserved, input));
    }
}

} // verus!
