//! Reconciling the ledger with the chain: which payments were mined, which failed,
//! and what the miners are owed.

pub mod assign;
pub mod index;
pub mod settle;

use crate::amount::ShareError;
use crate::event::Event;
use crate::ledger::{record_views, LedgerView, Payout, PayoutView, RecordView, Store, StoreView, Tip};
use crate::reconcile::assign::{
    assign_payouts, assigned, distinct_txids, law_payments_are_paid_once, paid_once, AssignError, Setting,
};
use crate::reconcile::index::{all_heights, block_tip, index_chain};
use crate::reconcile::settle::{
    has_block, included, is_kept, needs_verdict, open_questions, readable_until, settle_payouts, settled, settled_payouts,
    stopped_at, update_records, updated, updated_records,
};
use crate::snapshot::{plain_receipts, saved_text};
use crate::text::{same_optional, same_text, texts};
use crate::transaction::{block_views, is_raw_error, Block, BlockView, RawTxError};
use crate::wallet::scan::CoinbaseError;
use vstd::prelude::*;
use zakura_chain::parameters::Network;

verus! {

/// Whether a payout still has to be built, sent or confirmed.
pub open spec fn is_open(payout: PayoutView) -> bool {
    payout.status == "waiting"@ || payout.status == "broadcast"@
}

/// Whether the ledger has to be reconciled, given the best block of the node. A node
/// that has not caught up with the ledger since the service started is waited for. A
/// ledger that is up to date is left alone unless payouts are open.
pub open spec fn must_reconcile(store: StoreView, best_hash: Option<Seq<char>>, best_height: Option<u32>) -> bool {
    let tip = store.ledger.tip;
    &&& best_hash is Some
    &&& !(store.recovering && tip is Some && (best_height is None || best_height->0 < tip->0.height))
    &&& !(store.ready && tip is Some && tip->0.hash == best_hash->0 && forall|p: int|
        0 <= p < store.ledger.payouts.len() ==> !is_open(#[trigger] store.ledger.payouts[p]))
}

fn any_open(payouts: &Vec<Payout>) -> (found: bool)
    ensures
        found == exists|p: int| 0 <= p < payouts@.len() && is_open((#[trigger] payouts@[p])@),
{
    let mut p: usize = 0;
    while p < payouts.len()
        invariant
            p <= payouts.len(),
            forall|k: int| 0 <= k < p ==> !is_open((#[trigger] payouts@[k])@),
        decreases payouts.len() - p,
    {
        if same_text(payouts[p].status.as_str(), "waiting") || same_text(payouts[p].status.as_str(), "broadcast") {
            return true;
        }
        p += 1;
    }
    false
}

impl Store {
    /// Decides whether the ledger has to be reconciled.
    pub fn must_reconcile(&self, best_hash: Option<&str>, best_height: Option<u32>) -> (must: bool)
        ensures
            must == must_reconcile(self@, saved_text(best_hash), best_height),
    {
        let hash = match best_hash {
            Some(hash) => hash,
            None => {
                return false;
            },
        };
        let payouts_open = any_open(&self.ledger.payouts);
        proof {
            if payouts_open {
                let p = choose|p: int| 0 <= p < self.ledger.payouts@.len() && is_open((#[trigger] self.ledger.payouts@[p])@);
                assert(is_open(self@.ledger.payouts[p]));
            }
        }
        match &self.ledger.tip {
            Some(tip) => {
                let behind = match best_height {
                    Some(height) => height < tip.height,
                    None => true,
                };
                let settled = self.ready && same_text(tip.hash.as_str(), hash) && !payouts_open;
                !(self.recovering && behind) && !settled
            },
            None => true,
        }
    }
}

/// Why the ledger could not be reconciled.
#[derive(Debug, PartialEq)]
pub enum ReconcileError {
    /// The chain has no blocks.
    EmptyChain,
    /// A block has no height.
    Height,
    /// The chain is no longer the best one.
    TipChanged,
    /// An accepted payment cannot be read.
    Record(RawTxError),
    /// The payouts cannot be assigned.
    Assign(AssignError),
}

impl ReconcileError {
    /// The error in words.
    pub fn message(&self) -> (text: String)
        ensures
            match *self {
                ReconcileError::EmptyChain => text@ == "empty chain"@,
                ReconcileError::Height => text@ == "height"@,
                ReconcileError::TipChanged => text@ == "tip changed before reconciliation"@,
                ReconcileError::Record(RawTxError::Hex(words)) => text@ == words@,
                ReconcileError::Record(RawTxError::Malformed(words)) => text@ == words@,
                ReconcileError::Record(RawTxError::Trailing) => text@ == "trailing transaction bytes"@,
                ReconcileError::Assign(AssignError::Coinbase(CoinbaseError::Height)) => text@ == "height"@,
                ReconcileError::Assign(AssignError::Coinbase(CoinbaseError::Malformed(words))) => text@ == words@,
                ReconcileError::Assign(AssignError::Share(ShareError::Fees)) => text@ == "fee overflow"@,
                ReconcileError::Assign(AssignError::Share(ShareError::Amount)) => text@ == "amount overflow"@,
            },
    {
        match self {
            ReconcileError::EmptyChain => "empty chain".to_string(),
            ReconcileError::Height => "height".to_string(),
            ReconcileError::TipChanged => "tip changed before reconciliation".to_string(),
            ReconcileError::Record(e) => e.message(),
            ReconcileError::Assign(e) => e.message(),
        }
    }
}

/// The tip of a chain, or why it is not to be reconciled with: it has none, or it is
/// not the best chain of the node.
pub open spec fn is_tip(tip: Result<Tip, ReconcileError>, blocks: Seq<BlockView>, best_hash: Option<Seq<char>>) -> bool {
    match tip {
        Ok(tip) => {
            &&& blocks.len() > 0 && blocks.last().height is Some
            &&& tip@ == block_tip(blocks.last())
            &&& best_hash == Some(blocks.last().hash)
        },
        Err(ReconcileError::EmptyChain) => blocks.len() == 0,
        Err(ReconcileError::Height) => blocks.len() > 0 && blocks.last().height is None,
        Err(ReconcileError::TipChanged) => {
            &&& blocks.len() > 0 && blocks.last().height is Some
            &&& best_hash != Some(blocks.last().hash)
        },
        _ => false,
    }
}

/// Finds the tip of a chain, which must be the best chain of the node.
pub fn chain_tip(blocks: &Vec<Block>, best_hash: Option<&str>) -> (tip: Result<Tip, ReconcileError>)
    ensures
        is_tip(tip, block_views(blocks@), saved_text(best_hash)),
{
    if blocks.len() == 0 {
        return Err(ReconcileError::EmptyChain);
    }
    let last = &blocks[blocks.len() - 1];
    assert(block_views(blocks@).last() == last@);
    match last.height {
        Some(height) => {
            let hash = last.hash.clone();
            if same_optional(best_hash, Some(hash.as_str())) {
                Ok(Tip { height, hash })
            } else {
                Err(ReconcileError::TipChanged)
            }
        },
        None => Err(ReconcileError::Height),
    }
}

impl Store {
    /// For each accepted payment, whether a node has to say if it is still valid.
    /// Nothing is asked where a block has no height.
    pub fn questions(&self, blocks: &Vec<Block>) -> (asked: Option<Vec<bool>>)
        ensures
            match asked {
                Some(asked) => {
                    &&& all_heights(block_views(blocks@))
                    &&& asked@.len() == self.ledger.records@.len()
                    &&& forall|i: int|
                        0 <= i < asked@.len() ==> #[trigger] asked@[i] == needs_verdict(
                            self@.ledger.records[i],
                            block_views(blocks@),
                        )
                },
                None => !all_heights(block_views(blocks@)),
            },
    {
        match index_chain(blocks) {
            Some(index) => {
                let asked = open_questions(&self.ledger.records, &index, Ghost(block_views(blocks@)));
                assert forall|i: int| 0 <= i < asked@.len() implies #[trigger] asked@[i] == needs_verdict(
                    self@.ledger.records[i],
                    block_views(blocks@),
                ) by {
                    assert(self@.ledger.records[i] == self.ledger.records@[i]@);
                }
                Some(asked)
            },
            None => None,
        }
    }

    /// Brings the ledger up to date with the best chain of the node: payouts are
    /// settled, payments updated, and what the miners are owed is assigned. Where an
    /// error stops it, what was done before stays done, and the service is not ready.
    /// `verdicts` says of each payment that is asked about whether the node found it
    /// valid.
    pub fn reconcile(
        &mut self,
        blocks: &Vec<Block>,
        best_hash: Option<&str>,
        verdicts: &Vec<bool>,
        miners: &Vec<String>,
        net: &Network,
    ) -> (done: Result<Event, ReconcileError>)
        requires
            verdicts@.len() == old(self).ledger.records@.len(),
        ensures
            ({
                let setting = Setting { blocks: block_views(blocks@), miners: texts(miners@), net: *net };
                is_reconciled(done, old(self)@, final(self)@, saved_text(best_hash), verdicts@, setting)
            }),
    {
        let ghost chain = block_views(blocks@);
        let ghost start = self@;
        let tip = match chain_tip(blocks, best_hash) {
            Ok(tip) => tip,
            Err(e) => {
                return Err(e);
            },
        };
        self.ready = false;
        let index = match index_chain(blocks) {
            Some(index) => index,
            None => {
                return Err(ReconcileError::Height);
            },
        };
        settle_payouts(&mut self.ledger.payouts, &index, Ghost(chain));
        if let Err(e) = update_records(&mut self.ledger.records, &index, Ghost(chain), verdicts, tip.height) {
            proof {
                let height = chain.last().height->0;
                let n = choose|n: int| #[trigger]
                    stopped_at(n, start.ledger.records, record_views(self.ledger.records@), chain, verdicts@, tip.height)
                        && is_raw_error(e, start.ledger.records[n].raw_tx);
                assert(stopped_at(n, start.ledger.records, self@.ledger.records, chain, verdicts@, height));
            }
            return Err(ReconcileError::Record(e));
        }
        self.ledger.tip = Some(tip.clone());
        proof {
            let records = self@.ledger.records;
            assert forall|i: int|
                0 <= i < self.ledger.records@.len() && (
                #[trigger] self.ledger.records@[i]).inclusion is Some implies has_block(
                chain,
                self.ledger.records@[i].inclusion->0.hash@,
            ) by {
                assert(records[i] == self.ledger.records@[i]@);
                lemma_included_blocks(chain, records[i].txid);
            }
        }
        match assign_payouts(&self.ledger.records, &mut self.ledger.payouts, &index, blocks, miners, net) {
            Ok(_) => Ok(Event::Reconciled { tip }),
            Err(e) => Err(ReconcileError::Assign(e)),
        }
    }

    /// Accepts payments again, once the reconciled ledger was saved.
    pub fn resume(&mut self)
        ensures
            final(self)@ == (StoreView { ready: true, recovering: false, ..old(self)@ }),
    {
        self.ready = true;
        self.recovering = false;
    }
}

/// The payments after a reconciliation.
pub open spec fn reconciled_records(
    ledger: LedgerView,
    verdicts: Seq<bool>,
    setting: Setting,
) -> Seq<RecordView> {
    updated_records(
        ledger.records,
        ledger.records.len() as int,
        setting.blocks,
        verdicts,
        setting.blocks.last().height->0,
    )
}

/// The ledger after a reconciliation, and what stopped the assignment of payouts.
pub open spec fn reconciled(ledger: LedgerView, verdicts: Seq<bool>, setting: Setting) -> (
    LedgerView,
    Option<assign::AssignFault>,
) {
    let records = reconciled_records(ledger, verdicts, setting);
    let outcome = assigned(records, settled_payouts(ledger.payouts, setting.blocks), records.len(), setting);
    (LedgerView { tip: Some(block_tip(setting.blocks.last())), records, payouts: outcome.0 }, outcome.1)
}

/// Whether a reconciliation did what it should.
pub open spec fn is_reconciled(
    done: Result<Event, ReconcileError>,
    before: StoreView,
    after: StoreView,
    best_hash: Option<Seq<char>>,
    verdicts: Seq<bool>,
    setting: Setting,
) -> bool {
    let blocks = setting.blocks;
    let on_best = blocks.len() > 0 && blocks.last().height is Some && best_hash == Some(blocks.last().hash);
    let stopped = StoreView { ready: false, ..before };
    let settled = settled_payouts(before.ledger.payouts, blocks);
    match done {
        Ok(event) => {
            &&& on_best && all_heights(blocks)
            &&& readable_until(before.ledger.records, before.ledger.records.len() as int, blocks)
            &&& after == (StoreView { ledger: reconciled(before.ledger, verdicts, setting).0, ..stopped })
            &&& reconciled(before.ledger, verdicts, setting).1 is None
            &&& event@ == (crate::event::EventView::Reconciled { tip: block_tip(blocks.last()) })
        },
        Err(ReconcileError::EmptyChain) => blocks.len() == 0 && after == before,
        Err(ReconcileError::TipChanged) => {
            &&& blocks.len() > 0 && blocks.last().height is Some && best_hash != Some(blocks.last().hash)
            &&& after == before
        },
        Err(ReconcileError::Height) => {
            ||| blocks.len() > 0 && blocks.last().height is None && after == before
            ||| on_best && !all_heights(blocks) && after == stopped
        },
        Err(ReconcileError::Record(e)) => {
            &&& on_best && all_heights(blocks)
            &&& after.ready == false && after.recovering == before.recovering
            &&& after.ledger.tip == before.ledger.tip
            &&& after.ledger.payouts == settled
            &&& exists|n: int| #[trigger]
                stopped_at(n, before.ledger.records, after.ledger.records, blocks, verdicts, blocks.last().height->0)
                    && is_raw_error(e, before.ledger.records[n].raw_tx)
        },
        Err(ReconcileError::Assign(e)) => {
            &&& on_best && all_heights(blocks)
            &&& readable_until(before.ledger.records, before.ledger.records.len() as int, blocks)
            &&& after == (StoreView { ledger: reconciled(before.ledger, verdicts, setting).0, ..stopped })
            &&& reconciled(before.ledger, verdicts, setting).1 == Some(e.fault())
        },
    }
}

impl LedgerView {
    /// Whether the ledger is in order: no payment is in it twice, none is paid for
    /// twice, and its receipts survive a restart.
    pub open spec fn sound(self) -> bool {
        &&& distinct_txids(self.records)
        &&& paid_once(self.payouts)
        &&& plain_receipts(self)
    }
}

proof fn lemma_settling_pays_once(payouts: Seq<PayoutView>, blocks: Seq<BlockView>)
    requires
        paid_once(payouts),
    ensures
        paid_once(settled_payouts(payouts, blocks)),
        forall|a: int|
            0 <= a < settled_payouts(payouts, blocks).len() ==> exists|b: int|
                0 <= b < payouts.len() && (#[trigger] settled_payouts(payouts, blocks)[a]).txids == (
                #[trigger] payouts[b]).txids,
    decreases payouts.len(),
{
    reveal(Seq::filter);
    let f = |p: PayoutView| settled(p, blocks);
    let keep = |p: PayoutView| is_kept(p, blocks);
    if payouts.len() > 0 {
        let before = payouts.drop_last();
        assert(payouts.map_values(f).drop_last() =~= before.map_values(f));
        assert(paid_once(before)) by {
            assert forall|p: int, a: int, q: int, b: int|
                0 <= p < before.len() && 0 <= q < before.len() && 0 <= a < before[p].txids.len() && 0 <= b
                    < before[q].txids.len() && (#[trigger] before[p].txids[a]) == (
                #[trigger] before[q].txids[b]) implies p == q && a == b by {
                assert(payouts[p].txids[a] == payouts[q].txids[b]);
            }
        }
        lemma_settling_pays_once(before, blocks);
        let some = settled_payouts(before, blocks);
        let all = settled_payouts(payouts, blocks);
        let last = payouts.len() - 1;
        assert forall|a: int| 0 <= a < all.len() implies exists|b: int|
            0 <= b < payouts.len() && (#[trigger] all[a]).txids == (#[trigger] payouts[b]).txids by {
            if a < some.len() {
                assert(all[a] == some[a]);
                let b = choose|b: int| 0 <= b < before.len() && some[a].txids == (#[trigger] before[b]).txids;
                assert(payouts[b].txids == all[a].txids);
            } else {
                assert(all[a].txids == payouts[last].txids);
            }
        }
        assert forall|p: int, a: int, q: int, b: int|
            0 <= p < all.len() && 0 <= q < all.len() && 0 <= a < all[p].txids.len() && 0 <= b < all[q].txids.len() && (
            #[trigger] all[p].txids[a]) == (#[trigger] all[q].txids[b]) implies p == q && a == b by {
            if p < some.len() && q < some.len() {
                assert(some[p].txids[a] == some[q].txids[b]);
            } else if p < some.len() {
                let k = choose|k: int| 0 <= k < before.len() && some[p].txids == (#[trigger] before[k]).txids;
                assert(payouts[k].txids[a] == payouts[last].txids[b]);
            } else if q < some.len() {
                let k = choose|k: int| 0 <= k < before.len() && some[q].txids == (#[trigger] before[k]).txids;
                assert(payouts[last].txids[a] == payouts[k].txids[b]);
            } else {
                assert(payouts[last].txids[a] == payouts[last].txids[b]);
            }
        }
    }
}

/// A reconciliation keeps the ledger in order, even one that stops before all payouts
/// are assigned: payments stay in it once, with their receipts, and are paid for once.
pub proof fn law_reconciliation_keeps_the_ledger_sound(ledger: LedgerView, verdicts: Seq<bool>, setting: Setting)
    requires
        ledger.sound(),
        verdicts.len() == ledger.records.len(),
    ensures
        reconciled(ledger, verdicts, setting).0.sound(),
        reconciled(ledger, verdicts, setting).0.records.len() == ledger.records.len(),
        forall|i: int|
            0 <= i < ledger.records.len() ==> (#[trigger] reconciled(ledger, verdicts, setting).0.records[i]).txid
                == ledger.records[i].txid && reconciled(ledger, verdicts, setting).0.records[i].receipt
                == ledger.records[i].receipt,
{
    let records = reconciled_records(ledger, verdicts, setting);
    assert(distinct_txids(records)) by {
        assert forall|i: int, j: int| 0 <= i < j < records.len() implies (#[trigger] records[i]).txid != (
        #[trigger] records[j]).txid by {
            assert(ledger.records[i].txid != ledger.records[j].txid);
        }
    }
    lemma_settling_pays_once(ledger.payouts, setting.blocks);
    law_payments_are_paid_once(records, settled_payouts(ledger.payouts, setting.blocks), records.len(), setting);
    assert(plain_receipts(reconciled(ledger, verdicts, setting).0)) by {
        assert forall|i: int| 0 <= i < records.len() implies crate::json::is_plain((#[trigger] records[i]).receipt, 90) by {
            assert(crate::json::is_plain(ledger.records[i].receipt, 90));
        }
    }
}

/// A reconciliation that stops at a payment that cannot be read keeps the ledger in
/// order, too.
pub proof fn law_stopped_reconciliation_keeps_the_ledger_sound(
    ledger: LedgerView,
    after: Seq<RecordView>,
    n: int,
    blocks: Seq<BlockView>,
    verdicts: Seq<bool>,
    height: u32,
)
    requires
        ledger.sound(),
        verdicts.len() == ledger.records.len(),
        stopped_at(n, ledger.records, after, blocks, verdicts, height),
    ensures
        (LedgerView { records: after, payouts: settled_payouts(ledger.payouts, blocks), ..ledger }).sound(),
{
    assert forall|i: int, j: int| 0 <= i < j < after.len() implies (#[trigger] after[i]).txid != (
    #[trigger] after[j]).txid by {
        assert(ledger.records[i].txid != ledger.records[j].txid);
    }
    lemma_settling_pays_once(ledger.payouts, blocks);
    assert forall|i: int| 0 <= i < after.len() implies crate::json::is_plain((#[trigger] after[i]).receipt, 90) by {
        assert(crate::json::is_plain(ledger.records[i].receipt, 90));
    }
}

proof fn lemma_included_blocks(blocks: Seq<BlockView>, txid: Seq<char>)
    ensures
        included(blocks, txid) is Some ==> has_block(blocks, included(blocks, txid)->0.hash),
{
    if included(blocks, txid) is Some {
        index::lemma_inclusion(blocks, blocks.len(), txid);
        let b = choose|b: int|
            0 <= b < blocks.len() && index::block_includes(#[trigger] blocks[b], txid) && included(blocks, txid)->0
                == block_tip(blocks[b]);
        index::lemma_position(blocks, blocks.len(), blocks[b].hash);
    }
}

proof fn lemma_settled_is_settled(payout: PayoutView, blocks: Seq<BlockView>)
    ensures
        settled(settled(payout, blocks), blocks) == settled(payout, blocks),
{
    reveal_strlit("blocked");
    reveal_strlit("confirmed");
    assert("blocked"@.len() == 7 && "confirmed"@.len() == 9);
}

/// Whether the chain leaves a payout as it is.
spec fn is_stable(payout: PayoutView, blocks: Seq<BlockView>) -> bool {
    settled(payout, blocks) == payout && is_kept(payout, blocks)
}

proof fn lemma_stable_payouts(payouts: Seq<PayoutView>, blocks: Seq<BlockView>)
    requires
        forall|p: int| 0 <= p < payouts.len() ==> is_stable(#[trigger] payouts[p], blocks),
    ensures
        settled_payouts(payouts, blocks) == payouts,
    decreases payouts.len(),
{
    reveal(Seq::filter);
    let f = |p: PayoutView| settled(p, blocks);
    let keep = |p: PayoutView| is_kept(p, blocks);
    if payouts.len() > 0 {
        let before = payouts.drop_last();
        assert forall|p: int| 0 <= p < before.len() implies is_stable(#[trigger] before[p], blocks) by {
            assert(before[p] == payouts[p]);
        }
        lemma_stable_payouts(before, blocks);
        assert(payouts.map_values(f).drop_last() =~= before.map_values(f));
        assert(is_stable(payouts[payouts.len() - 1], blocks));
        assert(before.push(payouts.last()) =~= payouts);
    } else {
        assert(settled_payouts(payouts, blocks) =~= payouts);
    }
}

proof fn lemma_settled_payouts_are_stable(payouts: Seq<PayoutView>, blocks: Seq<BlockView>)
    ensures
        forall|p: int|
            0 <= p < settled_payouts(payouts, blocks).len() ==> is_stable(
                #[trigger] settled_payouts(payouts, blocks)[p],
                blocks,
            ),
    decreases payouts.len(),
{
    reveal(Seq::filter);
    let f = |p: PayoutView| settled(p, blocks);
    if payouts.len() > 0 {
        let before = payouts.drop_last();
        lemma_settled_payouts_are_stable(before, blocks);
        assert(payouts.map_values(f).drop_last() =~= before.map_values(f));
        lemma_settled_is_settled(payouts.last(), blocks);
        let some = settled_payouts(before, blocks);
        let all = settled_payouts(payouts, blocks);
        assert forall|p: int| 0 <= p < all.len() implies is_stable(#[trigger] all[p], blocks) by {
            if p < some.len() {
                assert(all[p] == some[p]);
                assert(is_stable(some[p], blocks));
            }
        }
    }
}

/// Reconciling again with the same chain and the same verdicts changes nothing, so it
/// does no harm to do it again and again while payouts are open.
pub proof fn law_reconciling_again_changes_nothing(ledger: LedgerView, verdicts: Seq<bool>, setting: Setting)
    requires
        verdicts.len() == ledger.records.len(),
        reconciled(ledger, verdicts, setting).1 is None,
    ensures
        reconciled(reconciled(ledger, verdicts, setting).0, verdicts, setting) == reconciled(ledger, verdicts, setting),
{
    let blocks = setting.blocks;
    let once = reconciled(ledger, verdicts, setting).0;
    let records = once.records;
    assert(reconciled_records(once, verdicts, setting) =~= records);
    let payouts = settled_payouts(ledger.payouts, blocks);
    lemma_settled_payouts_are_stable(ledger.payouts, blocks);
    assert forall|q: int| 0 <= q < once.payouts.len() implies is_stable(#[trigger] once.payouts[q], blocks) by {
        assign::lemma_assigned_or_new(records, payouts, setting, q);
        if !(q < payouts.len() && once.payouts[q] == payouts[q]) {
            let payout = once.payouts[q];
            let i = choose|i: int|
                0 <= i < records.len() && #[trigger] assign::leads(records, payouts, i) && assign::owed(
                    records,
                    payouts,
                    i,
                    setting,
                ) == Ok::<Option<PayoutView>, assign::AssignFault>(Some(payout));
            assert(records[i] == updated(ledger.records[i], blocks, verdicts[i], blocks.last().height->0));
            lemma_included_blocks(blocks, ledger.records[i].txid);
            reveal_strlit("waiting");
            reveal_strlit("blocked");
            reveal_strlit("confirmed");
            assert("waiting"@[0] == 'w' && "blocked"@[0] == 'b' && "confirmed"@[0] == 'c');
        }
    }
    lemma_stable_payouts(once.payouts, blocks);
    assign::law_assigning_again_changes_nothing(records, payouts, setting, records.len());
}

} // verus!
