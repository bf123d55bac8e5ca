//! What a new chain means for the payouts and for the accepted payments.

use crate::ledger::{payout_views, record_views, Payout, PayoutView, Record, RecordView, TipView};
use crate::reconcile::index::{block_position, inclusion, ChainIndex};
use crate::text::{any_in, same_text, texts};
use crate::transaction::{chain_spends, is_raw_error, raw_transaction, raw_tx, spends, BlockView, RawTxError, Tx, TxView};
use vstd::prelude::*;

verus! {

/// Whether the chain has a block with a hash.
pub open spec fn has_block(blocks: Seq<BlockView>, hash: Seq<char>) -> bool {
    block_position(blocks, blocks.len(), hash) is Some
}

/// Where the chain includes a payment.
pub open spec fn included(blocks: Seq<BlockView>, txid: Seq<char>) -> Option<TipView> {
    inclusion(blocks, blocks.len(), txid)
}

/// What the chain makes of a payout. One that is blocked stays as it is. One for a
/// block that the chain has lost is blocked if it was signed. One whose transaction
/// the chain includes is confirmed; one that was confirmed and is no longer included
/// is blocked.
pub open spec fn settled(payout: PayoutView, blocks: Seq<BlockView>) -> PayoutView {
    if payout.status == "blocked"@ {
        payout
    } else if !has_block(blocks, payout.block.hash) {
        if payout.raw_tx is Some {
            PayoutView {
                status: "blocked"@,
                reason: Some("inclusion block orphaned after signing; inspect before retry"@),
                ..payout
            }
        } else {
            payout
        }
    } else if payout.txid is Some && included(blocks, payout.txid->0) is Some {
        PayoutView { status: "confirmed"@, ..payout }
    } else if payout.status == "confirmed"@ {
        PayoutView {
            status: "blocked"@,
            reason: Some("payout confirmation orphaned; inspect before retry"@),
            ..payout
        }
    } else {
        payout
    }
}

/// Whether a payout stays in the ledger: it was signed, or the chain has its block.
pub open spec fn is_kept(payout: PayoutView, blocks: Seq<BlockView>) -> bool {
    payout.raw_tx is Some || has_block(blocks, payout.block.hash)
}

/// What the chain makes of the payouts of the ledger.
pub open spec fn settled_payouts(payouts: Seq<PayoutView>, blocks: Seq<BlockView>) -> Seq<PayoutView> {
    payouts.map_values(|p: PayoutView| settled(p, blocks)).filter(|p: PayoutView| is_kept(p, blocks))
}

/// Brings one payout up to date with the chain.
fn settle(payout: &mut Payout, index: &ChainIndex, blocks: Ghost<Seq<BlockView>>)
    requires
        index.is_of(blocks@),
    ensures
        final(payout)@ == settled(old(payout)@, blocks@),
{
    if same_text(payout.status.as_str(), "blocked") {
        return ;
    }
    let found = index.positions.contains_key(payout.block.hash.as_str());
    if !found {
        if payout.raw_tx.is_some() {
            payout.status = "blocked".to_string();
            payout.reason = Some("inclusion block orphaned after signing; inspect before retry".to_string());
        }
        return ;
    }
    let mined = match &payout.txid {
        Some(txid) => index.inclusions.contains_key(txid.as_str()),
        None => false,
    };
    if mined {
        payout.status = "confirmed".to_string();
    } else if same_text(payout.status.as_str(), "confirmed") {
        payout.status = "blocked".to_string();
        payout.reason = Some("payout confirmation orphaned; inspect before retry".to_string());
    }
}

/// Brings the payouts up to date with the chain.
pub(crate) fn settle_payouts(payouts: &mut Vec<Payout>, index: &ChainIndex, blocks: Ghost<Seq<BlockView>>)
    requires
        index.is_of(blocks@),
    ensures
        payout_views(final(payouts)@) == settled_payouts(payout_views(old(payouts)@), blocks@),
{
    let ghost all = payout_views(payouts@).map_values(|p: PayoutView| settled(p, blocks@));
    let ghost keep = |p: PayoutView| is_kept(p, blocks@);
    let mut list: Vec<Payout> = Vec::new();
    let mut i: usize = 0;
    assert(payout_views(list@) =~= all.take(0).filter(keep)) by {
        reveal(Seq::filter);
    }
    while i < payouts.len()
        invariant
            i <= payouts.len(),
            *payouts == *old(payouts),
            index.is_of(blocks@),
            all == payout_views(payouts@).map_values(|p: PayoutView| settled(p, blocks@)),
            keep == (|p: PayoutView| is_kept(p, blocks@)),
            payout_views(list@) == all.take(i as int).filter(keep),
        decreases payouts.len() - i,
    {
        let mut payout = payouts[i].clone();
        settle(&mut payout, index, blocks);
        let stays = payout.raw_tx.is_some() || index.positions.contains_key(payout.block.hash.as_str());
        proof {
            reveal(Seq::filter);
            assert(all[i as int] == payout@);
            assert(all.take(i + 1).drop_last() =~= all.take(i as int));
            assert(all.take(i + 1).last() == payout@);
            assert(stays == keep(payout@));
        }
        let ghost before = list@;
        if stays {
            list.push(payout);
            assert(payout_views(list@) =~= payout_views(before).push(payout@));
        }
        i += 1;
    }
    assert(all.take(all.len() as int) =~= all);
    *payouts = list;
}

/// Whether a payment spends a note that the chain has seen spent.
pub open spec fn in_conflict(tx: TxView, blocks: Seq<BlockView>) -> bool {
    exists|nf: Seq<char>| #[trigger] spends(tx, nf) && chain_spends(blocks, 0, blocks.len() as int, nf)
}

/// Whether a payment can no longer be mined after a height.
pub open spec fn is_expired(tx: TxView, height: u32) -> bool {
    tx.expiry is Some && tx.expiry->0 != 0 && tx.expiry->0 <= height
}

/// Whether the chain and the record together say what becomes of a payment: it is
/// included, or it can be read.
pub open spec fn is_readable(record: RecordView, blocks: Seq<BlockView>) -> bool {
    included(blocks, record.txid) is Some || raw_transaction(record.raw_tx) is Some
}

/// Whether a node has to say if a payment is still valid: the chain neither includes
/// it nor conflicts with it.
pub open spec fn needs_verdict(record: RecordView, blocks: Seq<BlockView>) -> bool {
    &&& included(blocks, record.txid) is None
    &&& raw_transaction(record.raw_tx) is Some
    &&& !in_conflict(raw_transaction(record.raw_tx)->0, blocks)
}

/// What the chain, and where it is asked the node's verdict, make of an accepted
/// payment.
pub open spec fn updated(record: RecordView, blocks: Seq<BlockView>, valid: bool, height: u32) -> RecordView {
    match included(blocks, record.txid) {
        Some(block) => RecordView {
            status: "included"@,
            inclusion: Some(block),
            failure_reason: None,
            ..record
        },
        None => match raw_transaction(record.raw_tx) {
            Some(tx) => if in_conflict(tx, blocks) {
                RecordView { status: "failed"@, inclusion: None, failure_reason: Some("conflict"@), ..record }
            } else if valid {
                RecordView { status: "pending"@, inclusion: None, failure_reason: None, ..record }
            } else {
                RecordView {
                    status: "failed"@,
                    inclusion: None,
                    failure_reason: Some(
                        if is_expired(tx, height) {
                            "expired"@
                        } else {
                            "invalidated"@
                        },
                    ),
                    ..record
                }
            },
            None => RecordView { inclusion: None, ..record },
        },
    }
}

fn conflicts(tx: &Tx, index: &ChainIndex, blocks: Ghost<Seq<BlockView>>) -> (conflict: bool)
    requires
        index.is_of(blocks@),
    ensures
        conflict == in_conflict(tx@, blocks@),
{
    let found = any_in(&tx.nullifiers, &index.spent);
    proof {
        if found {
            let nf = choose|nf: Seq<char>| #[trigger] texts(tx.nullifiers@).contains(nf) && index.spent@.contains(nf);
            assert(spends(tx@, nf));
        }
        if in_conflict(tx@, blocks@) {
            let nf = choose|nf: Seq<char>| #[trigger] spends(tx@, nf) && chain_spends(blocks@, 0, blocks@.len() as int, nf);
            assert(texts(tx.nullifiers@).contains(nf) && index.spent@.contains(nf));
        }
    }
    found
}

/// Brings one accepted payment up to date with the chain.
fn update_record(
    record: &mut Record,
    index: &ChainIndex,
    blocks: Ghost<Seq<BlockView>>,
    valid: bool,
    height: u32,
) -> (read: Result<(), RawTxError>)
    requires
        index.is_of(blocks@),
    ensures
        final(record)@ == updated(old(record)@, blocks@, valid, height),
        read is Ok == is_readable(old(record)@, blocks@),
        read is Err ==> is_raw_error(read->Err_0, old(record)@.raw_tx),
{
    if let Some(block) = index.inclusions.get(record.txid.as_str()) {
        record.status = "included".to_string();
        record.inclusion = Some(block.clone());
        record.failure_reason = None;
        return Ok(());
    }
    record.inclusion = None;
    let tx = match raw_tx(record.raw_tx.as_str()) {
        Ok(tx) => tx,
        Err(e) => {
            return Err(e);
        },
    };
    if conflicts(&tx, index, blocks) {
        record.status = "failed".to_string();
        record.failure_reason = Some("conflict".to_string());
    } else if valid {
        record.status = "pending".to_string();
        record.failure_reason = None;
    } else {
        record.status = "failed".to_string();
        let expired = match tx.expiry {
            Some(last) => last != 0 && last <= height,
            None => false,
        };
        record.failure_reason = Some(
            if expired {
                "expired".to_string()
            } else {
                "invalidated".to_string()
            },
        );
    }
    Ok(())
}

/// The first `n` accepted payments brought up to date, the others as they were.
pub open spec fn updated_records(
    records: Seq<RecordView>,
    n: int,
    blocks: Seq<BlockView>,
    verdicts: Seq<bool>,
    height: u32,
) -> Seq<RecordView> {
    Seq::new(
        records.len(),
        |i: int|
            if i < n {
                updated(records[i], blocks, verdicts[i], height)
            } else {
                records[i]
            },
    )
}

/// Whether the first `n` accepted payments can be brought up to date.
pub open spec fn readable_until(records: Seq<RecordView>, n: int, blocks: Seq<BlockView>) -> bool {
    forall|i: int| 0 <= i < n ==> is_readable(#[trigger] records[i], blocks)
}

/// Whether the update stopped at the payment `n`, which cannot be read.
pub open spec fn stopped_at(
    n: int,
    before: Seq<RecordView>,
    after: Seq<RecordView>,
    blocks: Seq<BlockView>,
    verdicts: Seq<bool>,
    height: u32,
) -> bool {
    &&& 0 <= n < before.len()
    &&& readable_until(before, n, blocks)
    &&& !is_readable(before[n], blocks)
    &&& after == updated_records(before, n + 1, blocks, verdicts, height)
}

/// Brings the accepted payments up to date with the chain, in order. It stops at one
/// that cannot be read.
pub(crate) fn update_records(
    records: &mut Vec<Record>,
    index: &ChainIndex,
    blocks: Ghost<Seq<BlockView>>,
    verdicts: &Vec<bool>,
    height: u32,
) -> (read: Result<(), RawTxError>)
    requires
        index.is_of(blocks@),
        verdicts@.len() == old(records)@.len(),
    ensures
        final(records)@.len() == old(records)@.len(),
        match read {
            Ok(_) => {
                &&& readable_until(record_views(old(records)@), old(records)@.len() as int, blocks@)
                &&& record_views(final(records)@) == updated_records(
                    record_views(old(records)@),
                    old(records)@.len() as int,
                    blocks@,
                    verdicts@,
                    height,
                )
            },
            Err(e) => exists|n: int| #[trigger]
                stopped_at(
                    n,
                    record_views(old(records)@),
                    record_views(final(records)@),
                    blocks@,
                    verdicts@,
                    height,
                ) && is_raw_error(e, record_views(old(records)@)[n].raw_tx),
        },
{
    let ghost first = record_views(records@);
    let mut i: usize = 0;
    assert(record_views(records@) =~= updated_records(first, 0, blocks@, verdicts@, height));
    while i < records.len()
        invariant
            i <= records.len(),
            index.is_of(blocks@),
            verdicts@.len() == records@.len(),
            records@.len() == first.len(),
            readable_until(first, i as int, blocks@),
            record_views(records@) == updated_records(first, i as int, blocks@, verdicts@, height),
            first == record_views(old(records)@),
        decreases records.len() - i,
    {
        let ghost before = records@;
        assert(first[i as int] == before[i as int]@) by {
            assert(record_views(before)[i as int] == first[i as int]);
        }
        let valid = verdicts[i];
        let read = update_record(&mut records[i], index, blocks, valid, height);
        proof {
            assert(record_views(records@) =~= updated_records(first, i + 1, blocks@, verdicts@, height)) by {
                assert forall|k: int| 0 <= k < first.len() implies record_views(records@)[k] == updated_records(
                    first,
                    i + 1,
                    blocks@,
                    verdicts@,
                    height,
                )[k] by {
                    if k != i {
                        assert(records@[k] == before[k]);
                        assert(record_views(before)[k] == updated_records(first, i as int, blocks@, verdicts@, height)[k]);
                    }
                }
            }
        }
        if let Err(e) = read {
            assert(stopped_at(i as int, first, record_views(records@), blocks@, verdicts@, height));
            return Err(e);
        }
        i += 1;
    }
    Ok(())
}

/// For each accepted payment, whether a node has to say if it is still valid.
pub(crate) fn open_questions(records: &Vec<Record>, index: &ChainIndex, blocks: Ghost<Seq<BlockView>>) -> (asked: Vec<bool>)
    requires
        index.is_of(blocks@),
    ensures
        asked@.len() == records@.len(),
        forall|i: int| 0 <= i < records@.len() ==> #[trigger] asked@[i] == needs_verdict(records@[i]@, blocks@),
{
    let mut asked: Vec<bool> = Vec::new();
    let mut i: usize = 0;
    while i < records.len()
        invariant
            i <= records.len(),
            index.is_of(blocks@),
            asked@.len() == i,
            forall|k: int| 0 <= k < i ==> #[trigger] asked@[k] == needs_verdict(records@[k]@, blocks@),
        decreases records.len() - i,
    {
        let open = if index.inclusions.contains_key(records[i].txid.as_str()) {
            false
        } else {
            match raw_tx(records[i].raw_tx.as_str()) {
                Ok(tx) => !conflicts(&tx, index, blocks),
                Err(_) => false,
            }
        };
        asked.push(open);
        i += 1;
    }
    asked
}

/// An accepted payment keeps its transaction, its fee and its receipt, whatever the
/// chain does, and ends up included, pending or failed.
pub proof fn law_update_keeps_the_receipt(record: RecordView, blocks: Seq<BlockView>, valid: bool, height: u32)
    ensures
        ({
            let after = updated(record, blocks, valid, height);
            &&& after.txid == record.txid
            &&& after.raw_tx == record.raw_tx
            &&& after.fee == record.fee
            &&& after.receipt == record.receipt
            &&& is_readable(record, blocks) ==> after.status == "included"@ || after.status == "pending"@
                || after.status == "failed"@
            &&& after.inclusion == included(blocks, record.txid)
        }),
{
}

/// A payment is pending after an update only if the chain has not seen any of its
/// notes spent, and included exactly if the chain includes it.
pub proof fn law_update_follows_the_chain(record: RecordView, blocks: Seq<BlockView>, valid: bool, height: u32)
    requires
        is_readable(record, blocks),
    ensures
        ({
            let after = updated(record, blocks, valid, height);
            &&& after.status == "included"@ <==> included(blocks, record.txid) is Some
            &&& after.status == "pending"@ <==> needs_verdict(record, blocks) && valid
        }),
{
    reveal_strlit("included");
    reveal_strlit("pending");
    reveal_strlit("failed");
    assert("included"@.len() == 8 && "pending"@.len() == 7 && "failed"@.len() == 6);
}

/// A blocked payout stays blocked, and no payout loses what it owes, to whom, for
/// which payments, or the transaction that was signed for it.
pub proof fn law_settling_keeps_the_debt(payout: PayoutView, blocks: Seq<BlockView>)
    ensures
        ({
            let after = settled(payout, blocks);
            &&& payout.status == "blocked"@ ==> after == payout
            &&& after.block == payout.block
            &&& after.address == payout.address
            &&& after.amount == payout.amount
            &&& after.txids == payout.txids
            &&& after.raw_tx == payout.raw_tx
            &&& after.txid == payout.txid
            &&& payout.raw_tx is Some ==> is_kept(after, blocks)
        }),
{
}

/// A signed payout whose block the chain has lost is blocked, and so is one that was
/// confirmed and is no longer included: it is not sent again before someone has
/// looked at it.
pub proof fn law_reorganised_payouts_are_blocked(payout: PayoutView, blocks: Seq<BlockView>)
    requires
        payout.raw_tx is Some && !has_block(blocks, payout.block.hash) || payout.status == "confirmed"@ && has_block(
            blocks,
            payout.block.hash,
        ) && (payout.txid is None || included(blocks, payout.txid->0) is None),
    ensures
        settled(payout, blocks).status == "blocked"@,
{
}

} // verus!
