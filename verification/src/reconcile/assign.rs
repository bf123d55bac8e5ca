//! Assigning payouts: what the miners of the blocks that include payments are owed.

use crate::amount::{miner_share, share, sum, ShareError};
use crate::ledger::{payout_views, record_views, Payout, PayoutView, Record, RecordView};
use crate::reconcile::index::{block_position, ChainIndex};
use crate::reconcile::settle::has_block;
use crate::text::{insert_all, same_text, texts};
use crate::transaction::{block_views, Block, BlockView};
use crate::wallet::scan::{
    attribute, attributed, coinbase, coinbase_receivers, ironwood_leaves, pays_publicly, CoinbaseError,
};
use vstd::hash_set::StringHashSet;
use vstd::prelude::*;
use zakura_chain::parameters::Network;

verus! {

/// Whether a payout pays for a payment.
pub open spec fn is_assigned(payouts: Seq<PayoutView>, txid: Seq<char>) -> bool {
    exists|p: int| 0 <= p < payouts.len() && (#[trigger] payouts[p]).txids.contains(txid)
}

/// Whether a payment is included and no payout pays for it yet.
pub open spec fn is_unpaid(record: RecordView, payouts: Seq<PayoutView>) -> bool {
    record.inclusion is Some && !is_assigned(payouts, record.txid)
}

/// Whether a payment is included in a block, and unpaid.
pub open spec fn is_member(record: RecordView, payouts: Seq<PayoutView>, hash: Seq<char>) -> bool {
    is_unpaid(record, payouts) && record.inclusion->0.hash == hash
}

/// The unpaid payments of a block, in order.
pub open spec fn members(records: Seq<RecordView>, payouts: Seq<PayoutView>, hash: Seq<char>) -> Seq<RecordView> {
    records.filter(|r: RecordView| is_member(r, payouts, hash))
}

/// Whether a payment is the first unpaid one of its block.
pub open spec fn leads(records: Seq<RecordView>, payouts: Seq<PayoutView>, i: int) -> bool {
    &&& is_unpaid(records[i], payouts)
    &&& forall|j: int| 0 <= j < i ==> !is_member(#[trigger] records[j], payouts, records[i].inclusion->0.hash)
}

/// The addresses that a coinbase transaction publicly pays.
pub open spec fn recipients_of(parsed: zcash_primitives::transaction::Transaction) -> Set<Seq<char>> {
    Set::new(|text: Seq<char>| pays_publicly(parsed, ironwood_leaves(parsed).len() as int, text))
}

/// Why what is owed cannot be computed.
pub enum AssignFault {
    Height,
    Coinbase,
    Fees,
    Amount,
}

/// The fees of a list of payments.
pub open spec fn fees(records: Seq<RecordView>) -> Seq<u64> {
    records.map_values(|r: RecordView| r.fee)
}

/// The identifiers of a list of payments.
pub open spec fn txids(records: Seq<RecordView>) -> Seq<Seq<char>> {
    records.map_values(|r: RecordView| r.txid)
}

/// What the chain and the configuration say: the blocks, the addresses of the miners
/// and the network.
pub struct Setting {
    pub blocks: Seq<BlockView>,
    pub miners: Seq<Seq<char>>,
    pub net: Network,
}

/// What is owed for the block of the payment `i`, which leads its block: the miner's
/// share of the fees of its unpaid payments, where one configured miner mined it.
pub open spec fn owed(records: Seq<RecordView>, payouts: Seq<PayoutView>, i: int, setting: Setting) -> Result<
    Option<PayoutView>,
    AssignFault,
> {
    let block = records[i].inclusion->0;
    let group = members(records, payouts, block.hash);
    let position = block_position(setting.blocks, setting.blocks.len(), block.hash)->0;
    match coinbase(setting.blocks[position], setting.net) {
        None => Err(
            if setting.blocks[position].height is None || setting.blocks[position].transactions.len() == 0 {
                AssignFault::Height
            } else {
                AssignFault::Coinbase
            },
        ),
        Some(parsed) => match attributed(setting.miners, recipients_of(parsed), setting.net) {
            None => Ok(None),
            Some(miner) => if sum(fees(group)) > u64::MAX {
                Err(AssignFault::Fees)
            } else if sum(fees(group)) * 98 > u64::MAX {
                Err(AssignFault::Amount)
            } else {
                Ok(
                    Some(
                        PayoutView {
                            block,
                            address: miner,
                            amount: miner_share(sum(fees(group))) as u64,
                            txids: txids(group),
                            raw_tx: None,
                            txid: None,
                            status: "waiting"@,
                            reason: None,
                        },
                    ),
                )
            },
        },
    }
}

/// The payouts after the first `n` payments were gone through, block by block in the
/// order in which the payments name them, and what stopped it.
pub open spec fn assigned(records: Seq<RecordView>, payouts: Seq<PayoutView>, n: nat, setting: Setting) -> (
    Seq<PayoutView>,
    Option<AssignFault>,
)
    decreases n,
{
    if n == 0 {
        (payouts, None)
    } else {
        let before = assigned(records, payouts, (n - 1) as nat, setting);
        if before.1 is Some || !leads(records, payouts, n - 1) {
            before
        } else {
            match owed(records, payouts, n - 1, setting) {
                Ok(Some(payout)) => (before.0.push(payout), None),
                Ok(None) => before,
                Err(fault) => (before.0, Some(fault)),
            }
        }
    }
}

/// Why the payouts of a chain cannot be assigned.
#[derive(Debug, PartialEq)]
pub enum AssignError {
    /// The recipients of a block are unknown.
    Coinbase(CoinbaseError),
    /// The amount does not fit.
    Share(ShareError),
}

impl AssignError {
    /// The kind of the error.
    pub open spec fn fault(self) -> AssignFault {
        match self {
            AssignError::Coinbase(CoinbaseError::Height) => AssignFault::Height,
            AssignError::Coinbase(CoinbaseError::Malformed(_)) => AssignFault::Coinbase,
            AssignError::Share(ShareError::Fees) => AssignFault::Fees,
            AssignError::Share(ShareError::Amount) => AssignFault::Amount,
        }
    }

    /// The error in words.
    pub fn message(&self) -> (text: String)
        ensures
            match *self {
                AssignError::Coinbase(CoinbaseError::Height) => text@ == "height"@,
                AssignError::Coinbase(CoinbaseError::Malformed(words)) => text@ == words@,
                AssignError::Share(ShareError::Fees) => text@ == "fee overflow"@,
                AssignError::Share(ShareError::Amount) => text@ == "amount overflow"@,
            },
    {
        match self {
            AssignError::Coinbase(e) => e.message(),
            AssignError::Share(e) => e.message().to_string(),
        }
    }
}

/// Collects the payments that payouts pay for.
fn assigned_txids(payouts: &Vec<Payout>) -> (set: StringHashSet)
    ensures
        forall|t: Seq<char>| #[trigger] set@.contains(t) <==> is_assigned(payout_views(payouts@), t),
{
    let ghost all = payout_views(payouts@);
    let mut set = StringHashSet::new();
    let mut p: usize = 0;
    while p < payouts.len()
        invariant
            p <= payouts.len(),
            all == payout_views(payouts@),
            forall|t: Seq<char>| #[trigger] set@.contains(t) <==> is_assigned(all.take(p as int), t),
        decreases payouts.len() - p,
    {
        let ghost before = set@;
        insert_all(&mut set, &payouts[p].txids);
        proof {
            let some = all.take(p as int);
            let more = all.take(p + 1);
            assert forall|t: Seq<char>| #[trigger] set@.contains(t) <==> is_assigned(more, t) by {
                assert(before.contains(t) <==> is_assigned(some, t));
                if is_assigned(some, t) {
                    let k = choose|k: int| 0 <= k < some.len() && (#[trigger] some[k]).txids.contains(t);
                    assert(more[k].txids.contains(t));
                }
                if texts(payouts@[p as int].txids@).contains(t) {
                    assert(more[p as int].txids.contains(t));
                }
                if is_assigned(more, t) {
                    let k = choose|k: int| 0 <= k < more.len() && (#[trigger] more[k]).txids.contains(t);
                    if k < p {
                        assert(some[k].txids.contains(t));
                    }
                }
            }
        }
        p += 1;
    }
    assert(all.take(all.len() as int) =~= all);
    set
}

fn is_member_of(record: &Record, paid: &StringHashSet, hash: &str, payouts: Ghost<Seq<PayoutView>>) -> (member: bool)
    requires
        forall|t: Seq<char>| #[trigger] paid@.contains(t) <==> is_assigned(payouts@, t),
    ensures
        member == is_member(record@, payouts@, hash@),
{
    match &record.inclusion {
        Some(block) => same_text(block.hash.as_str(), hash) && !paid.contains(record.txid.as_str()),
        None => false,
    }
}

/// The fees and the identifiers of the unpaid payments of a block.
fn collect(records: &Vec<Record>, paid: &StringHashSet, hash: &str, payouts: Ghost<Seq<PayoutView>>) -> (group: (
    Vec<u64>,
    Vec<String>,
))
    requires
        forall|t: Seq<char>| #[trigger] paid@.contains(t) <==> is_assigned(payouts@, t),
    ensures
        group.0@ == fees(members(record_views(records@), payouts@, hash@)),
        texts(group.1@) == txids(members(record_views(records@), payouts@, hash@)),
{
    let ghost all = record_views(records@);
    let ghost chosen = |r: RecordView| is_member(r, payouts@, hash@);
    let mut amounts: Vec<u64> = Vec::new();
    let mut ids: Vec<String> = Vec::new();
    let mut i: usize = 0;
    proof {
        reveal(Seq::filter);
        assert(all.take(0).filter(chosen) =~= Seq::<RecordView>::empty());
        assert(amounts@ =~= fees(all.take(0).filter(chosen)));
        assert(texts(ids@) =~= txids(all.take(0).filter(chosen)));
    }
    while i < records.len()
        invariant
            i <= records.len(),
            all == record_views(records@),
            chosen == (|r: RecordView| is_member(r, payouts@, hash@)),
            forall|t: Seq<char>| #[trigger] paid@.contains(t) <==> is_assigned(payouts@, t),
            amounts@ == fees(all.take(i as int).filter(chosen)),
            texts(ids@) == txids(all.take(i as int).filter(chosen)),
        decreases records.len() - i,
    {
        let record = &records[i];
        let member = is_member_of(record, paid, hash, payouts);
        proof {
            reveal(Seq::filter);
            assert(all[i as int] == record@);
            assert(all.take(i + 1).drop_last() =~= all.take(i as int));
            assert(all.take(i + 1).last() == record@);
            assert(member == chosen(record@));
        }
        if member {
            let ghost amounts_before = amounts@;
            let ghost ids_before = ids@;
            amounts.push(record.fee);
            ids.push(record.txid.clone());
            proof {
                let group = all.take(i as int).filter(chosen);
                assert(all.take(i + 1).filter(chosen) == group.push(record@));
                assert(fees(group.push(record@)) =~= fees(group).push(record.fee));
                assert(txids(group.push(record@)) =~= txids(group).push(record.txid@));
                assert(texts(ids@) =~= texts(ids_before).push(record.txid@));
            }
        }
        i += 1;
    }
    assert(all.take(all.len() as int) =~= all);
    (amounts, ids)
}

/// Assigns payouts for the payments that are included and unpaid. What was assigned
/// before an error stays assigned.
#[verifier::rlimit(50)]
pub(crate) fn assign_payouts(
    records: &Vec<Record>,
    payouts: &mut Vec<Payout>,
    index: &ChainIndex,
    blocks: &Vec<Block>,
    miners: &Vec<String>,
    net: &Network,
) -> (done: Result<(), AssignError>)
    requires
        index.is_of(block_views(blocks@)),
        forall|i: int|
            0 <= i < records@.len() && (#[trigger] records@[i]).inclusion is Some ==> has_block(
                block_views(blocks@),
                records@[i].inclusion->0.hash@,
            ),
    ensures
        ({
            let setting = Setting { blocks: block_views(blocks@), miners: texts(miners@), net: *net };
            let outcome = assigned(record_views(records@), payout_views(old(payouts)@), records@.len(), setting);
            &&& payout_views(final(payouts)@) == outcome.0
            &&& match done {
                Ok(_) => outcome.1 is None,
                Err(e) => outcome.1 == Some(e.fault()),
            }
        }),
{
    let ghost all = record_views(records@);
    let ghost first = payout_views(payouts@);
    let ghost chain = block_views(blocks@);
    let ghost setting = Setting { blocks: chain, miners: texts(miners@), net: *net };
    let paid = assigned_txids(payouts);
    let mut seen = StringHashSet::new();
    let mut i: usize = 0;
    while i < records.len()
        invariant
            i <= records.len(),
            all == record_views(records@),
            chain == block_views(blocks@),
            setting == (Setting { blocks: chain, miners: texts(miners@), net: *net }),
            index.is_of(chain),
            forall|k: int|
                0 <= k < records@.len() && (#[trigger] records@[k]).inclusion is Some ==> has_block(
                    chain,
                    records@[k].inclusion->0.hash@,
                ),
            forall|t: Seq<char>| #[trigger] paid@.contains(t) <==> is_assigned(first, t),
            forall|h: Seq<char>| #[trigger]
                seen@.contains(h) <==> exists|j: int| 0 <= j < i && is_member(#[trigger] all[j], first, h),
            assigned(all, first, i as nat, setting) == (payout_views(payouts@), None::<AssignFault>),
            first == payout_views(old(payouts)@),
        decreases records.len() - i,
    {
        let record = &records[i];
        assert(all[i as int] == record@);
        if let Some(block) = &record.inclusion {
            let hash = block.hash.as_str();
            let unpaid = !paid.contains(record.txid.as_str());
            let fresh = unpaid && !seen.contains(hash);
            let ghost seen_before = seen@;
            proof {
                if unpaid {
                    assert(is_member(all[i as int], first, hash@));
                }
                assert(fresh == leads(all, first, i as int)) by {
                    if fresh {
                        assert forall|j: int| 0 <= j < i implies !is_member(
                            #[trigger] all[j],
                            first,
                            all[i as int].inclusion->0.hash,
                        ) by {
                            assert(!seen@.contains(hash@));
                        }
                    } else if unpaid {
                        assert(seen@.contains(hash@));
                    }
                }
            }
            if unpaid {
                seen.insert(block.hash.clone());
            }
            proof {
                assert forall|h: Seq<char>| #[trigger]
                    seen@.contains(h) <==> exists|j: int| 0 <= j < i + 1 && is_member(#[trigger] all[j], first, h) by {
                    assert(seen_before.contains(h) <==> exists|j: int| 0 <= j < i && is_member(#[trigger] all[j], first, h));
                    if seen@.contains(h) && !seen_before.contains(h) {
                        assert(is_member(all[i as int], first, h));
                    }
                }
            }
            if fresh {
                let position = match index.positions.get(hash) {
                    Some(position) => *position,
                    None => {
                        assert(has_block(chain, records@[i as int].inclusion->0.hash@));
                        0
                    },
                };
                proof {
                    crate::reconcile::index::lemma_position(chain, chain.len(), hash@);
                    assert(chain[position as int] == blocks@[position as int]@);
                }
                let recipients = match coinbase_receivers(&blocks[position], net) {
                    Ok(recipients) => recipients,
                    Err(e) => {
                        proof {
                            lemma_assigned_stops(all, first, (i + 1) as nat, all.len(), setting);
                        }
                        return Err(AssignError::Coinbase(e));
                    },
                };
                assert(recipients@ =~= recipients_of(coinbase(chain[position as int], *net)->0));
                if let Some(miner) = attribute(miners, &recipients, net) {
                    let (amounts, ids) = collect(records, &paid, hash, Ghost(first));
                    let amount = match share(&amounts) {
                        Ok(amount) => amount,
                        Err(e) => {
                            proof {
                                lemma_assigned_stops(all, first, (i + 1) as nat, all.len(), setting);
                            }
                            return Err(AssignError::Share(e));
                        },
                    };
                    let payout = Payout {
                        block: block.clone(),
                        address: miner,
                        amount,
                        txids: ids,
                        raw_tx: None,
                        txid: None,
                        status: "waiting".to_string(),
                        reason: None,
                    };
                    let ghost before = payouts@;
                    payouts.push(payout);
                    assert(payout_views(payouts@) =~= payout_views(before).push(payout@));
                }
            }
        } else {
            assert(!leads(all, first, i as int));
            assert forall|h: Seq<char>| #[trigger]
                seen@.contains(h) <==> exists|j: int| 0 <= j < i + 1 && is_member(#[trigger] all[j], first, h) by {
                assert(seen@.contains(h) <==> exists|j: int| 0 <= j < i && is_member(#[trigger] all[j], first, h));
            }
        }
        i += 1;
    }
    Ok(())
}

proof fn lemma_assigned_stops(records: Seq<RecordView>, payouts: Seq<PayoutView>, i: nat, n: nat, setting: Setting)
    requires
        i <= n,
        assigned(records, payouts, i, setting).1 is Some,
    ensures
        assigned(records, payouts, n, setting) == assigned(records, payouts, i, setting),
    decreases n,
{
    if i < n {
        lemma_assigned_stops(records, payouts, i, (n - 1) as nat, setting);
    }
}

/// Whether no two payments have the same identifier.
pub open spec fn distinct_txids(records: Seq<RecordView>) -> bool {
    forall|i: int, j: int| 0 <= i < j < records.len() ==> (#[trigger] records[i]).txid != (#[trigger] records[j]).txid
}

/// Whether every payment that payouts pay for is paid for once.
pub open spec fn paid_once(payouts: Seq<PayoutView>) -> bool {
    forall|p: int, a: int, q: int, b: int|
        0 <= p < payouts.len() && 0 <= q < payouts.len() && 0 <= a < payouts[p].txids.len() && 0 <= b
            < payouts[q].txids.len() && (#[trigger] payouts[p].txids[a]) == (#[trigger] payouts[q].txids[b]) ==> p == q && a
            == b
}

proof fn lemma_members(records: Seq<RecordView>, payouts: Seq<PayoutView>, hash: Seq<char>)
    ensures
        forall|a: int|
            0 <= a < members(records, payouts, hash).len() ==> is_member(
                #[trigger] members(records, payouts, hash)[a],
                payouts,
                hash,
            ) && records.contains(members(records, payouts, hash)[a]),
        distinct_txids(records) ==> distinct_txids(members(records, payouts, hash)),
    decreases records.len(),
{
    reveal(Seq::filter);
    let chosen = |r: RecordView| is_member(r, payouts, hash);
    if records.len() > 0 {
        let before = records.drop_last();
        lemma_members(before, payouts, hash);
        let some = members(before, payouts, hash);
        let all = members(records, payouts, hash);
        assert forall|a: int| 0 <= a < all.len() implies is_member(#[trigger] all[a], payouts, hash) && records.contains(
            all[a],
        ) by {
            if a < some.len() {
                assert(all[a] == some[a]);
                let k = choose|k: int| 0 <= k < before.len() && before[k] == some[a];
                assert(records[k] == all[a]);
            } else {
                assert(records[records.len() - 1] == all[a]);
            }
        }
        if distinct_txids(records) {
            assert(distinct_txids(before)) by {
                assert forall|i: int, j: int| 0 <= i < j < before.len() implies (#[trigger] before[i]).txid != (
                #[trigger] before[j]).txid by {
                    assert(before[i] == records[i] && before[j] == records[j]);
                }
            }
            assert forall|a: int, b: int| 0 <= a < b < all.len() implies (#[trigger] all[a]).txid != (
            #[trigger] all[b]).txid by {
                assert(all[a] == some[a]);
                if b < some.len() {
                    assert(all[b] == some[b]);
                } else {
                    let k = choose|k: int| 0 <= k < before.len() && before[k] == some[a];
                    assert(records[k].txid != records[records.len() - 1].txid);
                }
            }
        }
    }
}

/// Whether the payout `q` was newly assigned for the block of one of the first `n`
/// payments.
pub open spec fn is_new(
    records: Seq<RecordView>,
    payouts: Seq<PayoutView>,
    n: int,
    setting: Setting,
    payout: PayoutView,
) -> bool {
    exists|i: int| 0 <= i < n && #[trigger] leads(records, payouts, i) && owed(records, payouts, i, setting) == Ok::<
        Option<PayoutView>,
        AssignFault,
    >(Some(payout))
}

pub proof fn lemma_assigned(records: Seq<RecordView>, payouts: Seq<PayoutView>, n: nat, setting: Setting)
    requires
        n <= records.len(),
    ensures
        ({
            let list = assigned(records, payouts, n, setting).0;
            &&& list.len() >= payouts.len()
            &&& list.take(payouts.len() as int) == payouts
            &&& forall|q: int|
                payouts.len() <= q < list.len() ==> is_new(records, payouts, n as int, setting, #[trigger] list[q])
            &&& forall|p: int, q: int|
                payouts.len() <= p < q < list.len() ==> (#[trigger] list[p]).block.hash != (#[trigger] list[q]).block.hash
        }),
    decreases n,
{
    if n == 0 {
        assert(payouts.take(payouts.len() as int) =~= payouts);
    } else {
        lemma_assigned(records, payouts, (n - 1) as nat, setting);
        let before = assigned(records, payouts, (n - 1) as nat, setting).0;
        let list = assigned(records, payouts, n, setting).0;
        assert forall|q: int| payouts.len() <= q < before.len() implies is_new(
            records,
            payouts,
            n as int,
            setting,
            #[trigger] before[q],
        ) by {
            assert(is_new(records, payouts, n - 1, setting, before[q]));
        }
        if list.len() > before.len() {
            let last = list[before.len() as int];
            assert(leads(records, payouts, n - 1));
            assert(is_new(records, payouts, n as int, setting, last));
            assert(list.take(payouts.len() as int) =~= before.take(payouts.len() as int));
            assert forall|q: int| payouts.len() <= q < list.len() implies is_new(
                records,
                payouts,
                n as int,
                setting,
                #[trigger] list[q],
            ) by {
                if q < before.len() {
                    assert(list[q] == before[q]);
                }
            }
            assert forall|p: int, q: int| payouts.len() <= p < q < list.len() implies (#[trigger] list[p]).block.hash != (
            #[trigger] list[q]).block.hash by {
                assert(list[p] == before[p]);
                if q < before.len() {
                    assert(list[q] == before[q]);
                } else {
                    assert(is_new(records, payouts, n - 1, setting, before[p]));
                    let i = choose|i: int|
                        0 <= i < n - 1 && #[trigger] leads(records, payouts, i) && owed(records, payouts, i, setting)
                            == Ok::<Option<PayoutView>, AssignFault>(Some(before[p]));
                    assert(is_member(records[i], payouts, records[i].inclusion->0.hash));
                    assert(!is_member(records[i], payouts, records[n - 1].inclusion->0.hash));
                }
            }
        }
    }
}

/// What is assigned stays assigned, and every new payout is for the unpaid payments
/// of one block of the chain, has not been signed, and owes to one configured miner
/// the share of the fees of those payments, rounded down.
pub proof fn law_new_payouts_owe_the_share(
    records: Seq<RecordView>,
    payouts: Seq<PayoutView>,
    setting: Setting,
    q: int,
)
    requires
        payouts.len() <= q < assigned(records, payouts, records.len(), setting).0.len(),
    ensures
        assigned(records, payouts, records.len(), setting).0.take(payouts.len() as int) == payouts,
        ({
            let payout = assigned(records, payouts, records.len(), setting).0[q];
            let group = members(records, payouts, payout.block.hash);
            &&& payout.amount == miner_share(sum(fees(group)))
            &&& payout.txids == txids(group)
            &&& group.len() > 0
            &&& setting.miners.contains(payout.address)
            &&& payout.raw_tx is None && payout.txid is None && payout.status == "waiting"@
        }),
{
    lemma_assigned(records, payouts, records.len(), setting);
    let payout = assigned(records, payouts, records.len(), setting).0[q];
    assert(is_new(records, payouts, records.len() as int, setting, payout));
    let i = choose|i: int|
        0 <= i < records.len() && #[trigger] leads(records, payouts, i) && owed(records, payouts, i, setting) == Ok::<
            Option<PayoutView>,
            AssignFault,
        >(Some(payout));
    let hash = records[i].inclusion->0.hash;
    let chosen = |r: RecordView| is_member(r, payouts, hash);
    let group = members(records, payouts, hash);
    assert(group.len() > 0) by {
        assert(chosen(records[i]));
        records.lemma_filter_contains(chosen, i);
        assert(group.contains(records[i]));
    }
    assert(miner_share(sum(fees(group))) <= sum(fees(group))) by {
        crate::amount::law_share_is_within_fees(sum(fees(group)));
    }
    let position = block_position(setting.blocks, setting.blocks.len(), hash)->0;
    let recipients = recipients_of(coinbase(setting.blocks[position], setting.net)->0);
    let paid = |miner: Seq<char>| crate::wallet::scan::is_paid(miner, recipients, setting.net);
    assert(setting.miners.filter(paid)[0] == payout.address);
    setting.miners.lemma_filter_contains_rev(paid, payout.address);
}

/// No payment is ever paid for twice: if the payouts so far pay for each payment
/// once, so do the payouts after any number of further payments were gone through.
pub proof fn law_payments_are_paid_once(records: Seq<RecordView>, payouts: Seq<PayoutView>, n: nat, setting: Setting)
    requires
        n <= records.len(),
        distinct_txids(records),
        paid_once(payouts),
    ensures
        paid_once(assigned(records, payouts, n, setting).0),
{
    lemma_assigned(records, payouts, n, setting);
    let list = assigned(records, payouts, n, setting).0;
    let old_len = payouts.len() as int;
    assert forall|p: int, a: int, q: int, b: int|
        0 <= p < list.len() && 0 <= q < list.len() && 0 <= a < list[p].txids.len() && 0 <= b < list[q].txids.len() && (
        #[trigger] list[p].txids[a]) == (#[trigger] list[q].txids[b]) implies p == q && a == b by {
        assert(forall|k: int| 0 <= k < old_len ==> list[k] == list.take(old_len)[k]);
        if p < old_len && q < old_len {
            assert(payouts[p].txids[a] == payouts[q].txids[b]);
        } else if p < old_len {
            let i = lemma_new_txid(records, payouts, n as int, setting, list[q], b);
            assert(payouts[p].txids.contains(list[q].txids[b]));
        } else if q < old_len {
            let i = lemma_new_txid(records, payouts, n as int, setting, list[p], a);
            assert(payouts[q].txids.contains(list[p].txids[a]));
        } else {
            let i = lemma_new_txid(records, payouts, n as int, setting, list[p], a);
            let j = lemma_new_txid(records, payouts, n as int, setting, list[q], b);
            if i < j {
                assert(records[i].txid != records[j].txid);
            } else if j < i {
                assert(records[j].txid != records[i].txid);
            }
            assert(i == j);
            if p < q {
                assert(list[p].block.hash != list[q].block.hash);
            } else if q < p {
                assert(list[q].block.hash != list[p].block.hash);
            }
            assert(p == q);
            lemma_new_txids_distinct(records, payouts, n as int, setting, list[p]);
            if a < b {
                assert(list[p].txids[a] != list[p].txids[b]);
            } else if b < a {
                assert(list[p].txids[b] != list[p].txids[a]);
            }
        }
    }
}

proof fn lemma_new_txid(
    records: Seq<RecordView>,
    payouts: Seq<PayoutView>,
    n: int,
    setting: Setting,
    payout: PayoutView,
    a: int,
) -> (i: int)
    requires
        is_new(records, payouts, n, setting, payout),
        n <= records.len(),
        0 <= a < payout.txids.len(),
    ensures
        0 <= i < records.len(),
        records[i].txid == payout.txids[a],
        is_member(records[i], payouts, payout.block.hash),
{
    let lead = choose|i: int|
        0 <= i < n && #[trigger] leads(records, payouts, i) && owed(records, payouts, i, setting) == Ok::<
            Option<PayoutView>,
            AssignFault,
        >(Some(payout));
    let hash = records[lead].inclusion->0.hash;
    lemma_members(records, payouts, hash);
    let group = members(records, payouts, hash);
    assert(txids(group)[a] == group[a].txid);
    choose|i: int| 0 <= i < records.len() && records[i] == group[a]
}

proof fn lemma_new_txids_distinct(
    records: Seq<RecordView>,
    payouts: Seq<PayoutView>,
    n: int,
    setting: Setting,
    payout: PayoutView,
)
    requires
        is_new(records, payouts, n, setting, payout),
        distinct_txids(records),
    ensures
        forall|a: int, b: int|
            0 <= a < b < payout.txids.len() ==> (#[trigger] payout.txids[a]) != (#[trigger] payout.txids[b]),
{
    let lead = choose|i: int|
        0 <= i < n && #[trigger] leads(records, payouts, i) && owed(records, payouts, i, setting) == Ok::<
            Option<PayoutView>,
            AssignFault,
        >(Some(payout));
    let hash = records[lead].inclusion->0.hash;
    lemma_members(records, payouts, hash);
    let group = members(records, payouts, hash);
    assert forall|a: int, b: int| 0 <= a < b < payout.txids.len() implies (#[trigger] payout.txids[a]) != (
    #[trigger] payout.txids[b]) by {
        assert(txids(group)[a] == group[a].txid && txids(group)[b] == group[b].txid);
    }
}

proof fn lemma_assigned_complete(records: Seq<RecordView>, payouts: Seq<PayoutView>, n: nat, setting: Setting)
    requires
        n <= records.len(),
        assigned(records, payouts, n, setting).1 is None,
    ensures
        forall|i: int|
            0 <= i < n && #[trigger] leads(records, payouts, i) ==> match owed(records, payouts, i, setting) {
                Ok(Some(payout)) => assigned(records, payouts, n, setting).0.contains(payout),
                Ok(None) => true,
                Err(_) => false,
            },
    decreases n,
{
    if n > 0 {
        lemma_assigned_complete(records, payouts, (n - 1) as nat, setting);
        let before = assigned(records, payouts, (n - 1) as nat, setting).0;
        let list = assigned(records, payouts, n, setting).0;
        assert forall|i: int| 0 <= i < n && #[trigger] leads(records, payouts, i) implies match owed(
            records,
            payouts,
            i,
            setting,
        ) {
            Ok(Some(payout)) => list.contains(payout),
            Ok(None) => true,
            Err(_) => false,
        } by {
            if let Ok(Some(payout)) = owed(records, payouts, i, setting) {
                if i < n - 1 {
                    let q = choose|q: int| 0 <= q < before.len() && before[q] == payout;
                    assert(list[q] == payout);
                } else {
                    assert(list[before.len() as int] == payout);
                }
            }
        }
    }
}

/// The first unpaid payment of the block of an unpaid payment.
proof fn lemma_lead(records: Seq<RecordView>, payouts: Seq<PayoutView>, i: int, hash: Seq<char>) -> (lead: int)
    requires
        0 <= i < records.len(),
        is_member(records[i], payouts, hash),
    ensures
        0 <= lead <= i,
        is_member(records[lead], payouts, hash),
        leads(records, payouts, lead),
    decreases i,
{
    if leads(records, payouts, i) {
        i
    } else {
        let j = choose|j: int| 0 <= j < i && is_member(#[trigger] records[j], payouts, records[i].inclusion->0.hash);
        lemma_lead(records, payouts, j, hash)
    }
}

/// Whether a block of the chain is attributed to one configured miner.
pub open spec fn is_attributed(hash: Seq<char>, setting: Setting) -> bool {
    let position = block_position(setting.blocks, setting.blocks.len(), hash)->0;
    let parsed = coinbase(setting.blocks[position], setting.net);
    parsed is Some && attributed(setting.miners, recipients_of(parsed->0), setting.net) is Some
}

/// Where nothing stops the assignment, every payment that is included in a block of a
/// configured miner is paid for, and the recipients of every block with an unpaid
/// payment are known.
pub proof fn law_included_payments_are_paid_for(
    records: Seq<RecordView>,
    payouts: Seq<PayoutView>,
    setting: Setting,
    i: int,
)
    requires
        assigned(records, payouts, records.len(), setting).1 is None,
        0 <= i < records.len(),
        records[i].inclusion is Some,
    ensures
        is_attributed(records[i].inclusion->0.hash, setting) ==> is_assigned(
            assigned(records, payouts, records.len(), setting).0,
            records[i].txid,
        ),
        is_unpaid(records[i], payouts) ==> coinbase(
            setting.blocks[block_position(
                setting.blocks,
                setting.blocks.len(),
                records[i].inclusion->0.hash,
            )->0],
            setting.net,
        ) is Some,
{
    let n = records.len();
    let list = assigned(records, payouts, n, setting).0;
    let txid = records[i].txid;
    let hash = records[i].inclusion->0.hash;
    if is_assigned(payouts, txid) {
        lemma_assigned(records, payouts, n, setting);
        let p = choose|p: int| 0 <= p < payouts.len() && (#[trigger] payouts[p]).txids.contains(txid);
        assert(list.take(payouts.len() as int)[p] == list[p]);
        assert(list[p].txids.contains(txid));
    } else {
        let lead = lemma_lead(records, payouts, i, hash);
        lemma_assigned_complete(records, payouts, n, setting);
        assert(leads(records, payouts, lead));
        if let Ok(Some(payout)) = owed(records, payouts, lead, setting) {
            let chosen = |r: RecordView| is_member(r, payouts, hash);
            assert(chosen(records[i]));
            records.lemma_filter_contains(chosen, i);
            let group = members(records, payouts, hash);
            let a = choose|a: int| 0 <= a < group.len() && group[a] == records[i];
            assert(txids(group)[a] == txid);
            assert(payout.txids.contains(txid));
            let q = choose|q: int| 0 <= q < list.len() && list[q] == payout;
            assert(list[q].txids.contains(txid));
        }
    }
}

/// Assigning again, when nothing else has happened, changes nothing.
pub proof fn law_assigning_again_changes_nothing(
    records: Seq<RecordView>,
    payouts: Seq<PayoutView>,
    setting: Setting,
    m: nat,
)
    requires
        assigned(records, payouts, records.len(), setting).1 is None,
        m <= records.len(),
    ensures
        ({
            let list = assigned(records, payouts, records.len(), setting).0;
            assigned(records, list, m, setting) == (list, None::<AssignFault>)
        }),
    decreases m,
{
    let list = assigned(records, payouts, records.len(), setting).0;
    if m > 0 {
        law_assigning_again_changes_nothing(records, payouts, setting, (m - 1) as nat);
        let i = m - 1;
        if leads(records, list, i) {
            lemma_assigned(records, payouts, records.len(), setting);
            assert(!is_assigned(payouts, records[i].txid)) by {
                if is_assigned(payouts, records[i].txid) {
                    let p = choose|p: int| 0 <= p < payouts.len() && (#[trigger] payouts[p]).txids.contains(records[i].txid);
                    assert(list.take(payouts.len() as int)[p] == list[p]);
                    assert(list[p].txids.contains(records[i].txid));
                }
            }
            law_included_payments_are_paid_for(records, payouts, setting, i);
        }
    }
}

/// Every payout after the assignment was there before, or is new.
pub proof fn lemma_assigned_or_new(records: Seq<RecordView>, payouts: Seq<PayoutView>, setting: Setting, q: int)
    requires
        0 <= q < assigned(records, payouts, records.len(), setting).0.len(),
    ensures
        ({
            let payout = assigned(records, payouts, records.len(), setting).0[q];
            ||| q < payouts.len() && payout == payouts[q]
            ||| is_new(records, payouts, records.len() as int, setting, payout)
        }),
{
    lemma_assigned(records, payouts, records.len(), setting);
    let list = assigned(records, payouts, records.len(), setting).0;
    if q < payouts.len() {
        assert(list.take(payouts.len() as int)[q] == list[q]);
    }
}

} // verus!
