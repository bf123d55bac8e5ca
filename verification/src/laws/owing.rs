//! Owing: which miner is paid for a block, for which payments, and how much.

use crate::amount::{law_share_is_within_fees, miner_share, sum};
use crate::encoding::law_hex_is_injective;
use crate::encoding::hex_text;
use crate::laws::settling::holds;
use crate::laws::{lemma_filter_places, picks};
use crate::ledger::{PayoutView, RecordView};
use crate::reconcile::assign::{
    assigned, fees, is_assigned, is_attributed, is_member, is_new, is_unpaid, law_included_payments_are_paid_for, leads,
    lemma_assigned, members, owed, recipients_of, txids, AssignFault, Setting,
};
use crate::reconcile::index::block_position;
use crate::transaction::BlockView;
use crate::wallet::keys::{address_bytes, receiver_spec, unified_receiver};
use crate::wallet::scan::{
    attributed, coinbase, ironwood_leaves, is_paid, parsed_transaction, pays_publicly, public_key_bytes,
    recovered_output,
};
use vstd::prelude::*;
use zakura_chain::parameters::Network;
use zcash_primitives::transaction::Transaction;

verus! {

/// Whether an action of a transaction, read with the outgoing viewing key of zeros,
/// pays a value to an address.
pub open spec fn action_pays(tx: Transaction, i: int, to: Seq<u8>) -> bool {
    let output = recovered_output(tx, i, Seq::new(32, |z: int| 0u8));
    0 <= i < ironwood_leaves(tx).len() && output is Some && (output->0).0 > 0 && (output->0).1 == to
}

/// Whether the coinbase transaction of a block publicly pays the receiver of an
/// address.
pub open spec fn block_pays(block: BlockView, address: Seq<char>, net: Network) -> bool {
    &&& block.height is Some && block.transactions.len() > 0
    &&& parsed_transaction(block.transactions[0].bytes, net, block.height->0) is Some
    &&& unified_receiver(address, net) matches Some(Some(to)) && exists|i: int| #[trigger]
        action_pays(parsed_transaction(block.transactions[0].bytes, net, block.height->0)->0, i, address_bytes(to))
}

/// Whether a block pays an address of the configured miners and no other entry of
/// them.
pub open spec fn mined_by(block: BlockView, miners: Seq<Seq<char>>, address: Seq<char>, net: Network) -> bool {
    exists|m: int|
        0 <= m < miners.len() && #[trigger] miners[m] == address && block_pays(block, address, net) && forall|o: int|
            0 <= o < miners.len() && o != m ==> !block_pays(block, #[trigger] miners[o], net)
}

proof fn lemma_pays(block: BlockView, miner: Seq<char>, net: Network)
    requires
        coinbase(block, net) is Some,
    ensures
        is_paid(miner, recipients_of(coinbase(block, net)->0), net) == block_pays(block, miner, net),
{
    let tx = coinbase(block, net)->0;
    let n = ironwood_leaves(tx).len() as int;
    assert(public_key_bytes() =~= Seq::new(32, |z: int| 0u8));
    if let Ok(to) = receiver_spec(miner, net) {
        let text = hex_text(address_bytes(to));
        if pays_publicly(tx, n, text) {
            let i = choose|i: int|
                0 <= i < n && (#[trigger] recovered_output(tx, i, public_key_bytes())) is Some && (recovered_output(
                    tx,
                    i,
                    public_key_bytes(),
                )->0).0 > 0 && hex_text((recovered_output(tx, i, public_key_bytes())->0).1) == text;
            law_hex_is_injective((recovered_output(tx, i, public_key_bytes())->0).1, address_bytes(to));
            assert(action_pays(tx, i, address_bytes(to)));
        }
        if block_pays(block, miner, net) {
            let i = choose|i: int| #[trigger] action_pays(tx, i, address_bytes(to));
            assert(recovered_output(tx, i, public_key_bytes()) is Some);
            assert(pays_publicly(tx, n, text));
        }
    }
}

/// A block is attributed to the one entry of the configured miners that its coinbase
/// transaction publicly pays; to none where it pays none of them, or several.
pub proof fn law_blocks_are_attributed_to_the_miner_they_pay(block: BlockView, miners: Seq<Seq<char>>, net: Network)
    requires
        coinbase(block, net) is Some,
    ensures
        match attributed(miners, recipients_of(coinbase(block, net)->0), net) {
            Some(address) => mined_by(block, miners, address, net),
            None => forall|address: Seq<char>| !mined_by(block, miners, address, net),
        },
{
    let recipients = recipients_of(coinbase(block, net)->0);
    let paid = |miner: Seq<char>| is_paid(miner, recipients, net);
    let places = lemma_filter_places(miners, paid);
    assert forall|m: int| 0 <= m < miners.len() implies paid(#[trigger] miners[m]) == block_pays(block, miners[m], net) by {
        lemma_pays(block, miners[m], net);
    }
    if places.len() == 1 {
        let m = places[0];
        assert forall|o: int| 0 <= o < miners.len() && o != m implies !block_pays(block, #[trigger] miners[o], net) by {
            if paid(miners[o]) {
                assert(places.contains(o));
            }
        }
        assert(mined_by(block, miners, miners[m], net));
    } else {
        assert forall|address: Seq<char>| !mined_by(block, miners, address, net) by {
            if mined_by(block, miners, address, net) {
                let m = choose|m: int|
                    0 <= m < miners.len() && #[trigger] miners[m] == address && block_pays(block, address, net)
                        && forall|o: int| 0 <= o < miners.len() && o != m ==> !block_pays(block, #[trigger] miners[o], net);
                assert(paid(miners[m]));
                assert(places.contains(m));
                if places.len() > 1 {
                    let o = if places[0] == m {
                        places[1]
                    } else {
                        places[0]
                    };
                    assert(places[0] < places[1]);
                    assert(paid(miners[o]));
                }
            }
        }
    }
}

/// Whether a block is the last of the chain with a hash.
pub open spec fn last_with(blocks: Seq<BlockView>, b: int, hash: Seq<char>) -> bool {
    &&& 0 <= b < blocks.len() && blocks[b].hash == hash
    &&& forall|c: int| b < c < blocks.len() ==> (#[trigger] blocks[c]).hash != hash
}

pub proof fn lemma_last_position(blocks: Seq<BlockView>, n: nat, hash: Seq<char>)
    requires
        n <= blocks.len(),
    ensures
        match block_position(blocks, n, hash) {
            Some(b) => {
                &&& 0 <= b < n && blocks[b].hash == hash
                &&& forall|c: int| b < c < n ==> (#[trigger] blocks[c]).hash != hash
            },
            None => forall|c: int| 0 <= c < n ==> (#[trigger] blocks[c]).hash != hash,
        },
    decreases n,
{
    if n > 0 {
        lemma_last_position(blocks, (n - 1) as nat, hash);
    }
}

/// Whether a payment is among those of a list of payouts.
pub open spec fn paid_for(payouts: Seq<PayoutView>, txid: Seq<char>) -> bool {
    exists|p: int, a: int| 0 <= p < payouts.len() && 0 <= a < payouts[p].txids.len() && #[trigger] payouts[p].txids[a] == txid
}

pub proof fn lemma_paid_for(payouts: Seq<PayoutView>, txid: Seq<char>)
    ensures
        is_assigned(payouts, txid) == paid_for(payouts, txid),
{
    if is_assigned(payouts, txid) {
        let p = choose|p: int| 0 <= p < payouts.len() && (#[trigger] payouts[p]).txids.contains(txid);
        let a = choose|a: int| 0 <= a < payouts[p].txids.len() && payouts[p].txids[a] == txid;
        assert(payouts[p].txids[a] == txid);
    }
    if paid_for(payouts, txid) {
        let (p, a) = choose|p: int, a: int|
            0 <= p < payouts.len() && 0 <= a < payouts[p].txids.len() && #[trigger] payouts[p].txids[a] == txid;
        assert(payouts[p].txids.contains(txid));
    }
}

/// The fees of the payments at the places of a list.
pub open spec fn fees_at(records: Seq<RecordView>, places: Seq<int>) -> Seq<u64> {
    Seq::new(places.len(), |i: int| records[places[i]].fee)
}

/// Whether a payment is included in a block and none of the earlier payouts pays for
/// it.
pub open spec fn due_for(hash: Seq<char>, earlier: Seq<PayoutView>) -> spec_fn(RecordView) -> bool {
    |r: RecordView| r.inclusion is Some && r.inclusion->0.hash == hash && !paid_for(earlier, r.txid)
}

/// Whether a payout owes what is due for a block: to the one miner that mined it, 98
/// percent, rounded down, of the fees of the payments that the block includes and for
/// which none of the earlier payouts pays. Nothing has been done about it yet.
pub open spec fn owes(payout: PayoutView, records: Seq<RecordView>, earlier: Seq<PayoutView>, setting: Setting) -> bool {
    let hash = payout.block.hash;
    let due = due_for(hash, earlier);
    &&& payout.raw_tx is None && payout.txid is None && payout.reason is None
    &&& payout.status == "waiting"@
    &&& exists|b: int| #[trigger]
        last_with(setting.blocks, b, hash) && mined_by(setting.blocks[b], setting.miners, payout.address, setting.net)
    &&& exists|i: int| 0 <= i < records.len() && (#[trigger] records[i]).inclusion == Some(payout.block)
    &&& exists|places: Seq<int>| #[trigger]
        picks(places, records, due) && places.len() > 0 && payout.txids == Seq::new(
            places.len(),
            |i: int| records[places[i]].txid,
        ) && 100 * payout.amount <= 98 * sum(fees_at(records, places)) < 100 * payout.amount + 100
}

/// Every new payout owes what is due for its block, and there is one for each block.
pub proof fn law_payouts_owe_the_miner_its_share(
    records: Seq<RecordView>,
    payouts: Seq<PayoutView>,
    setting: Setting,
    q: int,
)
    requires
        payouts.len() <= q < assigned(records, payouts, records.len(), setting).0.len(),
        forall|i: int|
            0 <= i < records.len() && (#[trigger] records[i]).inclusion is Some ==> holds(
                setting.blocks,
                records[i].inclusion->0.hash,
            ),
    ensures
        owes(assigned(records, payouts, records.len(), setting).0[q], records, payouts, setting),
        forall|p: int|
            payouts.len() <= p < q ==> (#[trigger] assigned(records, payouts, records.len(), setting).0[p]).block.hash
                != assigned(records, payouts, records.len(), setting).0[q].block.hash,
{
    lemma_assigned(records, payouts, records.len(), setting);
    let list = assigned(records, payouts, records.len(), setting).0;
    let payout = list[q];
    assert(is_new(records, payouts, records.len() as int, setting, payout));
    let i = choose|i: int|
        0 <= i < records.len() && #[trigger] leads(records, payouts, i) && owed(records, payouts, i, setting) == Ok::<
            Option<PayoutView>,
            AssignFault,
        >(Some(payout));
    let hash = records[i].inclusion->0.hash;
    lemma_last_position(setting.blocks, setting.blocks.len(), hash);
    let b = block_position(setting.blocks, setting.blocks.len(), hash)->0;
    assert(holds(setting.blocks, hash));
    assert(last_with(setting.blocks, b, hash));
    law_blocks_are_attributed_to_the_miner_they_pay(setting.blocks[b], setting.miners, setting.net);
    let chosen = |r: RecordView| is_member(r, payouts, hash);
    let due = due_for(hash, payouts);
    let places = lemma_filter_places(records, chosen);
    let group = members(records, payouts, hash);
    assert forall|k: int| 0 <= k < records.len() implies chosen(#[trigger] records[k]) == due(records[k]) by {
        lemma_paid_for(payouts, records[k].txid);
    }
    assert(picks(places, records, due)) by {
        assert forall|k: int| 0 <= k < records.len() && due(#[trigger] records[k]) implies places.contains(k) by {
            assert(chosen(records[k]));
        }
        assert forall|k: int| 0 <= k < places.len() implies 0 <= #[trigger] places[k] < records.len() && due(
            records[places[k]],
        ) by {
            assert(chosen(records[places[k]]));
        }
    }
    assert(places.len() > 0) by {
        assert(chosen(records[i]));
        assert(places.contains(i));
    }
    assert(fees(group) =~= fees_at(records, places));
    assert(txids(group) =~= Seq::new(places.len(), |k: int| records[places[k]].txid));
    let total = sum(fees(group));
    law_share_is_within_fees(total);
    assert(payout.amount == miner_share(total));
    assert(records[i].inclusion == Some(payout.block));
    assert(payout.txids == Seq::new(places.len(), |k: int| records[places[k]].txid));
}

/// Where nothing stops the assignment, a payment that is included and for which no
/// payout paid before is paid for exactly if its block was mined by one configured
/// miner, and then by a payout for that block.
pub proof fn law_included_payments_get_a_payout(
    records: Seq<RecordView>,
    payouts: Seq<PayoutView>,
    setting: Setting,
    i: int,
    b: int,
)
    requires
        assigned(records, payouts, records.len(), setting).1 is None,
        0 <= i < records.len(),
        records[i].inclusion is Some,
        !paid_for(payouts, records[i].txid),
        last_with(setting.blocks, b, records[i].inclusion->0.hash),
        forall|k: int|
            0 <= k < records.len() && (#[trigger] records[k]).inclusion is Some ==> holds(
                setting.blocks,
                records[k].inclusion->0.hash,
            ),
        forall|j: int, k: int| 0 <= j < k < records.len() ==> (#[trigger] records[j]).txid != (#[trigger] records[k]).txid,
    ensures
        ({
            let list = assigned(records, payouts, records.len(), setting).0;
            &&& (exists|address: Seq<char>| mined_by(setting.blocks[b], setting.miners, address, setting.net)) == paid_for(
                list,
                records[i].txid,
            )
            &&& forall|q: int, a: int|
                0 <= q < list.len() && 0 <= a < list[q].txids.len() && #[trigger] list[q].txids[a] == records[i].txid
                    ==> q >= payouts.len() && list[q].block.hash == records[i].inclusion->0.hash
        }),
{
    let n = records.len();
    let list = assigned(records, payouts, n, setting).0;
    let txid = records[i].txid;
    let hash = records[i].inclusion->0.hash;
    lemma_paid_for(payouts, txid);
    lemma_paid_for(list, txid);
    lemma_last_position(setting.blocks, setting.blocks.len(), hash);
    assert(block_position(setting.blocks, setting.blocks.len(), hash) == Some(b)) by {
        let c = block_position(setting.blocks, setting.blocks.len(), hash)->0;
        assert(setting.blocks[b].hash == hash);
        assert(setting.blocks[c].hash == hash);
    }
    law_included_payments_are_paid_for(records, payouts, setting, i);
    assert(is_unpaid(records[i], payouts));
    let block = setting.blocks[b];
    assert(coinbase(block, setting.net) is Some);
    law_blocks_are_attributed_to_the_miner_they_pay(block, setting.miners, setting.net);
    lemma_assigned(records, payouts, n, setting);
    assert forall|q: int, a: int|
        0 <= q < list.len() && 0 <= a < list[q].txids.len() && #[trigger] list[q].txids[a] == txid implies q
        >= payouts.len() && list[q].block.hash == hash && exists|address: Seq<char>|
        mined_by(block, setting.miners, address, setting.net) by {
        if q < payouts.len() {
            assert(list.take(payouts.len() as int)[q] == list[q]);
            assert(payouts[q].txids[a] == txid);
        } else {
            law_payouts_owe_the_miner_its_share(records, payouts, setting, q);
            let own = list[q].block.hash;
            let due = due_for(own, payouts);
            let places = choose|places: Seq<int>| #[trigger]
                picks(places, records, due) && places.len() > 0 && list[q].txids == Seq::new(
                    places.len(),
                    |k: int| records[places[k]].txid,
                ) && 100 * list[q].amount <= 98 * sum(fees_at(records, places)) < 100 * list[q].amount + 100;
            assert(records[places[a]].txid == txid);
            assert(places[a] == i) by {
                if places[a] < i {
                    assert(records[places[a]].txid != records[i].txid);
                } else if i < places[a] {
                    assert(records[i].txid != records[places[a]].txid);
                }
            }
            let c = choose|c: int| #[trigger]
                last_with(setting.blocks, c, own) && mined_by(
                    setting.blocks[c],
                    setting.miners,
                    list[q].address,
                    setting.net,
                );
            assert(c == b) by {
                assert(setting.blocks[c].hash == hash && setting.blocks[b].hash == hash);
            }
        }
    }
    if paid_for(list, txid) {
        let (q, a) = choose|q: int, a: int|
            0 <= q < list.len() && 0 <= a < list[q].txids.len() && #[trigger] list[q].txids[a] == txid;
        assert(list[q].txids[a] == txid);
    }
    if exists|address: Seq<char>| mined_by(block, setting.miners, address, setting.net) {
        assert(is_attributed(hash, setting));
    }
}

} // verus!
