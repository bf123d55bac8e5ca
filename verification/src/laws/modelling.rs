//! Modelling: the models of the types hold what the values hold, field by field.

use crate::config::Config;
use crate::event::{optional_event, Event, EventView};
use crate::json::json;
use crate::ledger::{optional_tip, payout_views, record_views, Ledger, Payout, Record, Store, Tip};
use crate::miner::offer_views;
use crate::p2p::{optional_pending, Pending};
use crate::payout::{optional_texts, Reply, ReplyView};
use crate::server::Service;
use crate::text::{optional_text, texts};
use crate::transaction::{block_views, tx_views, Block, Tx};
use crate::wallet::payment::output_views;
use crate::wallet::state::{note_views, OwnedNote, WalletState};
use crate::wallet::tree::{tree_leaves, witness_leaves, witness_position};
use vstd::prelude::*;

verus! {

/// The model of a list of texts, or of optional texts, holds each in its place.
pub proof fn law_texts_are_modelled(list: Seq<String>, some: Seq<Option<String>>)
    ensures
        texts(list).len() == list.len(),
        forall|i: int| 0 <= i < list.len() ==> #[trigger] texts(list)[i] == list[i]@,
        optional_texts(some).len() == some.len(),
        forall|i: int|
            0 <= i < some.len() ==> match some[i] {
                Some(text) => #[trigger] optional_texts(some)[i] == Some(text@),
                None => optional_texts(some)[i] is None,
            },
{
}

/// The model of a payment holds every field of its record.
pub proof fn law_records_are_modelled(record: Record, tip: Tip)
    ensures
        tip@.height == tip.height && tip@.hash == tip.hash@,
        record@.txid == record.txid@ && record@.raw_tx == record.raw_tx@ && record@.fee == record.fee,
        record@.receipt == json(record.receipt) && record@.status == record.status@,
        record.inclusion is Some ==> record@.inclusion == Some(record.inclusion->0@),
        record.inclusion is None ==> record@.inclusion is None,
        record.failure_reason is Some ==> record@.failure_reason == Some(record.failure_reason->0@),
        record.failure_reason is None ==> record@.failure_reason is None,
{
}

/// The model of a payout holds every field of it.
pub proof fn law_payouts_are_modelled(payout: Payout)
    ensures
        payout@.block == payout.block@ && payout@.address == payout.address@ && payout@.amount == payout.amount,
        payout@.txids.len() == payout.txids@.len(),
        forall|i: int| 0 <= i < payout.txids@.len() ==> #[trigger] payout@.txids[i] == payout.txids@[i]@,
        payout@.status == payout.status@,
        payout.raw_tx is Some ==> payout@.raw_tx == Some(payout.raw_tx->0@),
        payout.raw_tx is None ==> payout@.raw_tx is None,
        payout.txid is Some ==> payout@.txid == Some(payout.txid->0@),
        payout.txid is None ==> payout@.txid is None,
        payout.reason is Some ==> payout@.reason == Some(payout.reason->0@),
        payout.reason is None ==> payout@.reason is None,
{
}

/// The model of the ledger holds its tip, and all payments and payouts in order.
pub proof fn law_ledgers_are_modelled(store: Store, ledger: Ledger)
    ensures
        store@.ready == store.ready && store@.recovering == store.recovering && store@.ledger == store.ledger@,
        ledger.tip is Some ==> ledger@.tip == Some(ledger.tip->0@),
        ledger.tip is None ==> ledger@.tip is None,
        ledger@.records.len() == ledger.records@.len() && ledger@.payouts.len() == ledger.payouts@.len(),
        forall|i: int| 0 <= i < ledger.records@.len() ==> #[trigger] ledger@.records[i] == ledger.records@[i]@,
        forall|i: int| 0 <= i < ledger.payouts@.len() ==> #[trigger] ledger@.payouts[i] == ledger.payouts@[i]@,
{
}

/// The model of a pending set holds its chain, its tip and its transactions in order.
pub proof fn law_pending_sets_are_modelled(pending: Pending)
    ensures
        pending@.chain_id == pending.chain_id@ && pending@.tip == pending.tip@,
        pending@.transactions.len() == pending.transactions@.len(),
        forall|i: int|
            0 <= i < pending.transactions@.len() ==> #[trigger] pending@.transactions[i] == pending.transactions@[i]@,
        optional_pending(Some(pending)) == Some(pending@),
        optional_pending(None) is None,
{
}

/// The models of transactions and blocks hold every field of them, in order.
pub proof fn law_blocks_are_modelled(tx: Tx, block: Block, blocks: Seq<Block>)
    ensures
        tx@.txid == tx.txid@ && tx@.pools == tx.pools && tx@.expiry == tx.expiry && tx@.bytes == tx.bytes@,
        tx@.nullifiers.len() == tx.nullifiers@.len(),
        forall|i: int| 0 <= i < tx.nullifiers@.len() ==> #[trigger] tx@.nullifiers[i] == tx.nullifiers@[i]@,
        block@.height == block.height && block@.hash == block.hash@,
        block@.transactions.len() == block.transactions@.len(),
        forall|i: int|
            0 <= i < block.transactions@.len() ==> #[trigger] block@.transactions[i] == block.transactions@[i]@,
        block_views(blocks).len() == blocks.len(),
        forall|i: int| 0 <= i < blocks.len() ==> #[trigger] block_views(blocks)[i] == blocks[i]@,
{
}

/// The models of the configuration and of the service hold every field of them.
pub proof fn law_settings_are_modelled(config: Config, service: Service)
    ensures
        config@.role == config.role@ && config@.node_config == config.node_config@,
        config@.chain_id == config.chain_id@ && config@.server_peer == config.server_peer@,
        config@.node_rpc == config.node_rpc@ && config@.api == config.api@ && config@.database == config.database@,
        config@.seed == config.seed@ && config@.min_fee_zat == config.min_fee_zat,
        config@.miners.len() == config.miners@.len(),
        forall|i: int| 0 <= i < config.miners@.len() ==> #[trigger] config@.miners[i] == config.miners@[i]@,
        service@.chain_id == service.chain_id@ && service@.seed == service.seed@ && service@.key == service.key@,
        service@.min_fee_zat == service.min_fee_zat && service@.net == service.net,
{
}

/// The models of events and of replies hold what they are about.
pub proof fn law_events_are_modelled(event: Event, reply: Reply)
    ensures
        event is Accepted ==> event@ == (EventView::Accepted { txid: event->Accepted_txid@, fee: event->fee }),
        event is Reconciled ==> event@ == (EventView::Reconciled { tip: event->tip@ }),
        event is PayoutSigned ==> event@ == (EventView::PayoutSigned {
            block_hash: event->PayoutSigned_block_hash@,
            txid: event->PayoutSigned_txid@,
            amount: event->amount,
        }),
        event is PayoutBlocked ==> event@ == (EventView::PayoutBlocked {
            block_hash: event->PayoutBlocked_block_hash@,
        }),
        event is PayoutRecovered ==> event@ == (EventView::PayoutRecovered {
            block_hash: event->PayoutRecovered_block_hash@,
        }),
        event is PayoutBroadcast ==> event@ is PayoutBroadcast && event@->PayoutBroadcast_block_hash
            == event->PayoutBroadcast_block_hash@ && (event->sent is Some ==> event@->sent == Some(event->sent->0@)) && (
        event->sent is None ==> event@->sent is None),
        optional_event(Some(event)) == Some(event@),
        reply is Built ==> reply@ == (ReplyView::Built { raw_tx: reply->raw_tx@, payout_txid: reply->payout_txid@ }),
        reply is NotBuilt ==> reply@ == (ReplyView::NotBuilt { words: reply->words@ }),
        reply is BlockHash ==> reply@ is BlockHash && (reply->found is Some ==> reply@->found == Some(reply->found->0@)) && (
        reply->found is None ==> reply@->found is None),
        reply is Mempool ==> reply@ == (ReplyView::Mempool { waiting: optional_texts(reply->waiting@) }),
        reply is Sent ==> reply@ is Sent,
        reply is NotSent ==> reply@ is NotSent,
{
}

/// The model of a wallet holds its hashes, its commitments and its notes in order.
pub proof fn law_wallets_are_modelled(wallet: WalletState, owned: OwnedNote)
    ensures
        owned@.note == owned.note && owned@.txid == owned.txid@,
        owned@.leaves == witness_leaves(owned.witness) && owned@.position == witness_position(owned.witness),
        wallet@.min_value == wallet.min_value && wallet@.leaves == tree_leaves(wallet.tree),
        wallet@.hashes.len() == wallet.hashes@.len() && wallet@.notes.len() == wallet.notes@.len(),
        forall|i: int| 0 <= i < wallet.hashes@.len() ==> #[trigger] wallet@.hashes[i] == wallet.hashes@[i]@,
        forall|i: int| 0 <= i < wallet.notes@.len() ==> #[trigger] wallet@.notes[i] == wallet.notes@[i]@,
{
}

/// The models of offers and of outputs hold each in its place.
pub proof fn law_offers_are_modelled(offers: Seq<Option<Vec<String>>>, outputs: Seq<(String, u64)>)
    ensures
        offer_views(offers).len() == offers.len(),
        forall|i: int|
            0 <= i < offers.len() ==> match offers[i] {
                Some(list) => #[trigger] offer_views(offers)[i] == Some(texts(list@)),
                None => offer_views(offers)[i] is None,
            },
        output_views(outputs).len() == outputs.len(),
        forall|i: int| 0 <= i < outputs.len() ==> #[trigger] output_views(outputs)[i] == (outputs[i].0@, outputs[i].1),
{
}

} // verus!
