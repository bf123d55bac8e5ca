//! Wallets: what the operations on notes, payouts and receipts do, stated of what goes
//! into a call and what comes out of it.

use crate::amount::{share, sum, total, ShareError};
use crate::encoding::{hex_bytes, hex_text};
use crate::event::{optional_event, Event, EventView};
use crate::json::{json, json_read, json_written, Json};
use crate::laws::calls::words;
use crate::laws::deciding::{bears, law_every_note_for_the_service_counts, reads_values};
use crate::laws::owing::{law_blocks_are_attributed_to_the_miner_they_pay, mined_by};
use crate::laws::paying::{
    can_fund, cutoff, is_well_made, law_payments_spend_the_first_note_that_can_fund, law_the_cutoff_loses_no_funding_note,
};
use crate::laws::reading::{
    is_told, law_blocks_are_read_whole, law_payees_are_unified_addresses, law_seeds_are_thirty_two_bytes,
    law_transactions_are_read_whole, law_unknown_payments_are_explained, law_unreadable_blocks_are_explained,
    law_unreadable_transactions_are_explained, law_useless_seeds_are_explained,
};
use crate::laws::stepping::{
    is_pair, is_too_late, law_due_payouts_are_taken_up, law_notes_of_payouts_are_reserved,
    law_orders_say_outputs_fee_and_rival, law_payouts_are_sent_after_three_looks,
    law_payouts_cannot_go_on_without_a_transaction, law_payouts_change_their_status_for_a_reason,
    law_payouts_get_their_transaction_when_built, law_steps_are_written_down, law_steps_fail_only_without_a_transaction,
    law_waiting_transactions_are_read_in_order,
};
use crate::laws::stopping::{is_first_reason, law_payments_are_refused_for_the_first_reason};
use crate::laws::syncing::{
    fails_rightly, holds_the_tip, law_wallets_follow_readable_chains, law_wallets_hold_every_note_and_no_other,
};
use crate::laws::telling::{
    law_receipts_are_signed, law_receipts_tell_chain_payment_and_fee, part, tells_receipt, tells_signed,
};
use crate::laws::vouching::{
    holds_both, is_public_key, law_only_signed_receipts_say_something, law_receipts_say_what_was_signed, signed_for,
};
use crate::ledger::{Payout, PayoutView, Store};
use crate::payout::{optional_texts, read_mempool, Need, PayoutError, Reply, ReplyView};
use crate::receipt::{
    is_signature, issue_receipt, payload_json, public_key_of, service_key, signing_seed, verify_receipt, verifying_key,
    ReceiptError, SeedError,
};
use crate::reconcile::assign::recipients_of;
use crate::text::{optional_text, texts};
use crate::transaction::{
    block_decoded, block_hash, block_height, block_transactions, block_views, decoded, encoded, raw_block,
    raw_transaction, raw_tx, Block, RawTxError, Tx,
};
use crate::wallet::keys::{
    address, first_address, key, receiver, seed_key, spending_key, unified_receiver, unified_text, viewing_key,
    KeyError, ReceiverError,
};
use crate::wallet::payment::{choose_note, create, fits, output_views, CreateError, Payment};
use crate::wallet::scan::{
    attribute, coinbase, coinbase_receivers, ironwood_leaves, parsed_transaction, payments_to, received, CoinbaseError,
    ReceivedError,
};
use crate::wallet::state::{Fault, SyncError, WalletState};
use crate::worker::{reserve, Built, Order, OrderError, Reserved};
use orchard::keys::{FullViewingKey, SpendingKey};
use serde_json::Value;
use vstd::hash_set::StringHashSet;
use vstd::prelude::*;
use vstd::utf8::{decode_utf8, encode_utf8, valid_utf8};
use zakura_chain::parameters::Network;

verus! {

/// The first note of a wallet that is worth the cost, is not reserved, and is the one
/// that was named by the transaction that paid it or by its nullifier, if one was named,
/// is chosen. There is no choice only if there is no such note.
pub proof fn law_the_first_note_that_can_fund_is_chosen(
    wallet: &WalletState,
    fvk: &FullViewingKey,
    cost: u64,
    reserved: &StringHashSet,
    input: Option<&str>,
    choice: Option<usize>,
)
    requires
        call_ensures(choose_note, (wallet, fvk, cost, reserved, input), choice),
    ensures
        choice is Some ==> choice->0 < wallet@.notes.len() && can_fund(
            wallet@.notes[choice->0 as int],
            *fvk,
            cost as nat,
            reserved@,
            words(input),
        ),
        forall|j: int|
            0 <= j < (if choice is Some {
                choice->0 as int
            } else {
                wallet@.notes.len() as int
            }) ==> !can_fund(#[trigger] wallet@.notes[j], *fvk, cost as nat, reserved@, words(input)),
{
    assert forall|j: int| 0 <= j < wallet@.notes.len() implies can_fund(
        #[trigger] wallet@.notes[j],
        *fvk,
        cost as nat,
        reserved@,
        words(input),
    ) == fits(
        wallet@.notes[j],
        *fvk,
        cost as nat,
        reserved@,
        crate::wallet::payment::slice_text(input),
    ) by {
    }
    if choice is None {
        assert forall|j: int| 0 <= j < wallet@.notes.len() implies !can_fund(
            #[trigger] wallet@.notes[j],
            *fvk,
            cost as nat,
            reserved@,
            words(input),
        ) by {
            assert(!fits(
                wallet@.notes[j],
                *fvk,
                cost as nat,
                reserved@,
                crate::wallet::payment::slice_text(input),
            ));
        }
    } else {
        assert forall|j: int| 0 <= j < choice->0 implies !can_fund(
            #[trigger] wallet@.notes[j],
            *fvk,
            cost as nat,
            reserved@,
            words(input),
        ) by {
            assert(!fits(
                wallet@.notes[j],
                *fvk,
                cost as nat,
                reserved@,
                crate::wallet::payment::slice_text(input),
            ));
        }
    }
}

/// A payment spends the first note at the tip that can fund it and pays what it should;
/// it is refused only for the first thing that stands against it.
pub proof fn law_payments_are_made_or_refused(
    wallet: &mut WalletState,
    blocks: &Vec<Block>,
    seed: &str,
    outputs: &Vec<(String, u64)>,
    fee: u64,
    input: Option<&str>,
    reserved: &StringHashSet,
    net: &Network,
    planned: Result<Payment, CreateError>,
)
    requires
        old(wallet)@.wf(),
        blocks@.len() > 0 && blocks@.last().height is Some ==> blocks@.last().height->0 < u32::MAX,
        call_ensures(create, (wallet, blocks, seed, outputs, fee, input, reserved, net), planned),
    ensures
        ({
            let chain = block_views(blocks@);
            let list = output_views(outputs@);
            match planned {
                Ok(payment) => is_well_made(
                    payment,
                    old(wallet)@,
                    chain,
                    seed@,
                    list,
                    fee,
                    words(input),
                    reserved@,
                    *net,
                ),
                Err(e) => is_first_reason(e, old(wallet)@, chain, seed@, list, fee, words(input), reserved@, *net),
            }
        }),
        planned is Ok ==> holds_the_tip(
            old(wallet)@,
            final(wallet)@,
            block_views(blocks@),
            viewing_key(seed_key(seed@)->0),
            *net,
            cutoff(output_views(outputs@), fee) as u64,
        ),
        seed_key(seed@) is None ==> final(wallet)@ == old(wallet)@,
{
    let chain = block_views(blocks@);
    let list = output_views(outputs@);
    let named = words(input);
    assert(named == crate::wallet::payment::slice_text(input));
    law_the_cutoff_loses_no_funding_note(list, fee);
    if planned is Ok {
        let fvk = viewing_key(seed_key(seed@)->0);
        law_wallets_hold_every_note_and_no_other(old(wallet)@, chain, fvk, *net, cutoff(list, fee) as u64);
    }
    match planned {
        Ok(payment) => law_payments_spend_the_first_note_that_can_fund(
            payment,
            old(wallet)@,
            chain,
            seed@,
            list,
            fee,
            named,
            reserved@,
            *net,
        ),
        Err(e) => law_payments_are_refused_for_the_first_reason(
            e,
            old(wallet)@,
            chain,
            seed@,
            list,
            fee,
            named,
            reserved@,
            *net,
        ),
    }
}

/// A wallet that is brought up to date holds the notes that it should at the tip; that
/// fails only where a block or a transaction cannot be read, or the tree is full.
pub proof fn law_wallets_are_brought_to_the_tip(
    wallet: &mut WalletState,
    blocks: &Vec<Block>,
    fvk: &FullViewingKey,
    net: &Network,
    min_value: u64,
    done: Result<(), SyncError>,
)
    requires
        old(wallet)@.wf(),
        call_ensures(WalletState::sync, (wallet, blocks, fvk, net, min_value), done),
    ensures
        ({
            let chain = block_views(blocks@);
            let fault = match done {
                Ok(_) => None,
                Err(SyncError::Height) => Some(Fault::Height),
                Err(SyncError::Malformed(_)) => Some(Fault::Malformed),
                Err(SyncError::TreeFull) => Some(Fault::TreeFull),
            };
            &&& done is Ok ==> holds_the_tip(old(wallet)@, final(wallet)@, chain, *fvk, *net, min_value)
            &&& fails_rightly(fault, old(wallet)@, chain, *fvk, *net, min_value)
        }),
{
    let chain = block_views(blocks@);
    law_wallets_follow_readable_chains(old(wallet)@, chain, *fvk, *net, min_value);
    if done is Ok {
        law_wallets_hold_every_note_and_no_other(old(wallet)@, chain, *fvk, *net, min_value);
    }
}

/// A block is attributed to the one configured miner that its coinbase transaction
/// publicly pays, and to none where it pays none of them or several.
pub proof fn law_blocks_belong_to_the_miner_they_pay(
    block: &Block,
    net: &Network,
    recipients: Result<StringHashSet, CoinbaseError>,
    miners: &Vec<String>,
    miner: Option<String>,
)
    requires
        call_ensures(coinbase_receivers, (block, net), recipients),
        recipients is Ok,
        call_ensures(attribute, (miners, &recipients->Ok_0, net), miner),
    ensures
        match miner {
            Some(miner) => mined_by(block@, texts(miners@), miner@, *net),
            None => forall|address: Seq<char>| !mined_by(block@, texts(miners@), address, *net),
        },
{
    assert(recipients->Ok_0@ =~= recipients_of(coinbase(block@, *net)->0));
    law_blocks_are_attributed_to_the_miner_they_pay(block@, texts(miners@), *net);
}

/// The recipients of a block are known if it has a height and its first transaction can
/// be read at that height.
pub proof fn law_recipients_are_known_or_not(block: &Block, net: &Network, recipients: Result<StringHashSet, CoinbaseError>)
    requires
        call_ensures(coinbase_receivers, (block, net), recipients),
    ensures
        ({
            let bare = block.height is None || block.transactions@.len() == 0;
            let parsed = parsed_transaction(block.transactions@[0].bytes@, *net, block.height->0);
            &&& recipients is Ok <==> !bare && parsed is Some
            &&& recipients is Err ==> (recipients->Err_0 is Height <==> bare)
        }),
{
    if block.transactions@.len() > 0 {
        assert(block@.transactions[0] == block.transactions@[0]@);
    }
}

/// What a transaction pays to a seed is the sum of every note that the incoming key of
/// the seed reads in it.
pub proof fn law_every_note_for_a_seed_is_added_up(
    tx: &Tx,
    seed: &str,
    net: &Network,
    height: u32,
    amount: Result<u64, ReceivedError>,
)
    requires
        call_ensures(received, (tx, seed, net, height), amount),
    ensures
        ({
            let parsed = parsed_transaction(tx.bytes@, *net, height);
            let ivk = crate::wallet::keys::prepared_key(
                crate::wallet::keys::external_incoming_key(viewing_key(seed_key(seed@)->0)),
            );
            &&& amount is Ok ==> seed_key(seed@) is Some && parsed is Some && exists|values: Seq<u64>| #[trigger]
                reads_values(values, parsed->0, ivk, ironwood_leaves(parsed->0).len()) && amount->Ok_0 == sum(values)
            &&& amount is Err && amount->Err_0 is Key <==> seed_key(seed@) is None
            &&& amount is Err && amount->Err_0 is Malformed <==> seed_key(seed@) is Some && parsed is None
            &&& amount is Err && amount->Err_0 is Overflow ==> exists|values: Seq<u64>| #[trigger]
                reads_values(values, parsed->0, ivk, ironwood_leaves(parsed->0).len()) && sum(values) > u64::MAX
        }),
{
    law_every_note_for_the_service_counts(tx.bytes@, seed@, *net, height);
    let parsed = parsed_transaction(tx.bytes@, *net, height);
    let paid = payments_to(tx.bytes@, seed@, *net, height);
    if paid is Some {
        let ivk = crate::wallet::keys::prepared_key(
            crate::wallet::keys::external_incoming_key(viewing_key(seed_key(seed@)->0)),
        );
        assert(reads_values(paid->0, parsed->0, ivk, ironwood_leaves(parsed->0).len()));
    }
    if amount is Err {
        law_unknown_payments_are_explained(amount->Err_0, tx.bytes@, seed@, *net, height);
    }
}

/// A seed of thirty-two bytes in hexadecimal gives a key, if its bytes are one.
pub proof fn law_seeds_give_keys(seed: &str, sk: Result<SpendingKey, KeyError>)
    requires
        call_ensures(key, (seed,), sk),
    ensures
        ({
            let bytes = hex_bytes(seed@);
            let whole = bytes is Some && bytes->0.len() == 32;
            &&& sk is Ok ==> whole && spending_key(bytes->0) == Some(sk->Ok_0)
            &&& sk is Err && sk->Err_0 is Hex <==> bytes is None
            &&& sk is Err && sk->Err_0 is Length <==> bytes is Some && bytes->0.len() != 32
            &&& sk is Err && sk->Err_0 is Invalid <==> whole && spending_key(bytes->0) is None
        }),
{
    law_seeds_are_thirty_two_bytes(seed@);
    if sk is Err {
        law_useless_seeds_are_explained(sk->Err_0, seed@);
    }
}

/// The address of a seed is the unified address of the first address of its key; who
/// pays to it pays to that.
pub proof fn law_seeds_have_an_address(seed: &str, net: &Network, text: Result<String, KeyError>)
    requires
        call_ensures(address, (seed, net), text),
    ensures
        text is Ok ==> {
            let own = first_address(viewing_key(seed_key(seed@)->0));
            &&& seed_key(seed@) is Some
            &&& text->Ok_0@ == unified_text(own, *net)
            &&& unified_receiver(text->Ok_0@, *net) == Some(Some(own))
        },
        text is Err ==> seed_key(seed@) is None,
{
    law_seeds_are_thirty_two_bytes(seed@);
}

/// Who is paid by a text is the shielded receiver of the unified address that it is.
pub proof fn law_texts_name_payees(text: &str, net: &Network, read: Result<orchard::Address, ReceiverError>)
    requires
        call_ensures(receiver, (text, net), read),
    ensures
        match unified_receiver(text@, *net) {
            Some(Some(to)) => read == Ok::<orchard::Address, ReceiverError>(to),
            Some(None) => read == Err::<orchard::Address, ReceiverError>(ReceiverError::NoReceiver),
            None => read == Err::<orchard::Address, ReceiverError>(ReceiverError::NotUnified),
        },
{
    law_payees_are_unified_addresses(text@, *net);
}

/// A transaction is read if its digits spell one and nothing more, and is told as it
/// says of itself; a text with more digits behind it is refused.
pub proof fn law_transactions_are_read(raw: &str, tx: Result<Tx, RawTxError>)
    requires
        call_ensures(raw_tx, (raw,), tx),
    ensures
        ({
            let bytes = hex_bytes(raw@)->0;
            let there = decoded(bytes)->0;
            let legible = hex_bytes(raw@) is Some && decoded(bytes) is Some && encoded(there.0) is Some;
            &&& tx is Ok <==> legible && there.1 == bytes.len()
            &&& tx is Ok ==> is_told(tx->Ok_0@, there.0)
            &&& tx is Err && tx->Err_0 is Hex <==> hex_bytes(raw@) is None
            &&& tx is Err && tx->Err_0 is Malformed <==> hex_bytes(raw@) is Some && !legible
            &&& tx is Err && tx->Err_0 is Trailing <==> legible && there.1 != bytes.len()
        }),
{
    law_transactions_are_read_whole(raw@);
    if tx is Err {
        law_unreadable_transactions_are_explained(tx->Err_0, raw@);
    }
}

/// A block is read with its height, its hash and all of its transactions, in order.
pub proof fn law_blocks_are_read(raw: &str, block: Result<Block, RawTxError>)
    requires
        call_ensures(raw_block, (raw,), block),
    ensures
        ({
            let there = block_decoded(hex_bytes(raw@)->0)->0;
            let list = block_transactions(there);
            &&& block is Ok ==> hex_bytes(raw@) is Some && block_decoded(hex_bytes(raw@)->0) is Some
            &&& block is Ok ==> block->Ok_0.height == block_height(there) && block->Ok_0.hash@ == block_hash(there)
            &&& block is Ok ==> block->Ok_0.transactions@.len() == list.len() && forall|i: int|
                0 <= i < list.len() ==> is_told(block->Ok_0.transactions@[i]@, #[trigger] list[i])
            &&& block is Err && block->Err_0 is Hex <==> hex_bytes(raw@) is None
            &&& block is Err ==> !(block->Err_0 is Trailing)
        }),
{
    law_blocks_are_read_whole(raw@);
    if block is Err {
        law_unreadable_blocks_are_explained(block->Err_0, raw@);
    } else {
        let list = block_transactions(block_decoded(hex_bytes(raw@)->0)->0);
        let made = block->Ok_0;
        assert forall|i: int| 0 <= i < list.len() implies is_told(made.transactions@[i]@, #[trigger] list[i]) by {
            assert(made@.transactions[i] == made.transactions@[i]@);
        }
    }
}

/// A payment is eligible exactly if it is of version 6, is no coinbase transaction, and
/// spends and pays in the Ironwood pool and nowhere else.
pub proof fn law_only_shielded_payments_are_eligible(tx: &Tx, eligible: bool)
    requires
        call_ensures(Tx::is_ironwood_only, (tx,), eligible),
    ensures
        eligible <==> tx.pools.version == 6 && !tx.pools.coinbase && tx.pools.inputs == 0 && tx.pools.outputs == 0
            && tx.pools.sapling_outputs == 0 && tx.pools.sapling_spends == 0 && !tx.pools.orchard && tx.pools.ironwood,
{
}

/// Amounts are added up, unless the sum does not fit.
pub proof fn law_amounts_are_added_up(amounts: &Vec<u64>, added: Option<u64>)
    requires
        call_ensures(total, (amounts,), added),
    ensures
        added is Some <==> sum(amounts@) <= u64::MAX,
        added is Some ==> added->0 == sum(amounts@),
{
}

/// The share of a miner is ninety-eight percent of the fees, rounded down.
pub proof fn law_miners_get_their_share(fees: &Vec<u64>, amount: Result<u64, ShareError>)
    requires
        call_ensures(share, (fees,), amount),
    ensures
        amount is Ok <==> 98 * sum(fees@) <= u64::MAX,
        amount is Ok ==> 100 * amount->Ok_0 <= 98 * sum(fees@) < 100 * amount->Ok_0 + 100,
        amount is Err && amount->Err_0 is Fees <==> sum(fees@) > u64::MAX,
{
    crate::amount::law_share_is_within_fees(sum(fees@));
}

/// Something is done for a payout exactly if it is open and its block has a block on top
/// of it: it is built, if it was not, and else its block is looked at.
pub proof fn law_payouts_are_taken_up_when_due(payout: &Payout, height: u32, need: Need)
    requires
        call_ensures(Payout::first_need, (payout, height), need),
    ensures
        ({
            let due = (payout.status@ == "waiting"@ || payout.status@ == "broadcast"@) && payout.block.height < height;
            &&& need == Need::Build <==> due && payout.raw_tx is None
            &&& need == Need::BlockHash <==> due && payout.raw_tx is Some
            &&& need == Need::Nothing <==> !due
        }),
{
    law_due_payouts_are_taken_up(payout@, height);
}

/// Whether a step of a payout did what its reply asks for.
pub open spec fn is_stepped(
    before: PayoutView,
    after: PayoutView,
    height: u32,
    reply: ReplyView,
    need: Need,
    event: Option<EventView>,
) -> bool {
    let hash = before.block.hash;
    let lost = reply is BlockHash && reply->found != Some(hash);
    let late = reply is BlockHash && !lost && is_too_late(before, height);
    let listed = reply is Mempool && exists|i: int|
        0 <= i < reply->waiting.len() && #[trigger] reply->waiting[i] == before.txid;
    let underway = reply is Sent || listed;
    &&& after.block == before.block && after.address == before.address
    &&& after.amount == before.amount && after.txids == before.txids
    &&& reply is Built ==> after.raw_tx == Some(reply->raw_tx) && after.txid == Some(reply->payout_txid)
    &&& !(reply is Built) ==> after.raw_tx == before.raw_tx && after.txid == before.txid
    &&& lost || late ==> after.status == "blocked"@
    &&& underway ==> after.status == "broadcast"@
    &&& !lost && !late && !underway ==> after.status == before.status
    &&& late ==> after.reason == Some("signed payout expired; inspect before retry"@)
    &&& reply is Built ==> after.reason is None
    &&& reply is NotBuilt ==> after.reason == Some(reply->words)
    &&& !late && !(reply is Built) && !(reply is NotBuilt) ==> after.reason == before.reason
    &&& need == Need::BlockHash <==> reply is Built
    &&& need == Need::Mempool <==> reply is BlockHash && !lost && !late
    &&& need == Need::Broadcast <==> reply is Mempool && !listed
    &&& need != Need::Build
    &&& reply is Built ==> event == Some(
        EventView::PayoutSigned { block_hash: hash, txid: reply->payout_txid, amount: before.amount },
    )
    &&& lost || late ==> event == Some(EventView::PayoutBlocked { block_hash: hash })
    &&& listed && before.status != "broadcast"@ ==> event == Some(EventView::PayoutRecovered { block_hash: hash })
    &&& reply is Sent ==> event == Some(EventView::PayoutBroadcast { block_hash: hash, sent: before.txid })
    &&& event is Some ==> reply is Built || lost || late || reply is Sent || listed && before.status != "broadcast"@
}

proof fn lemma_stepped(payout: PayoutView, height: u32, reply: ReplyView)
    requires
        crate::payout::stepped(payout, height, reply) is Some,
    ensures
        ({
            let step = crate::payout::stepped(payout, height, reply)->0;
            is_stepped(payout, step.payout, height, reply, step.need, step.event)
        }),
{
    law_steps_fail_only_without_a_transaction(payout, height, reply);
    law_payouts_get_their_transaction_when_built(payout, height, reply);
    law_payouts_change_their_status_for_a_reason(payout, height, reply);
    law_payouts_are_sent_after_three_looks(payout, height, reply);
    law_steps_are_written_down(payout, height, reply);
    if reply is Mempool && reply->waiting.contains(payout.txid) {
        let i = choose|i: int| 0 <= i < reply->waiting.len() && reply->waiting[i] == payout.txid;
        assert(reply->waiting[i] == payout.txid);
    }
}

/// A step of one payout of the ledger does what its reply asks for, and changes no other
/// payout and nothing else. It fails only if the block is in place and the payout has no
/// transaction that can be read; then nothing changes.
pub proof fn law_payouts_are_stepped_one_at_a_time(
    store: &mut Store,
    i: usize,
    height: u32,
    reply: Reply,
    next: Result<(Need, Option<Event>), PayoutError>,
)
    requires
        i < old(store).ledger.payouts@.len(),
        call_ensures(Store::step_payout, (store, i, height, reply), next),
    ensures
        ({
            let before = old(store)@;
            let after = final(store)@;
            let payout = before.ledger.payouts[i as int];
            let stuck = reply@ is BlockHash && reply@->found == Some(payout.block.hash) && (payout.raw_tx is None
                || raw_transaction(payout.raw_tx->0) is None);
            &&& next is Err <==> stuck
            &&& next is Err ==> after == before && (next->Err_0 is Unsigned <==> payout.raw_tx is None)
            &&& next is Ok ==> {
                &&& is_stepped(
                    payout,
                    after.ledger.payouts[i as int],
                    height,
                    reply@,
                    (next->Ok_0).0,
                    optional_event((next->Ok_0).1),
                )
                &&& after.ready == before.ready && after.recovering == before.recovering
                &&& after.ledger.tip == before.ledger.tip && after.ledger.records == before.ledger.records
                &&& after.ledger.payouts.len() == before.ledger.payouts.len()
                &&& forall|p: int|
                    0 <= p < before.ledger.payouts.len() && p != i ==> #[trigger] after.ledger.payouts[p]
                        == before.ledger.payouts[p]
            }
        }),
{
    let payout = old(store)@.ledger.payouts[i as int];
    law_steps_fail_only_without_a_transaction(payout, height, reply@);
    if next is Ok {
        lemma_stepped(payout, height, reply@);
    } else {
        law_payouts_cannot_go_on_without_a_transaction(next->Err_0, payout);
    }
}

/// A step of a payout does what its reply asks for.
pub proof fn law_payouts_are_stepped(
    payout: &mut Payout,
    height: u32,
    reply: Reply,
    next: Result<(Need, Option<Event>), PayoutError>,
)
    requires
        call_ensures(Payout::step, (payout, height, reply), next),
    ensures
        next is Ok ==> is_stepped(
            old(payout)@,
            final(payout)@,
            height,
            reply@,
            (next->Ok_0).0,
            optional_event((next->Ok_0).1),
        ),
        next is Err ==> final(payout)@ == old(payout)@ && reply@ is BlockHash && (old(payout)@.raw_tx is None
            || raw_transaction(old(payout)@.raw_tx->0) is None),
{
    law_steps_fail_only_without_a_transaction(old(payout)@, height, reply@);
    if next is Ok {
        lemma_stepped(old(payout)@, height, reply@);
    }
}

/// A payout pays its amount to its address, and nothing else.
pub proof fn law_payouts_pay_the_miner(payout: &Payout, outputs: Vec<(String, u64)>)
    requires
        call_ensures(Payout::outputs, (payout,), outputs),
    ensures
        output_views(outputs@) == seq![(payout.address@, payout.amount)],
{
    assert(output_views(outputs@) =~= seq![(payout.address@, payout.amount)]);
}

/// The notes that payouts reserve are those whose nullifiers their transactions reveal;
/// they are unknown if a transaction cannot be read.
pub proof fn law_payouts_reserve_their_notes(store: &Store, reserved: Result<StringHashSet, RawTxError>, nullifier: Seq<char>)
    requires
        call_ensures(Store::reserved_nullifiers, (store,), reserved),
    ensures
        ({
            let payouts = store@.ledger.payouts;
            &&& reserved is Ok <==> forall|p: int|
                0 <= p < payouts.len() && (#[trigger] payouts[p]).raw_tx is Some ==> raw_transaction(
                    payouts[p].raw_tx->0,
                ) is Some
            &&& reserved is Ok ==> (reserved->Ok_0@.contains(nullifier) <==> exists|p: int, i: int|
                {
                    let tx = raw_transaction(payouts[p].raw_tx->0);
                    &&& 0 <= p < payouts.len() && payouts[p].raw_tx is Some && tx is Some
                    &&& 0 <= i < tx->0.nullifiers.len()
                    &&& #[trigger] raw_transaction(payouts[p].raw_tx->0)->0.nullifiers[i] == nullifier
                })
        }),
{
    let payouts = store@.ledger.payouts;
    law_notes_of_payouts_are_reserved(payouts, nullifier);
    if reserved is Err {
        let p = choose|p: int| #[trigger] crate::payout::first_unreadable(payouts, p, reserved->Err_0);
        assert(payouts[p].raw_tx is Some && raw_transaction(payouts[p].raw_tx->0) is None);
    }
}

/// The waiting transactions of a node are read in order.
pub proof fn law_waiting_transactions_are_read(value: &Value, waiting: Option<Vec<Option<String>>>)
    requires
        call_ensures(read_mempool, (value,), waiting),
    ensures
        waiting is Some <==> json(*value) is Array,
        waiting is Some ==> waiting->0@.len() == json(*value)->Array_0.len() && forall|i: int|
            0 <= i < waiting->0@.len() ==> match json(*value)->Array_0[i] {
                Json::Text(text) => (#[trigger] waiting->0@[i]) is Some && waiting->0@[i]->0@ == text,
                _ => waiting->0@[i] is None,
            },
{
    law_waiting_transactions_are_read_in_order(json(*value));
    if waiting is Some {
        let list = waiting->0@;
        let all = json(*value)->Array_0;
        assert forall|i: int| 0 <= i < list.len() implies match all[i] {
            Json::Text(text) => (#[trigger] list[i]) is Some && list[i]->0@ == text,
            _ => list[i] is None,
        } by {
            assert(optional_texts(list)[i] == optional_text(list[i]));
            assert(all[i] == all[i]);
        }
    }
}

/// Whoever knows the key of the service learns from a receipt what was signed, and is
/// told what is wrong with it if nothing was.
pub proof fn law_receipts_are_verified(key: &str, receipt: &str, payload: Result<String, ReceiptError>)
    requires
        call_ensures(verify_receipt, (key, receipt), payload),
    ensures
        ({
            let read = json_read(encode_utf8(receipt@));
            &&& payload is Err && payload->Err_0 is Json <==> read is None
            &&& payload is Ok ==> read is Some && is_public_key(key@) && exists|p: Seq<u8>, s: Seq<u8>|
                {
                    &&& #[trigger] holds_both(read->0, p, s)
                    &&& is_signature(verifying_key(hex_bytes(key@)->0)->0, signed_for(p), s)
                    &&& valid_utf8(p) && payload->Ok_0@ == decode_utf8(p)
                }
            &&& payload is Err && read is Some ==> forall|p: Seq<u8>, s: Seq<u8>| #[trigger]
                holds_both(read->0, p, s) && is_public_key(key@) ==> !is_signature(
                    verifying_key(hex_bytes(key@)->0)->0,
                    signed_for(p),
                    s,
                ) || !valid_utf8(p)
        }),
{
    let read = json_read(encode_utf8(receipt@));
    if payload is Ok {
        law_only_signed_receipts_say_something(key@, read->0);
    } else if read is Some {
        assert forall|p: Seq<u8>, s: Seq<u8>| #[trigger] holds_both(read->0, p, s) && is_public_key(
            key@,
        ) implies !is_signature(verifying_key(hex_bytes(key@)->0)->0, signed_for(p), s) || !valid_utf8(p) by {
            law_receipts_say_what_was_signed(key@, read->0, p, s);
        }
    }
}

/// A receipt is issued for every payment: what it says names the chain, the payment and
/// the fee, and it is signed.
pub proof fn law_receipts_are_issued(seed: &[u8; 32], chain_id: &str, txid: &str, fee: u64, receipt: Result<Value, String>)
    requires
        call_ensures(issue_receipt, (seed, chain_id, txid, fee), receipt),
    ensures
        receipt is Ok,
        tells_signed(json(receipt->Ok_0), seed@, chain_id@, txid@, fee),
        json_read(json_written(payload_json(chain_id@, txid@, fee))) == Some(payload_json(chain_id@, txid@, fee)),
        tells_receipt(payload_json(chain_id@, txid@, fee), chain_id@, txid@, fee),
{
    law_receipts_are_signed(seed@, chain_id@, txid@, fee);
    law_receipts_tell_chain_payment_and_fee(chain_id@, txid@, fee);
}

/// Reserving a note leaves the other notes as they were.
pub proof fn law_spent_notes_are_reserved(reserved: &mut Reserved, payment: &Built, nullifier: Seq<char>)
    requires
        call_ensures(reserve, (reserved, payment), ()),
    ensures
        final(reserved)@.contains(nullifier) <==> old(reserved)@.contains(nullifier) || nullifier == payment.input_nf@,
{
}

/// An order is read with its seed, its outputs in order and its fee, 20000 unless it
/// says another; it names no note.
pub proof fn law_orders_are_read(request: &Value, order: Result<Order, OrderError>)
    requires
        call_ensures(Order::read, (request,), order),
    ensures
        ({
            let given = json(*request);
            let list = part(given, "outputs"@);
            let seeded = bears(given, "seed"@) && part(given, "seed"@) is Text;
            let listed = bears(given, "outputs"@) && list is Array && forall|i: int|
                0 <= i < list->Array_0.len() ==> is_pair(#[trigger] list->Array_0[i]);
            &&& order is Ok <==> seeded && listed
            &&& order is Err ==> (order->Err_0 is Seed <==> !seeded)
            &&& order is Ok ==> part(given, "seed"@) == Json::Text(order->Ok_0.seed@) && order->Ok_0.input is None
            &&& order is Ok ==> order->Ok_0.outputs@.len() == list->Array_0.len() && forall|i: int|
                0 <= i < list->Array_0.len() ==> (#[trigger] list->Array_0[i])->Array_0[0] == Json::Text(
                    order->Ok_0.outputs@[i].0@,
                ) && list->Array_0[i]->Array_0[1] == Json::Unsigned(order->Ok_0.outputs@[i].1)
            &&& order is Ok && bears(given, "fee"@) && part(given, "fee"@) is Unsigned ==> part(given, "fee"@)
                == Json::Unsigned(order->Ok_0.fee)
            &&& order is Ok && !(bears(given, "fee"@) && part(given, "fee"@) is Unsigned) ==> order->Ok_0.fee == 20000
        }),
{
    let given = json(*request);
    law_orders_say_outputs_fee_and_rival(given);
    if order is Ok {
        let made = order->Ok_0.outputs@;
        let views = output_views(made);
        let list = part(given, "outputs"@)->Array_0;
        assert forall|i: int| 0 <= i < list.len() implies (#[trigger] list[i])->Array_0[0] == Json::Text(made[i].0@)
            && list[i]->Array_0[1] == Json::Unsigned(made[i].1) by {
            assert(views[i] == (made[i].0@, made[i].1));
        }
    }
}

/// A rival of a payment has the same seed and the same outputs, pays 100000 more to the
/// miners, and names the note that the payment spends; there is one exactly if it is
/// wanted.
pub proof fn law_rivals_pay_more_for_the_same_note(order: &Order, request: &Value, input_nf: &str, rival: Option<Order>)
    requires
        order.fee <= u64::MAX - 100000,
        call_ensures(Order::conflicting, (order, request, input_nf), rival),
    ensures
        rival is Some <==> bears(json(*request), "conflict"@) && part(json(*request), "conflict"@) == Json::Bool(true),
        rival is Some ==> {
            let other = rival->0;
            &&& other.seed@ == order.seed@ && output_views(other.outputs@) == output_views(order.outputs@)
            &&& other.fee == order.fee + 100000
            &&& other.input is Some && other.input->0@ == "nf:"@ + input_nf@
        },
{
    law_orders_say_outputs_fee_and_rival(json(*request));
}

/// The key under which receipts verify is the public key of the seed, in hexadecimal,
/// and the seed is thirty-two bytes in hexadecimal.
pub proof fn law_the_service_key_is_public(
    seed: &str,
    bytes: Result<[u8; 32], SeedError>,
    text: String,
)
    requires
        call_ensures(signing_seed, (seed,), bytes),
        bytes is Ok ==> call_ensures(service_key, (&bytes->Ok_0,), text),
    ensures
        bytes is Ok <==> hex_bytes(seed@) is Some && hex_bytes(seed@)->0.len() == 32,
        bytes is Ok ==> hex_bytes(seed@) == Some(bytes->Ok_0@) && text@ == hex_text(public_key_of(hex_bytes(seed@)->0)),
        bytes is Err ==> (bytes->Err_0 is Hex <==> hex_bytes(seed@) is None),
{
}

} // verus!
