//! Peers: what the operations between the service, its miners, its node and its files
//! do, stated of what goes into a call and what comes out of it.

use crate::amount::sum;
use crate::chain::{advance, ask, rpc, rpc_request, ChainError, RpcError, Stage, StageView};
use crate::config::{demo_network, min_fee, network, Config, Role};
use crate::encoding::hex_text;
use crate::event::{Event, EventView};
use crate::json::{json, json_read, json_written, jsons, Json};
use crate::laws::calls::words;
use crate::laws::counting::{law_metrics_show_height_and_counts, shows};
use crate::laws::deciding::bears;
use crate::laws::following::{
    asks_for_hash, asks_plainly, compares, fetches, is_start, law_blocks_above_the_node_are_dropped,
    law_blocks_are_complete_at_the_best_block, law_blocks_are_loaded_by_their_hash, law_errors_of_a_node_are_passed_on,
    law_loaded_blocks_are_put_on_top, law_nodes_are_asked_for_what_is_missing,
    law_the_last_block_stays_if_the_node_has_it,
};
use crate::laws::reading::{
    law_configurations_are_read_strictly, law_messages_are_read_strictly, law_numbers_are_written_in_decimal,
    law_pending_sets_are_read_strictly, law_roles_are_known_by_name, law_saved_ledgers_are_read, reads_config,
    reads_ledger, reads_pending, value_of,
};
use crate::laws::serving::{
    law_only_one_whole_frame_is_a_pending_set, law_payments_are_selected_first_come_first_served,
    law_requests_are_answered_or_refused_with_the_reason, rivals,
};
use crate::laws::telling::{
    exactly, law_acceptances_are_written_down, law_blocked_payouts_are_written_down, law_built_payments_are_told,
    law_items_tell_both_payments, law_items_tell_the_payment, law_nodes_are_asked_by_method_and_parameters,
    law_pending_sets_tell_chain_tip_and_transactions, law_reconciliations_are_written_down,
    law_recovered_payouts_are_written_down, law_requests_tell_the_chain, law_sent_payouts_are_written_down,
    law_signed_payouts_are_written_down, lemma_exactly, part, tells_built, tells_chain, tells_optional, tells_pending,
    tells_question, tells_tip,
};
use crate::ledger::{Ledger, Store};
use crate::miner::{is_server, needs_selection, offer_views, read_reply, select, still_best, Reply, ReplyError};
use crate::p2p::{
    custom, optional_pending, pending_json, pending_request, read_request, request_json, verify, CustomService, Frame,
    Pending, PendingService, Reject, VerifyError, VerifyRequest,
};
use crate::text::{decimal_text, texts};
use crate::transaction::{block_views, hex_block, raw_transaction, Block};
use crate::wallet::scan::payments_to;
use crate::worker::{inspect, item, reply, Built, InspectError};
use serde_json::Value;
use vstd::prelude::*;
use vstd::utf8::encode_utf8;
use zakura_chain::parameters::Network;

verus! {

/// A pending set is sent as the JSON that tells its chain, its tip and its transactions.
pub proof fn law_pending_sets_are_sent_whole(pending: &Pending, message: Result<Vec<u8>, String>)
    requires
        call_ensures(Pending::to_message, (pending,), message),
    ensures
        message is Ok,
        message->Ok_0@ == json_written(pending_json(pending@)),
        tells_pending(pending_json(pending@), pending@),
{
    law_pending_sets_tell_chain_tip_and_transactions(pending@);
}

/// A pending set is read from JSON with exactly its members.
pub proof fn law_pending_sets_are_read(message: &[u8], pending: Result<Pending, String>)
    requires
        call_ensures(Pending::from_message, (message,), pending),
    ensures
        pending is Ok ==> json_read(message@) is Some && reads_pending(json_read(message@)->0, Some(pending->Ok_0@)),
        pending is Err && json_read(message@) is Some ==> reads_pending(json_read(message@)->0, None)
            && pending->Err_0@ == "invalid pending set"@,
{
    law_messages_are_read_strictly(message@);
    if json_read(message@) is Some {
        law_pending_sets_are_read_strictly(json_read(message@)->0);
    }
}

/// What a peer sends as a pending set is what the other reads.
pub proof fn law_pending_sets_arrive(pending: &Pending, message: Result<Vec<u8>, String>, bytes: &[u8], again: Result<Pending, String>)
    requires
        call_ensures(Pending::to_message, (pending,), message),
        bytes@ == message->Ok_0@,
        call_ensures(Pending::from_message, (bytes,), again),
    ensures
        again is Ok && again->Ok_0@ == pending@,
{
}

/// Two pending sets are the same exactly if chain, tip and transactions are.
pub proof fn law_pending_sets_are_compared(a: &Pending, b: &Pending, same: bool)
    requires
        call_ensures(Pending::same, (a, b), same),
    ensures
        same <==> a.chain_id@ == b.chain_id@ && a.tip.height == b.tip.height && a.tip.hash@ == b.tip.hash@ && texts(
            a.transactions@,
        ) == texts(b.transactions@),
{
}

/// A request names the chain, and the other side reads it.
pub proof fn law_requests_arrive(chain_id: &str, message: Result<Vec<u8>, String>, bytes: &[u8], asked: Result<String, String>)
    requires
        call_ensures(pending_request, (chain_id,), message),
        bytes@ == message->Ok_0@,
        call_ensures(read_request, (bytes,), asked),
    ensures
        message is Ok && message->Ok_0@ == json_written(request_json(chain_id@)),
        tells_chain(request_json(chain_id@), chain_id@),
        asked is Ok && asked->Ok_0@ == chain_id@,
{
    law_requests_tell_the_chain(chain_id@);
}

/// A request is answered in one frame without flags: with the pending set if it is for
/// the chain of the service, there is one and it fits; else with the reason. A frame
/// that is no request is rejected, and so is one for which no reply fits.
pub proof fn law_requests_are_answered(
    service: &PendingService,
    max_frame: u32,
    max_message: u32,
    frame: &Frame,
    frames: Result<Vec<Frame>, Reject>,
    asked: Result<String, String>,
    payload: &[u8],
)
    requires
        call_ensures(PendingService::request_frame, (service, max_frame, max_message, frame), frames),
        payload@ == frame.payload@,
        call_ensures(read_request, (payload,), asked),
    ensures
        ({
            let room = if max_frame < 8 || max_message < 8 {
                0int
            } else if max_frame < max_message {
                max_frame - 8
            } else {
                max_message - 8
            };
            let proper = frame.message_type == 0 && frame.flags == 0;
            let named = asked is Ok && asked->Ok_0@ == service.chain_id@;
            let elsewhere = encode_utf8("{\"reason\":\"wrong_chain\"}"@);
            let early = encode_utf8("{\"reason\":\"not_ready\"}"@);
            let narrow = encode_utf8("{\"reason\":\"capacity\"}"@);
            let set = json_written(pending_json(service.feed->0@));
            let kind = frames->Ok_0@[0].message_type;
            let sent = frames->Ok_0@[0].payload@;
            &&& frames is Err && frames->Err_0 is Kind <==> !proper
            &&& frames is Err && frames->Err_0 is Payload <==> proper && asked is Err
            &&& frames is Ok ==> proper && asked is Ok && frames->Ok_0@.len() == 1 && frames->Ok_0@[0].flags == 0
                && sent.len() <= room
            &&& proper && named && service.feed is Some && set.len() <= room ==> frames is Ok && kind == 1
                && sent == set
            &&& frames is Ok && kind == 1 ==> named && service.feed is Some && sent == set
            &&& proper && asked is Ok && !named && elsewhere.len() <= room ==> frames is Ok && kind == 2 && sent
                == elsewhere
            &&& proper && named && service.feed is None && early.len() <= room ==> frames is Ok && kind == 2 && sent
                == early
            &&& proper && named && service.feed is Some && set.len() > room && narrow.len() <= room ==> frames is Ok
                && kind == 2 && sent == narrow
            &&& frames is Err && frames->Err_0 is Capacity ==> narrow.len() > room
        }),
{
    let feed = optional_pending(service.feed);
    if asked is Ok {
        law_requests_are_answered_or_refused_with_the_reason(
            feed,
            service.chain_id@,
            asked->Ok_0@,
            max_frame,
            max_message,
        );
    }
}

/// A transaction is handed to the verifier for the next block exactly if it can be read,
/// it is shielded, and there is a best block with a block to come.
pub proof fn law_shielded_transactions_are_verified(
    raw: &str,
    best_height: Option<u32>,
    request: Result<VerifyRequest, VerifyError>,
)
    requires
        call_ensures(verify, (raw, best_height), request),
    ensures
        ({
            let read = raw_transaction(raw@);
            let pools = read->0.pools;
            let shielded = pools.version == 6 && !pools.coinbase && pools.inputs == 0 && pools.outputs == 0
                && pools.sapling_outputs == 0 && pools.sapling_spends == 0 && !pools.orchard && pools.ironwood;
            &&& request is Ok ==> read == Some(request->Ok_0.tx@) && shielded && best_height is Some
                && request->Ok_0.height == best_height->0 + 1 && best_height->0 < 2147483647
            &&& request is Err && request->Err_0 is Raw <==> read is None
            &&& request is Err && request->Err_0 is NotIronwood <==> read is Some && !shielded
            &&& request is Err && request->Err_0 is NotReady <==> read is Some && shielded && best_height is None
            &&& request is Err && request->Err_0 is Height <==> read is Some && shielded && best_height is Some
                && best_height->0 >= 2147483647
        }),
{
}

/// A miner takes a pending set from a reply of one frame of that kind, without flags and
/// within the limit, if it is for its own chain, and knows whether it is a new one.
pub proof fn law_miners_take_pending_sets(
    frames: &Vec<Frame>,
    chain_id: &str,
    last: &Option<Pending>,
    reply: Result<Reply, ReplyError>,
    bytes: &[u8],
    read: Result<Pending, String>,
)
    requires
        call_ensures(read_reply, (frames, chain_id, last), reply),
        bytes@ == frames@[0].payload@,
        call_ensures(Pending::from_message, (bytes,), read),
    ensures
        ({
            let whole = frames@.len() == 1 && frames@[0].message_type == 1 && frames@[0].flags == 0
                && frames@[0].payload@.len() <= 2097152;
            let own = read is Ok && read->Ok_0.chain_id@ == chain_id@;
            &&& reply is Ok && reply->Ok_0 is Unavailable <==> !whole
            &&& reply is Ok && reply->Ok_0 is Received <==> whole && own
            &&& reply is Err && reply->Err_0 is Malformed <==> whole && read is Err
            &&& reply is Err && reply->Err_0 is WrongChain <==> whole && read is Ok && !own
            &&& reply is Ok && reply->Ok_0 is Received ==> reply->Ok_0->0@ == read->Ok_0@ && (reply->Ok_0->1 <==> last
                is None || last->0@ != read->Ok_0@)
        }),
{
    law_only_one_whole_frame_is_a_pending_set(frames@);
}

/// Payments are selected anew if the pending set has changed or the tip has; what was
/// selected is handed on only on top of the block for which it was.
pub proof fn law_selections_are_for_one_block(
    changed: bool,
    selected_for: Option<&str>,
    tip: &str,
    needed: bool,
    parent: &str,
    best: Option<&str>,
    still: bool,
)
    requires
        call_ensures(needs_selection, (changed, selected_for, tip), needed),
        call_ensures(still_best, (parent, best), still),
    ensures
        !needed <==> !changed && words(selected_for) == Some(tip@),
        still <==> words(best) == Some(parent@),
{
}

/// A peer is the server exactly if its key, in hexadecimal, is the one that is known.
pub proof fn law_the_server_is_known_by_its_key(peer: &[u8], server_id: &str, server: bool)
    requires
        call_ensures(is_server, (peer, server_id), server),
    ensures
        server <==> hex_text(peer@) == server_id@,
{
}

/// A payment is selected exactly if it was verified and has no nullifier in common with
/// an earlier one that is; the selected ones keep their order.
pub proof fn law_payments_are_selected(offers: &Vec<Option<Vec<String>>>, selected: Vec<usize>, i: int)
    requires
        call_ensures(select, (offers,), selected),
        0 <= i < offers@.len(),
    ensures
        selected@.contains(i as usize) <==> offers@[i] is Some && forall|j: int|
            0 <= j < i && #[trigger] selected@.contains(j as usize) ==> !rivals(
                texts(offers@[j]->0@),
                texts(offers@[i]->0@),
            ),
        forall|a: int, b: int| 0 <= a < b < selected@.len() ==> #[trigger] selected@[a] < #[trigger] selected@[b],
        forall|a: int| 0 <= a < selected@.len() ==> #[trigger] selected@[a] < offers@.len(),
{
    let views = offer_views(offers@);
    assert(views.len() == offers.len());
    law_payments_are_selected_first_come_first_served(views, i);
    assert forall|j: int| 0 <= j < offers@.len() implies (views[j] is Some == offers@[j] is Some) && (offers@[j] is Some
        ==> #[trigger] views[j]->0 == texts(offers@[j]->0@)) by {
    }
    assert forall|j: int| 0 <= j < i && selected@.contains(j as usize) implies offers@[j] is Some by {
        law_payments_are_selected_first_come_first_served(views, j);
    }
    if selected@.contains(i as usize) {
        assert forall|j: int| 0 <= j < i && #[trigger] selected@.contains(j as usize) implies !rivals(
            texts(offers@[j]->0@),
            texts(offers@[i]->0@),
        ) by {
            assert(views[j]->0 == texts(offers@[j]->0@) && views[i]->0 == texts(offers@[i]->0@));
        }
    } else if offers@[i] is Some && forall|j: int|
        0 <= j < i && #[trigger] selected@.contains(j as usize) ==> !rivals(
            texts(offers@[j]->0@),
            texts(offers@[i]->0@),
        ) {
        assert forall|j: int| 0 <= j < i && #[trigger] selected@.contains(j as usize) implies !rivals(
            views[j]->0,
            views[i]->0,
        ) by {
            assert(views[j]->0 == texts(offers@[j]->0@) && views[i]->0 == texts(offers@[i]->0@));
        }
    }
}

/// A request to a node tells the method and its parameters.
pub proof fn law_node_requests_tell_method_and_parameters(method: &str, params: Value, value: Value)
    requires
        call_ensures(rpc_request, (method, params), value),
    ensures
        tells_question(json(value), method@, json(params)),
{
    law_nodes_are_asked_by_method_and_parameters(method@, json(params));
}

/// The result of a response is what stands in it, unless it reports an error, which is
/// passed on after the name of the method.
pub proof fn law_node_responses_give_the_result(method: &str, response: &Value, result: Result<Value, RpcError>)
    requires
        call_ensures(rpc, (method, response), result),
    ensures
        ({
            let given = json(*response);
            let failed = bears(given, "error"@) && !(part(given, "error"@) is Null);
            let n = method@.len() as int;
            &&& result is Err && result->Err_0 is Failed <==> failed
            &&& result is Ok <==> !failed && bears(given, "result"@)
            &&& result is Ok ==> json(result->Ok_0) == part(given, "result"@)
            &&& failed ==> {
                let text = result->Err_0->Failed_0@;
                &&& text.len() >= n + 2 && text.take(n) == method@ && text[n] == ':' && text[n + 1] == ' '
                &&& encode_utf8(text.skip(n + 2)) == json_written(part(given, "error"@))
            }
        }),
{
    let given = json(*response);
    let text = match result {
        Err(RpcError::Failed(text)) => text@,
        _ => ""@,
    };
    law_errors_of_a_node_are_passed_on(given, text, method@, part(given, "error"@));
}

/// A node is asked for what is missing.
pub proof fn law_nodes_are_asked(blocks: &Vec<Block>, stage: &Stage, asked: Option<(&'static str, Value)>)
    requires
        stage.fits(block_views(blocks@)),
        call_ensures(ask, (blocks, stage), asked),
    ensures
        ({
            let question = match asked {
                Some((method, params)) => Some((method@, json(params))),
                None => None,
            };
            let n = blocks@.len() as int;
            &&& stage is Height ==> asks_plainly(question, "getblockcount"@)
            &&& stage is Trim ==> asks_for_hash(question, n - 1)
            &&& stage is Fetch ==> asks_for_hash(question, n)
            &&& stage is Load ==> question is Some && (question->0).0 == "getblock"@ && (question->0).1 == Json::Array(
                seq![json(stage->hash), Json::Unsigned(0)],
            )
            &&& stage is Best ==> asks_plainly(question, "getbestblockhash"@)
            &&& asked is None <==> stage is Done
        }),
{
    assert(block_views(blocks@).len() == blocks.len());
    law_nodes_are_asked_for_what_is_missing(block_views(blocks@), *stage);
    if stage is Load {
        let question = crate::chain::question(block_views(blocks@), *stage);
        assert((question->0).1->Array_0 =~= seq![json(stage->hash), Json::Unsigned(0)]);
    }
}

/// What a node answers is taken in: blocks that it does not have are dropped, the
/// missing ones are put on top, and at the end the last one is its best. An answer that
/// is of no use changes nothing.
pub proof fn law_answers_are_taken_in(blocks: &mut Vec<Block>, stage: Stage, reply: &Value, next: Result<Stage, ChainError>)
    requires
        stage.fits(block_views(old(blocks)@)),
        call_ensures(advance, (blocks, stage, reply), next),
    ensures
        ({
            let before = block_views(old(blocks)@);
            let after = block_views(final(blocks)@);
            let said = json(*reply);
            let stage_after = crate::chain::stage_view(next->Ok_0);
            &&& next is Err ==> after == before
            &&& stage is Height ==> (next is Ok <==> said is Unsigned)
            &&& stage is Height && next is Ok ==> is_start(after, before, said->Unsigned_0) && compares(
                after,
                stage_after,
                said->Unsigned_0,
            )
            &&& stage is Trim ==> next is Ok && if said == Json::Text(before[before.len() - 1].hash) {
                after == before && fetches(after, stage_after, stage->Trim_height)
            } else {
                is_start(after, before.take(before.len() - 1), stage->Trim_height) && compares(
                    after,
                    stage_after,
                    stage->Trim_height,
                )
            }
            &&& stage is Fetch ==> next is Ok && after == before && stage_after == (StageView::Load {
                height: stage->Fetch_height,
                hash: said,
            })
            &&& stage is Load ==> (next is Ok <==> said is Text && hex_block(said->Text_0) is Some)
            &&& stage is Load && next is Ok ==> after.len() == before.len() + 1
                && after.take(before.len() as int) == before
                && hex_block(said->Text_0) == Some(after[before.len() as int]) && fetches(
                after,
                stage_after,
                stage->Load_height,
            )
            &&& stage is Best ==> (next is Ok <==> said == Json::Text(before[before.len() - 1].hash))
            &&& stage is Best && next is Ok ==> after == before && stage_after is Done
        }),
{
    let before = block_views(old(blocks)@);
    let after = block_views(final(blocks)@);
    let said = json(*reply);
    match stage {
        Stage::Height => law_blocks_above_the_node_are_dropped(before, said),
        Stage::Trim { height } => law_the_last_block_stays_if_the_node_has_it(before, height, said),
        Stage::Fetch { height } => law_blocks_are_loaded_by_their_hash(before, height, said),
        Stage::Load { height, hash } => {
            law_loaded_blocks_are_put_on_top(before, stage, said);
            if next is Ok {
                assert(after.take(before.len() as int) =~= before);
            }
        },
        Stage::Best { height } => law_blocks_are_complete_at_the_best_block(before, height, said),
        Stage::Done { height } => {},
    }
}

/// A configuration is read from JSON with exactly its members.
pub proof fn law_configurations_are_read(bytes: &[u8], config: Result<Config, String>)
    requires
        call_ensures(Config::read, (bytes,), config),
    ensures
        config is Ok ==> json_read(bytes@) is Some && reads_config(json_read(bytes@)->0, Some(config->Ok_0@)),
        config is Err && json_read(bytes@) is Some ==> reads_config(json_read(bytes@)->0, None) && config->Err_0@
            == "invalid configuration"@,
{
    if json_read(bytes@) is Some {
        law_configurations_are_read_strictly(json_read(bytes@)->0);
    }
}

/// A role is known by its name, and by no other.
pub proof fn law_roles_are_known(config: &Config, role: Option<Role>)
    requires
        call_ensures(Config::role, (config,), role),
    ensures
        role == Some(Role::Server) <==> config.role@ == "server"@,
        role == Some(Role::Miner) <==> config.role@ == "miner"@,
        role == Some(Role::Plain) <==> config.role@ == "plain"@,
{
    law_roles_are_known_by_name(config.role@);
    reveal_strlit("server");
    reveal_strlit("miner");
    reveal_strlit("plain");
    assert("server"@.len() == 6 && "miner"@.len() == 5 && "plain"@.len() == 5);
    assert("miner"@[0] == 'm' && "plain"@[0] == 'p');
}

/// A saved ledger is read member by member.
pub proof fn law_saved_ledgers_are_read_member_by_member(saved: &str, ledger: Result<Ledger, String>)
    requires
        call_ensures(Ledger::from_text, (saved,), ledger),
    ensures
        ({
            let value = json_read(encode_utf8(saved@));
            &&& ledger is Ok ==> value is Some && reads_ledger(value->0, Some(ledger->Ok_0@))
            &&& ledger is Err && value is Some ==> reads_ledger(value->0, None)
        }),
{
    let value = json_read(encode_utf8(saved@));
    if value is Some {
        law_saved_ledgers_are_read(value->0);
    }
}

/// The metrics show whether the service is ready, the height of its tip, and how many
/// payments and payouts have each status.
pub proof fn law_metrics_show_the_service(store: &Store, text: String)
    requires
        call_ensures(Store::metrics, (store,), text),
    ensures
        shows(text@, store@),
{
    law_metrics_show_height_and_counts(store@);
}

/// A number is written with the decimal digits that stand for it.
pub proof fn law_numbers_are_written(n: u64, text: String)
    requires
        call_ensures(decimal_text, (n,), text),
    ensures
        value_of(text@) == n,
        forall|i: int| 0 <= i < text@.len() ==> '0' <= #[trigger] text@[i] <= '9',
        n > 0 ==> text@[0] != '0',
        n == 0 ==> text@.len() == 1,
{
    law_numbers_are_written_in_decimal(n as nat);
}

/// Every event has a kind of its own.
pub proof fn law_events_have_a_kind(event: &Event, kind: &'static str)
    requires
        call_ensures(Event::kind, (event,), kind),
    ensures
        event is Accepted ==> kind@ == "accepted"@,
        event is Reconciled ==> kind@ == "chain_reconciled"@,
        event is PayoutSigned ==> kind@ == "payout_signed"@,
        event is PayoutBlocked ==> kind@ == "payout_blocked"@,
        event is PayoutRecovered ==> kind@ == "payout_broadcast_recovered"@,
        event is PayoutBroadcast ==> kind@ == "payout_broadcast"@,
{
}

/// What is written down of an event tells what it is about.
pub proof fn law_events_are_written_down(event: &Event, value: Value)
    requires
        call_ensures(Event::data, (event,), value),
    ensures
        ({
            let told = json(value);
            match event@ {
                EventView::Accepted { txid, fee } => exactly(
                    told,
                    seq![("txid"@, Json::Text(txid)), ("fee_zat"@, Json::Unsigned(fee))],
                ),
                EventView::Reconciled { tip } => exactly(told, seq![("tip"@, part(told, "tip"@))]) && tells_tip(
                    part(told, "tip"@),
                    tip,
                ),
                EventView::PayoutSigned { block_hash, txid, amount } => exactly(
                    told,
                    seq![
                        ("block_hash"@, Json::Text(block_hash)),
                        ("txid"@, Json::Text(txid)),
                        ("amount_zat"@, Json::Unsigned(amount)),
                    ],
                ),
                EventView::PayoutBlocked { block_hash } => exactly(told, seq![("block_hash"@, Json::Text(block_hash))]),
                EventView::PayoutRecovered { block_hash } => exactly(told, seq![("block_hash"@, Json::Text(block_hash))]),
                EventView::PayoutBroadcast { block_hash, sent } => exactly(
                    told,
                    seq![("block_hash"@, Json::Text(block_hash)), ("txid"@, part(told, "txid"@))],
                ) && tells_optional(part(told, "txid"@), sent),
            }
        }),
{
    match event@ {
        EventView::Accepted { txid, fee } => law_acceptances_are_written_down(txid, fee),
        EventView::Reconciled { tip } => law_reconciliations_are_written_down(tip),
        EventView::PayoutSigned { block_hash, txid, amount } => law_signed_payouts_are_written_down(
            block_hash,
            txid,
            amount,
        ),
        EventView::PayoutBlocked { block_hash } => law_blocked_payouts_are_written_down(block_hash),
        EventView::PayoutRecovered { block_hash } => law_recovered_payouts_are_written_down(block_hash),
        EventView::PayoutBroadcast { block_hash, sent } => law_sent_payouts_are_written_down(block_hash, sent),
    }
}

/// What is written back for a request is the payment, and beside it its rival, if there
/// is one.
pub proof fn law_built_payments_are_written_back(payment: &Built, rival: &Option<Built>, value: Value)
    requires
        call_ensures(item, (payment, rival), value),
    ensures
        ({
            let told = json(value);
            let first = part(told, "payment"@);
            let second = part(told, "conflict"@);
            &&& tells_built(first, payment.raw_tx@, payment.txid@, payment.input_txid@, payment.input_nf@)
            &&& rival is None ==> exactly(told, seq![("payment"@, first)])
            &&& rival is Some ==> exactly(told, seq![("payment"@, first), ("conflict"@, second)]) && tells_built(
                second,
                rival->0.raw_tx@,
                rival->0.txid@,
                rival->0.input_txid@,
                rival->0.input_nf@,
            )
        }),
{
    law_built_payments_are_told(payment.raw_tx@, payment.txid@, payment.input_txid@, payment.input_nf@);
    let first = crate::worker::built_json(payment.raw_tx@, payment.txid@, payment.input_txid@, payment.input_nf@);
    match *rival {
        Some(c) => {
            law_built_payments_are_told(c.raw_tx@, c.txid@, c.input_txid@, c.input_nf@);
            let second = crate::worker::built_json(c.raw_tx@, c.txid@, c.input_txid@, c.input_nf@);
            law_items_tell_both_payments(first, second);
            let members = seq![("payment"@, first), ("conflict"@, second)];
            assert(members[0].0 == "payment"@ && members[1].0 == "conflict"@);
        },
        None => {
            law_items_tell_the_payment(first);
            let members = seq![("payment"@, first)];
            assert(members[0].0 == "payment"@);
        },
    }
}

/// The network and the least fee that are used unless others are configured.
pub proof fn law_defaults_are_fixed(net: Network, fee: u64)
    requires
        call_ensures(network, (), net),
        call_ensures(min_fee, (), fee),
    ensures
        net == demo_network(),
        fee == 10000,
{
}

/// A transaction that is inspected is told with its identifier and with what it pays to
/// the seed in the first block: the sum of every note that the key of the seed reads.
pub proof fn law_transactions_are_inspected(raw: &str, seed: &str, net: &Network, value: Result<Value, InspectError>)
    requires
        call_ensures(inspect, (raw, seed, net), value),
    ensures
        ({
            let tx = raw_transaction(raw@)->0;
            let paid = payments_to(tx.bytes, seed@, *net, 1);
            &&& value is Err && value->Err_0 is Raw <==> raw_transaction(raw@) is None
            &&& value is Ok ==> paid is Some && sum(paid->0) <= u64::MAX && exactly(
                json(value->Ok_0),
                seq![("txid"@, Json::Text(tx.txid)), ("received_zat"@, Json::Unsigned(sum(paid->0) as u64))],
            )
            &&& value is Err && value->Err_0 is Received ==> paid is None || sum(paid->0) > u64::MAX
        }),
{
    if value is Ok {
        let tx = raw_transaction(raw@)->0;
        let paid = payments_to(tx.bytes, seed@, *net, 1)->0;
        reveal_strlit("txid");
        reveal_strlit("received_zat");
        assert("txid"@.len() == 4);
        assert("received_zat"@.len() == 12);
        let members = seq![("txid"@, Json::Text(tx.txid)), ("received_zat"@, Json::Unsigned(sum(paid) as u64))];
        lemma_exactly(members);
    }
}

/// A line of requests is answered with all items in order, or with the error.
pub proof fn law_lines_are_answered(items: Result<Vec<Value>, String>, value: Value)
    requires
        call_ensures(reply, (items,), value),
    ensures
        items is Err ==> exactly(json(value), seq![("error"@, Json::Text(items->Err_0@))]),
        items is Ok ==> exactly(json(value), seq![("result"@, part(json(value), "result"@))]),
        items is Ok ==> {
            let told = part(json(value), "result"@);
            &&& told is Array && told->Array_0.len() == items->Ok_0@.len()
            &&& forall|i: int|
                0 <= i < items->Ok_0@.len() ==> #[trigger] told->Array_0[i] == json(items->Ok_0@[i])
        },
{
    match items {
        Ok(items) => {
            let members = seq![("result"@, Json::Array(jsons(items@)))];
            lemma_exactly(members);
            assert(members[0].0 == "result"@);
        },
        Err(words) => {
            let members = seq![("error"@, Json::Text(words@))];
            lemma_exactly(members);
        },
    }
}

/// The service of the server is offered, and that of a miner is looked for, under the
/// same name and with the same kinds of messages and limits.
pub proof fn law_servers_offer_what_miners_seek(
    feed: Option<Pending>,
    chain_id: String,
    server: bool,
    made: CustomService,
    name: &'static str,
    kinds: Vec<u16>,
    limits: Vec<(u16, usize)>,
)
    requires
        call_ensures(custom, (feed, chain_id, server), made),
        call_ensures(PendingService::name, (&made.service,), name),
        call_ensures(PendingService::message_types, (&made.service,), kinds),
        call_ensures(PendingService::message_payload_limits, (&made.service,), limits),
    ensures
        made.service.feed == feed && made.service.chain_id == chain_id,
        server ==> texts(made.provides@) == seq![name@] && made.seeks@.len() == 0,
        !server ==> texts(made.seeks@) == seq![name@] && made.provides@.len() == 0,
        name@ == "zakura.preconf.v1"@,
        kinds@ == seq![0u16, 1u16, 2u16],
        limits@ == seq![(0u16, 128usize), (1u16, 2097152usize), (2u16, 128usize)],
{
    assert(texts(made.provides@).len() == made.provides@.len() && texts(made.seeks@).len() == made.seeks@.len());
}

} // verus!
