//! Calls: what the operations of the service do, stated of what goes into a call and
//! what comes out of it.

use crate::amount::sum;
use crate::config::{demo_network, Config};
use crate::encoding::hex_bytes;
use crate::event::{Event, EventView};
use crate::json::{is_plain, json, json_read, json_written, Json};
use crate::laws::deciding::{
    bears, first_in_the_way, first_named, known, law_accepted_payments_are_recorded_as_pending,
    law_calls_have_version_identifier_and_parameters, law_payments_are_told_by_their_identifier,
    law_submitted_payments_are_answered_verified_or_refused, law_the_service_is_asked_without_parameters,
    law_unknown_methods_are_refused, law_verified_payments_are_refused_only_for_a_reason, leaves_room, way_is_free,
};
use crate::laws::picks;
use crate::laws::serving::{law_the_pending_set_lists_every_pending_payment, waits};
use crate::laws::settling::{
    is_brought_up_to_date, is_refused_rightly, law_reconciliation_follows_the_chain,
    law_reconciliation_is_refused_for_a_reason, law_the_node_is_asked_about_open_payments, mined, overtaken,
};
use crate::laws::stopping::{
    is_stopped_by_a_block, is_stopped_by_a_payment, law_an_unreadable_payment_stops_the_reconciliation,
    law_the_tip_is_the_last_block, law_unassignable_payouts_stop_the_reconciliation,
};
use crate::laws::telling::{
    exactly, law_answers_tell_the_state_of_a_payment, law_errors_tell_code_reason_and_message, law_receipts_are_signed,
    law_results_tell_the_call, law_saved_ledgers_tell_everything, law_the_service_tells_who_it_is,
    law_the_state_tells_the_ledger, part, tells_ledger, tells_payment, tells_refusal, tells_service, tells_signed,
    tells_state, tells_success,
};
use crate::ledger::{optional_tip, Ledger, LedgerView, Record, Store, Tip};
use crate::p2p::Pending;
use crate::receipt::SeedError;
use crate::reconcile::assign::Setting;
use crate::reconcile::{chain_tip, ReconcileError};
use crate::server::{
    dispatch, error, pending, read_call, respond, result, Accepted, Answer, ApiError, Call, Service, Submission,
};
use crate::snapshot::{ledger_json, ledger_read};
use crate::text::texts;
use crate::transaction::{block_views, raw_transaction, Block};
use crate::wallet::keys::seed_key;
use crate::wallet::scan::payments_to;
use serde_json::Value;
use vstd::prelude::*;
use vstd::utf8::encode_utf8;
use zakura_chain::parameters::Network;

verus! {

/// The characters of an optional text.
pub open spec fn words(text: Option<&str>) -> Option<Seq<char>> {
    match text {
        Some(t) => Some(t@),
        None => None,
    }
}

/// Collecting the pending set of a ledger gives none before the ledger has a tip; then
/// it gives that tip, the chain, and the transaction of every payment that is pending,
/// each once, in the order of the ledger, and no other.
pub proof fn law_pending_lists_every_pending_payment(chain_id: &str, ledger: &Ledger, found: Option<Pending>)
    requires
        call_ensures(pending, (chain_id, ledger), found),
    ensures
        found is Some <==> ledger.tip is Some,
        found is Some ==> found->0.chain_id@ == chain_id@ && found->0.tip@ == ledger.tip->0@ && exists|places: Seq<int>|
            #[trigger] picks(places, ledger@.records, waits()) && texts(found->0.transactions@) == Seq::new(
                places.len(),
                |i: int| ledger.records@[places[i]].raw_tx@,
            ),
{
    law_the_pending_set_lists_every_pending_payment(chain_id@, ledger@);
    if found is Some {
        let listed = texts(found->0.transactions@);
        let places = choose|places: Seq<int>| #[trigger]
            picks(places, ledger@.records, waits()) && listed == Seq::new(
                places.len(),
                |i: int| ledger@.records[places[i]].raw_tx,
            );
        assert(listed =~= Seq::new(places.len(), |i: int| ledger.records@[places[i]].raw_tx@)) by {
            assert forall|i: int| 0 <= i < places.len() implies #[trigger] listed[i] == ledger.records@[places[i]].raw_tx@ by {
                assert(ledger@.records[places[i]] == ledger.records@[places[i]]@);
            }
        }
    }
}

/// The answer about a payment tells what its record holds, its status among it.
pub proof fn law_result_tells_the_status(record: &Record, tip: &Option<Tip>, value: Value)
    requires
        call_ensures(result, (record, tip), value),
    ensures
        tells_payment(json(value), record@, optional_tip(*tip)),
        bears(json(value), "status"@) && part(json(value), "status"@) == Json::Text(record.status@),
        bears(json(value), "txid"@) && part(json(value), "txid"@) == Json::Text(record.txid@),
{
    law_answers_tell_the_state_of_a_payment(record@, optional_tip(*tip));
    let members = seq![
        ("txid"@, Json::Text(record@.txid)),
        ("status"@, Json::Text(record@.status)),
        ("receipt"@, record@.receipt),
        ("inclusion"@, part(json(value), "inclusion"@)),
        ("failure_reason"@, part(json(value), "failure_reason"@)),
    ];
    assert(exactly(json(value), members));
    assert(members[0].0 == "txid"@ && members[1].0 == "status"@);
}

/// A response to a call tells its result, or its refusal.
pub proof fn law_respond_tells_result_or_refusal(id: Value, outcome: Result<Value, ApiError>, value: Value)
    requires
        call_ensures(respond, (id, outcome), value),
    ensures
        match outcome {
            Ok(result) => tells_success(json(value), json(id), json(result)),
            Err(e) => tells_refusal(json(value), json(id), e.0 as int, e.1@, e.2@),
        },
{
    match outcome {
        Ok(result) => law_results_tell_the_call(json(id), json(result)),
        Err(e) => law_errors_tell_code_reason_and_message(json(id), e.0 as int, e.1@, e.2@),
    }
}

/// A response to a refused call tells its code, its reason and its message.
pub proof fn law_error_tells_code_reason_and_message(id: Value, code: i32, reason: &str, message: &str, value: Value)
    requires
        call_ensures(error, (id, code, reason, message), value),
    ensures
        tells_refusal(json(value), json(id), code as int, reason@, message@),
{
    law_errors_tell_code_reason_and_message(json(id), code as int, reason@, message@);
}

/// Whether a body is a call: JSON of version 2.0 with an identifier and parameters by
/// name.
pub open spec fn is_proper(request: Json) -> bool {
    &&& bears(request, "jsonrpc"@) && part(request, "jsonrpc"@) == Json::Text("2.0"@)
    &&& bears(request, "id"@)
    &&& bears(request, "params"@) && part(request, "params"@) is Object
}

/// A body is read as a call exactly if it is one, with its identifier, its method and
/// its parameters; else it is answered at once with the reason.
pub proof fn law_calls_are_read_or_answered(body: &[u8], call: Result<Call, Value>)
    requires
        call_ensures(read_call, (body,), call),
    ensures
        ({
            let request = json_read(body@)->0;
            &&& json_read(body@) is None ==> call is Err && tells_refusal(
                json(call->Err_0),
                Json::Null,
                -32700,
                "parse_error"@,
                "invalid JSON"@,
            )
            &&& json_read(body@) is Some ==> (call is Ok <==> is_proper(request))
            &&& json_read(body@) is Some && call is Ok ==> json(call->Ok_0.id) == part(request, "id"@) && json(
                call->Ok_0.params,
            ) == part(request, "params"@)
            &&& json_read(body@) is Some && call is Ok && bears(request, "method"@) && part(request, "method"@) is Text
                ==> call->Ok_0.method@ == part(request, "method"@)->Text_0
            &&& json_read(body@) is Some && call is Ok && !(bears(request, "method"@) && part(
                request,
                "method"@,
            ) is Text) ==> call->Ok_0.method@ == ""@
            &&& json_read(body@) is Some && call is Err ==> tells_refusal(
                json(call->Err_0),
                if bears(request, "id"@) {
                    part(request, "id"@)
                } else {
                    Json::Null
                },
                -32600,
                "invalid_request"@,
                "JSON-RPC 2.0 request with named params and id required"@,
            )
        }),
{
    law_errors_tell_code_reason_and_message(Json::Null, -32700, "parse_error"@, "invalid JSON"@);
    let request = json_read(body@)->0;
    law_calls_have_version_identifier_and_parameters(request);
    law_errors_tell_code_reason_and_message(
        crate::server::call_id(request),
        -32600,
        "invalid_request"@,
        "JSON-RPC 2.0 request with named params and id required"@,
    );
}

/// Whether a call is refused with a code, a reason and a message.
pub open spec fn refuses<T>(outcome: Result<T, ApiError>, code: int, reason: Seq<char>, message: Seq<char>) -> bool {
    outcome is Err && (outcome->Err_0).0 == code && (outcome->Err_0).1@ == reason && (outcome->Err_0).2@ == message
}

/// A call of an unknown method is refused; the service tells of itself to whoever asks
/// without parameters.
pub proof fn law_calls_are_for_three_methods(
    service: &Service,
    store: &Store,
    method: &str,
    params: &Value,
    best_hash: Option<&str>,
    outcome: Result<Answer, ApiError>,
)
    requires
        call_ensures(dispatch, (service, store, method, params, best_hash), outcome),
    ensures
        method@ != "preconf_info"@ && method@ != "preconf_get"@ && method@ != "preconf_submit"@ ==> refuses(
            outcome,
            -32601,
            "method_not_found"@,
            "unknown method"@,
        ),
        method@ == "preconf_info"@ ==> {
            let given = json(*params);
            let empty = given is Object && given->Object_0.len() == 0;
            &&& !empty ==> refuses(outcome, -32602, "invalid_params"@, "no parameters expected"@)
            &&& empty && seed_key(service.seed@) is Some ==> outcome is Ok && outcome->Ok_0 is Done && tells_service(
                json(outcome->Ok_0->Done_0),
                service@,
                store@,
            )
            &&& empty && seed_key(service.seed@) is None ==> outcome is Err && (outcome->Err_0).0 == -32603 && (
            outcome->Err_0).1@ == "internal"@
        },
{
    law_unknown_methods_are_refused(service@, store@, method@, json(*params), words(best_hash));
    law_the_service_is_asked_without_parameters(service@, store@, json(*params), words(best_hash));
    if seed_key(service.seed@) is Some {
        law_the_service_tells_who_it_is(service@, store@);
    }
}

/// A merchant who asks for a payment by its identifier is told of the first record with
/// it, and that there is none where there is none.
pub proof fn law_payments_are_told_to_whoever_asks(
    service: &Service,
    store: &Store,
    method: &str,
    params: &Value,
    best_hash: Option<&str>,
    outcome: Result<Answer, ApiError>,
    i: int,
)
    requires
        method@ == "preconf_get"@,
        call_ensures(dispatch, (service, store, method, params, best_hash), outcome),
    ensures
        ({
            let given = json(*params);
            let records = store@.ledger.records;
            let asked = bears(given, "txid"@) && given->Object_0.len() == 1 && part(given, "txid"@) is Text;
            let txid = part(given, "txid"@)->Text_0;
            &&& !asked ==> refuses(outcome, -32602, "invalid_params"@, "txid required"@)
            &&& asked && first_named(records, i, txid) ==> outcome is Ok && outcome->Ok_0 is Done && tells_payment(
                json(outcome->Ok_0->Done_0),
                records[i],
                store@.ledger.tip,
            )
            &&& asked && !known(records, txid) ==> refuses(outcome, -32006, "not_found"@, "unknown txid"@)
        }),
{
    law_payments_are_told_by_their_identifier(service@, store@, json(*params), words(best_hash), i);
    if first_named(store@.ledger.records, i, part(json(*params), "txid"@)->Text_0) {
        law_answers_tell_the_state_of_a_payment(store@.ledger.records[i], store@.ledger.tip);
    }
}

/// A merchant who submits a payment is told of its record, if the ledger knows it. Any
/// other payment is refused while the ledger is not that of the best block of the node,
/// and while a pending payment stands in its way; else it goes to a node, as it was
/// submitted, for the tip of the ledger.
pub proof fn law_submitted_payments_go_to_a_node(
    service: &Service,
    store: &Store,
    method: &str,
    params: &Value,
    best_hash: Option<&str>,
    outcome: Result<Answer, ApiError>,
    i: int,
)
    requires
        method@ == "preconf_submit"@,
        call_ensures(dispatch, (service, store, method, params, best_hash), outcome),
    ensures
        ({
            let given = json(*params);
            let records = store@.ledger.records;
            let tip = store@.ledger.tip;
            let whole = bears(given, "raw_tx"@) && given->Object_0.len() == 1 && part(given, "raw_tx"@) is Text;
            let raw = part(given, "raw_tx"@)->Text_0;
            let read = raw_transaction(raw);
            let tx = read->0;
            let current = store.ready && match (tip, best_hash) {
                (Some(tip), Some(best)) => tip.hash == best@,
                (None, None) => true,
                _ => false,
            };
            let fresh = whole && read is Some && !known(records, tx.txid);
            let sent = outcome is Ok && outcome->Ok_0 is Verify;
            &&& !whole ==> refuses(outcome, -32602, "invalid_params"@, "raw_tx required"@)
            &&& whole && read is None ==> outcome is Err && (outcome->Err_0).0 == -32002 && (outcome->Err_0).1@
                == "invalid_tx"@
            &&& whole && read is Some && first_named(records, i, tx.txid) ==> outcome is Ok && outcome->Ok_0 is Done
                && tells_payment(json(outcome->Ok_0->Done_0), records[i], tip)
            &&& fresh && !current ==> refuses(outcome, -32001, "not_ready"@, "chain reconciliation pending"@)
            &&& fresh && current && tip is None ==> refuses(outcome, -32001, "not_ready"@, "chain not ready"@)
            &&& sent <==> fresh && current && tip is Some && way_is_free(records, tx)
            &&& sent ==> {
                let submission = outcome->Ok_0->Verify_0;
                submission.raw@ == raw && submission.tx@ == tx && submission.tip@ == tip->0
            }
            &&& fresh && current && tip is Some && first_in_the_way(records, i, tx) ==> if raw_transaction(
                records[i].raw_tx,
            ) is Some {
                refuses(outcome, -32004, "conflict"@, "spend already reserved"@)
            } else {
                outcome is Err && (outcome->Err_0).0 == -32603 && (outcome->Err_0).1@ == "internal"@
            }
        }),
{
    let records = store@.ledger.records;
    law_submitted_payments_are_answered_verified_or_refused(service@, store@, json(*params), words(best_hash), i);
    let txid = raw_transaction(part(json(*params), "raw_tx"@)->Text_0)->0.txid;
    if first_named(records, i, txid) {
        law_answers_tell_the_state_of_a_payment(records[i], store@.ledger.tip);
    }
}

/// A payment that a node has judged is accepted exactly if the node found it valid, the
/// best block is the one for which it was judged, it pays at least the least fee to the
/// service, and the pending set still fits into a message. It is then recorded as
/// pending behind the others, with what it pays and a receipt for it, and nothing else
/// in the ledger changes. Where it is refused, nothing changes at all.
pub proof fn law_accepted_payments_are_recorded(
    store: &mut Store,
    service: &Service,
    submission: &Submission,
    verified: Result<(), String>,
    best_hash: Option<&str>,
    outcome: Result<Accepted, ApiError>,
)
    requires
        submission.tip.height < u32::MAX,
        call_ensures(Store::accept, (store, service, submission, verified, best_hash), outcome),
    ensures
        ({
            let before = old(store)@;
            let after = final(store)@;
            let next = (submission.tip.height + 1) as u32;
            let paid = payments_to(submission.tx@.bytes, service.seed@, service.net, next);
            let fee = sum(paid->0);
            let current = best_hash is Some && best_hash->0@ == submission.tip.hash@;
            let record = after.ledger.records[before.ledger.records.len() as int];
            &&& outcome is Ok ==> {
                &&& verified is Ok && current && paid is Some && service.min_fee_zat <= fee <= u64::MAX
                &&& before.ledger.tip is Some && leaves_room(service.chain_id@, before.ledger, submission.raw@)
                &&& after.ready == before.ready && after.recovering == before.recovering
                &&& after.ledger.tip == before.ledger.tip && after.ledger.payouts == before.ledger.payouts
                &&& after.ledger.records == before.ledger.records.push(record)
                &&& record.txid == submission.tx.txid@ && record.raw_tx == submission.raw@ && record.fee == fee
                &&& record.status == "pending"@ && record.inclusion is None && record.failure_reason is None
                &&& tells_signed(record.receipt, service.key@, service.chain_id@, submission.tx.txid@, fee as u64)
                &&& outcome->Ok_0.event@ == (EventView::Accepted { txid: submission.tx.txid@, fee: fee as u64 })
                &&& tells_payment(json(outcome->Ok_0.response), record, Some(submission.tip@))
            }
            &&& outcome is Err ==> after == before
            &&& verified is Err ==> refuses(outcome, -32002, "invalid_tx"@, verified->Err_0@)
            &&& verified is Ok && !current ==> refuses(outcome, -32001, "not_ready"@, "tip changed during validation"@)
            &&& verified is Ok && current && (paid is None || fee > u64::MAX) ==> outcome is Err && (outcome->Err_0).0
                == -32603 && (outcome->Err_0).1@ == "internal"@
            &&& verified is Ok && current && paid is Some && fee < service.min_fee_zat ==> refuses(
                outcome,
                -32003,
                "fee_too_low"@,
                "insufficient service fee"@,
            )
            &&& verified is Ok && current && paid is Some && service.min_fee_zat <= fee <= u64::MAX
                && before.ledger.tip is None ==> refuses(outcome, -32603, "internal"@, "missing tip"@)
            &&& outcome is Err && verified is Ok && current && paid is Some && service.min_fee_zat <= fee <= u64::MAX
                && before.ledger.tip is Some ==> refuses(
                outcome,
                -32005,
                "pending_full"@,
                "pending set at capacity"@,
            )
        }),
{
    let tx = submission.tx@;
    let tip = submission.tip@;
    law_verified_payments_are_refused_only_for_a_reason(
        service@,
        old(store)@,
        submission.raw@,
        tx,
        tip,
        verified is Ok,
        words(best_hash),
    );
    if outcome is Ok {
        let next = (submission.tip.height + 1) as u32;
        let fee = sum(payments_to(tx.bytes, service.seed@, service.net, next)->0) as u64;
        law_accepted_payments_are_recorded_as_pending(service@, submission.raw@, tx.txid, fee);
        law_receipts_are_signed(service.key@, service.chain_id@, tx.txid, fee);
        let record = crate::server::accepted_record(service@, submission.raw@, tx.txid, fee);
        law_answers_tell_the_state_of_a_payment(record, Some(tip));
        let before = old(store)@.ledger.records;
        assert(before.push(record)[before.len() as int] == record);
    }
}

/// A payment that was accepted and is then withdrawn leaves the ledger as it was, and
/// the service not ready.
pub proof fn law_withdrawn_payments_were_never_there(
    store: &mut Store,
    again: &mut Store,
    service: &Service,
    submission: &Submission,
    verified: Result<(), String>,
    best_hash: Option<&str>,
    outcome: Result<Accepted, ApiError>,
)
    requires
        submission.tip.height < u32::MAX,
        call_ensures(Store::accept, (store, service, submission, verified, best_hash), outcome),
        outcome is Ok,
        old(again)@ == final(store)@,
        call_ensures(Store::withdraw, (again,), ()),
    ensures
        final(again)@.ledger == old(store)@.ledger,
        !final(again)@.ready,
        final(again)@.recovering == old(store)@.recovering,
{
    let before = old(store)@.ledger.records;
    let after = final(store)@.ledger.records;
    assert(after.drop_last() =~= before);
    assert(final(again)@.ledger =~= old(store)@.ledger);
}

/// Withdrawing takes back the last payment, and no other.
pub proof fn law_the_last_payment_is_withdrawn(store: &mut Store)
    requires
        call_ensures(Store::withdraw, (store,), ()),
    ensures
        ({
            let before = old(store)@.ledger;
            let after = final(store)@.ledger;
            &&& !final(store)@.ready && final(store)@.recovering == old(store)@.recovering
            &&& after.tip == before.tip && after.payouts == before.payouts
            &&& before.records.len() > 0 ==> after.records.len() == before.records.len() - 1
            &&& before.records.len() == 0 ==> after.records.len() == 0
            &&& forall|i: int| 0 <= i < after.records.len() ==> #[trigger] after.records[i] == before.records[i]
        }),
{
}

/// A service that resumes is ready and has recovered, with the ledger as it was.
pub proof fn law_resuming_changes_nothing_in_the_ledger(store: &mut Store)
    requires
        call_ensures(Store::resume, (store,), ()),
    ensures
        final(store)@.ready && !final(store)@.recovering,
        final(store)@.ledger == old(store)@.ledger,
{
}

/// A service is set up with the chain, the seed and the least fee of the configuration,
/// if the seed is thirty-two bytes in hexadecimal, and else not.
pub proof fn law_services_are_set_up_as_configured(config: &Config, service: Result<Service, SeedError>)
    requires
        call_ensures(Service::new, (config,), service),
    ensures
        service is Ok <==> hex_bytes(config.seed@) is Some && hex_bytes(config.seed@)->0.len() == 32,
        service is Ok ==> {
            let made = service->Ok_0;
            &&& made.chain_id@ == config.chain_id@ && made.seed@ == config.seed@
            &&& made.min_fee_zat == config.min_fee_zat && made.net == demo_network()
            &&& hex_bytes(config.seed@) == Some(made.key@)
        },
        service is Err ==> (service->Err_0 is Hex <==> hex_bytes(config.seed@) is None),
{
}

/// The ledger is reconciled when the node has a best block and the ledger is not up to
/// date with it, or payouts are open, unless the node is still behind a ledger that has
/// not been followed up since the start.
pub proof fn law_reconciliation_is_due(store: &Store, best_hash: Option<&str>, best_height: Option<u32>, must: bool)
    requires
        call_ensures(Store::must_reconcile, (store, best_hash, best_height), must),
    ensures
        ({
            let tip = store@.ledger.tip;
            let behind = store.recovering && tip is Some && (best_height is None || best_height->0 < tip->0.height);
            let opened = exists|p: int|
                0 <= p < store.ledger.payouts@.len() && ((#[trigger] store.ledger.payouts@[p]).status@ == "waiting"@
                    || store.ledger.payouts@[p].status@ == "broadcast"@);
            let current = store.ready && tip is Some && best_hash is Some && best_hash->0@ == tip->0.hash;
            must <==> best_hash is Some && !behind && (!current || opened)
        }),
{
    let payouts = store@.ledger.payouts;
    assert forall|p: int| 0 <= p < payouts.len() implies crate::reconcile::is_open(#[trigger] payouts[p]) == (
    store.ledger.payouts@[p].status@ == "waiting"@ || store.ledger.payouts@[p].status@ == "broadcast"@) by {
    }
    if exists|p: int|
        0 <= p < store.ledger.payouts@.len() && ((#[trigger] store.ledger.payouts@[p]).status@ == "waiting"@
            || store.ledger.payouts@[p].status@ == "broadcast"@) {
        let p = choose|p: int|
            0 <= p < store.ledger.payouts@.len() && ((#[trigger] store.ledger.payouts@[p]).status@ == "waiting"@
                || store.ledger.payouts@[p].status@ == "broadcast"@);
        assert(crate::reconcile::is_open(payouts[p]));
    } else {
        assert forall|p: int| 0 <= p < payouts.len() implies !crate::reconcile::is_open(#[trigger] payouts[p]) by {
            assert(store.ledger.payouts@[p].status@ != "waiting"@);
        }
    }
}

/// The tip of a chain is its last block, if that is the best one.
pub proof fn law_the_best_block_is_the_tip(blocks: &Vec<Block>, best_hash: Option<&str>, tip: Result<Tip, ReconcileError>)
    requires
        call_ensures(chain_tip, (blocks, best_hash), tip),
    ensures
        ({
            let last = blocks@[blocks@.len() - 1];
            let best = best_hash is Some && best_hash->0@ == last.hash@;
            &&& blocks@.len() == 0 <==> (tip is Err && tip->Err_0 is EmptyChain)
            &&& blocks@.len() > 0 && last.height is None <==> (tip is Err && tip->Err_0 is Height)
            &&& blocks@.len() > 0 && last.height is Some && !best <==> (tip is Err && tip->Err_0 is TipChanged)
            &&& tip is Ok ==> Some(tip->Ok_0.height) == last.height && tip->Ok_0.hash@ == last.hash@
        }),
{
    law_the_tip_is_the_last_block(tip, block_views(blocks@), words(best_hash));
}

/// A node is asked about each payment that no block mines, that can be read, and that
/// spends no note that the chain has seen spent; about none, if a block has no height.
pub proof fn law_nodes_judge_open_payments(store: &Store, blocks: &Vec<Block>, asked: Option<Vec<bool>>)
    requires
        call_ensures(Store::questions, (store, blocks), asked),
    ensures
        asked is Some <==> forall|b: int| 0 <= b < blocks@.len() ==> (#[trigger] blocks@[b]).height is Some,
        asked is Some ==> asked->0@.len() == store.ledger.records@.len() && forall|i: int|
            0 <= i < asked->0@.len() ==> #[trigger] asked->0@[i] == {
                let record = store@.ledger.records[i];
                let tx = raw_transaction(record.raw_tx);
                !mined(block_views(blocks@), record.txid) && tx is Some && !overtaken(tx->0, block_views(blocks@))
            },
{
    let chain = block_views(blocks@);
    if asked is Some {
        assert forall|i: int| 0 <= i < asked->0@.len() implies #[trigger] asked->0@[i] == {
            let record = store@.ledger.records[i];
            let tx = raw_transaction(record.raw_tx);
            !mined(chain, record.txid) && tx is Some && !overtaken(tx->0, chain)
        } by {
            law_the_node_is_asked_about_open_payments(store@.ledger.records[i], chain);
        }
        assert forall|b: int| 0 <= b < blocks@.len() implies (#[trigger] blocks@[b]).height is Some by {
            assert(chain[b].height is Some);
        }
    } else if forall|b: int| 0 <= b < blocks@.len() ==> (#[trigger] blocks@[b]).height is Some {
        assert forall|b: int| 0 <= b < chain.len() implies (#[trigger] chain[b]).height is Some by {
            assert(blocks@[b].height is Some);
        }
    }
}

/// Reconciling brings the ledger up to date with the best chain of the node: payments
/// turn out as the chain and the node say, payouts are settled, and what the miners are
/// owed is assigned. It is refused exactly where there is a reason, and leaves what it
/// has done until then.
pub proof fn law_reconciling_brings_the_ledger_up_to_date(
    store: &mut Store,
    blocks: &Vec<Block>,
    best_hash: Option<&str>,
    verdicts: &Vec<bool>,
    miners: &Vec<String>,
    net: &Network,
    done: Result<Event, ReconcileError>,
)
    requires
        verdicts@.len() == old(store).ledger.records@.len(),
        call_ensures(Store::reconcile, (store, blocks, best_hash, verdicts, miners, net), done),
    ensures
        ({
            let before = old(store)@;
            let after = final(store)@;
            let setting = Setting { blocks: block_views(blocks@), miners: texts(miners@), net: *net };
            &&& is_refused_rightly(done, before, after, words(best_hash), setting)
            &&& match done {
                Ok(event) => is_brought_up_to_date(event@, before, after, words(best_hash), verdicts@, setting),
                Err(ReconcileError::Record(e)) => is_stopped_by_a_payment(e, before, after, verdicts@, setting),
                Err(ReconcileError::Assign(e)) => is_stopped_by_a_block(e, before, after, verdicts@, setting),
                _ => true,
            }
        }),
{
    let before = old(store)@;
    let after = final(store)@;
    let setting = Setting { blocks: block_views(blocks@), miners: texts(miners@), net: *net };
    let best = words(best_hash);
    assert(best == crate::snapshot::saved_text(best_hash));
    law_reconciliation_is_refused_for_a_reason(done, before, after, best, verdicts@, setting);
    match done {
        Ok(event) => law_reconciliation_follows_the_chain(done, before, after, best, verdicts@, setting),
        Err(ReconcileError::Record(e)) => law_an_unreadable_payment_stops_the_reconciliation(
            e,
            before,
            after,
            best,
            verdicts@,
            setting,
        ),
        Err(ReconcileError::Assign(e)) => law_unassignable_payouts_stop_the_reconciliation(
            e,
            before,
            after,
            best,
            verdicts@,
            setting,
        ),
        _ => {},
    }
}

/// A ledger is saved with all that it holds.
pub proof fn law_ledgers_are_saved_whole(ledger: &Ledger, saved: Result<String, String>)
    requires
        call_ensures(Ledger::to_text, (ledger,), saved),
    ensures
        saved is Ok,
        encode_utf8(saved->Ok_0@) == json_written(ledger_json(ledger@)),
        tells_ledger(ledger_json(ledger@), ledger@),
{
    law_saved_ledgers_tell_everything(ledger@);
}

/// A ledger that was saved and is read again is the same, as long as its receipts are
/// plain.
pub proof fn law_ledgers_outlive_a_restart(ledger: &Ledger, saved: &str, written: String, again: Result<Ledger, String>)
    requires
        call_ensures(Ledger::to_text, (ledger,), Ok::<String, String>(written)),
        written@ == saved@,
        call_ensures(Ledger::from_text, (saved,), again),
        forall|i: int| 0 <= i < ledger@.records.len() ==> is_plain((#[trigger] ledger@.records[i]).receipt, 90),
    ensures
        again is Ok && again->Ok_0@ == ledger@,
{
}

/// A service that is opened is not ready and recovers, with the ledger that was saved, or
/// with an empty one where none was.
pub proof fn law_services_open_with_the_saved_ledger(saved: Option<&str>, store: Result<Store, String>)
    requires
        call_ensures(Store::open, (saved,), store),
    ensures
        store is Ok ==> !store->Ok_0.ready && store->Ok_0.recovering,
        saved is None ==> store is Ok && store->Ok_0@.ledger == (LedgerView {
            tip: None,
            records: Seq::empty(),
            payouts: Seq::empty(),
        }),
        saved is Some ==> (store is Ok <==> ledger_read(saved->0@) is Some),
        saved is Some && store is Ok ==> ledger_read(saved->0@) == Some(store->Ok_0@.ledger),
{
}

/// The state that is shown tells whether the service is ready, and the ledger.
pub proof fn law_state_tells_the_ledger(store: &Store, value: Value)
    requires
        call_ensures(Store::state, (store,), value),
    ensures
        tells_state(json(value), store@),
{
    law_the_state_tells_the_ledger(store@);
}

} // verus!
