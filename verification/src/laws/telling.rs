//! Telling: what stands in the messages, records and receipts of the service.

use crate::chain::request_json as node_request_json;
use crate::event::EventView;
use crate::json::{distinct_keys, fields, lemma_fields, Json};
use crate::ledger::{LedgerView, PayoutView, RecordView, StoreView, TipView};
use crate::p2p::{pending_json, request_json, tip_json, PendingView};
use crate::receipt::{issued_json, payload_json, signature_of};
use crate::encoding::{base64_text, hex_text};
use crate::server::{error_json, inclusion_json, info_json, result_json, success_json, ServiceView};
use crate::snapshot::{ledger_json, payout_json, record_json};
use crate::status::state_json;
use crate::text::decimal;
use crate::worker::{built_json, item_json};
use crate::receipt::public_key_of;
use crate::json::json_written;
use crate::wallet::keys::{first_address, seed_key, unified_text, viewing_key};
use vstd::prelude::*;
use vstd::utf8::encode_utf8;

verus! {

/// Whether a value is an object with these members and no others.
pub open spec fn exactly(value: Json, members: Seq<(Seq<char>, Json)>) -> bool {
    &&& value is Object
    &&& forall|i: int|
        0 <= i < members.len() ==> value->Object_0.contains_key((#[trigger] members[i]).0)
            && value->Object_0[members[i].0] == members[i].1
    &&& forall|k: Seq<char>| #[trigger]
        value->Object_0.contains_key(k) ==> exists|i: int| 0 <= i < members.len() && (#[trigger] members[i]).0 == k
}

/// The member of an object.
pub open spec fn part(value: Json, key: Seq<char>) -> Json {
    value->Object_0[key]
}

pub proof fn lemma_exactly(members: Seq<(Seq<char>, Json)>)
    requires
        distinct_keys(members),
    ensures
        exactly(Json::Object(fields(members)), members),
{
    lemma_fields(members);
}

/// Whether a value is a text, or null where there is none.
pub open spec fn tells_optional(value: Json, text: Option<Seq<char>>) -> bool {
    match text {
        Some(text) => value == Json::Text(text),
        None => value is Null,
    }
}

/// Whether a value is a list of texts.
pub open spec fn tells_texts(value: Json, list: Seq<Seq<char>>) -> bool {
    &&& value is Array && value->Array_0.len() == list.len()
    &&& forall|i: int| 0 <= i < list.len() ==> #[trigger] value->Array_0[i] == Json::Text(list[i])
}

/// Whether a value names a block by its height and its hash.
pub open spec fn tells_tip(value: Json, tip: TipView) -> bool {
    exactly(value, seq![("height"@, Json::Unsigned(tip.height as u64)), ("hash"@, Json::Text(tip.hash))])
}

/// Whether a value names a block, or is null where there is none.
pub open spec fn tells_optional_tip(value: Json, tip: Option<TipView>) -> bool {
    match tip {
        Some(tip) => tells_tip(value, tip),
        None => value is Null,
    }
}

/// A block is told by its height and its hash.
pub proof fn law_blocks_are_told_by_height_and_hash(tip: TipView)
    ensures
        ({
            let value = tip_json(tip);
            &&& exactly(
                value,
                seq![
                    ("height"@, Json::Unsigned(tip.height as u64)),
                    ("hash"@, Json::Text(tip.hash)),
                ],
            )
        }),
{
    reveal_strlit("height");
    reveal_strlit("hash");
    assert("height"@.len() == 6);
    assert("hash"@.len() == 4);
    let members = seq![
        ("height"@, Json::Unsigned(tip.height as u64)),
        ("hash"@, Json::Text(tip.hash)),
    ];
    assert(distinct_keys(members));
    lemma_exactly(members);
    assert(members[0].0 == "height"@);
    assert(members[1].0 == "hash"@);
    assert(tip_json(tip) == Json::Object(fields(members)));
}

proof fn lemma_optional_tip(tip: Option<TipView>)
    ensures
        tells_optional_tip(crate::snapshot::optional_tip_json(tip), tip),
{
    if tip is Some {
        law_blocks_are_told_by_height_and_hash(tip->0);
    }
}

/// Whether a value is the block that includes a payment and its confirmations.
pub open spec fn tells_inclusion(value: Json, block: TipView, tip: Option<TipView>) -> bool {
    &&& exactly(
        value,
        seq![
            ("block_hash"@, Json::Text(block.hash)),
            ("height"@, Json::Unsigned(block.height as u64)),
            ("confirmations"@, part(value, "confirmations"@)),
        ],
    )
    &&& part(value, "confirmations"@) is Unsigned && (tip is Some && tip->0.height >= block.height
        ==> part(value, "confirmations"@)->Unsigned_0 == tip->0.height - block.height + 1)
    &&& tip is None ==> part(value, "confirmations"@) == Json::Unsigned(0)
    &&& tip is Some && tip->0.height < block.height ==> part(value, "confirmations"@) == Json::Unsigned(1)
}

/// A payment that is included is told with its block and the number of blocks from that
/// one up to the tip, both counted.
pub proof fn law_inclusions_tell_the_block_and_its_confirmations(block: TipView, tip: Option<TipView>)
    ensures
        tells_inclusion(inclusion_json(Some(block), tip), block, tip),
{
    reveal_strlit("block_hash");
    reveal_strlit("height");
    reveal_strlit("confirmations");
    assert("block_hash"@.len() == 10);
    assert("height"@.len() == 6);
    assert("confirmations"@.len() == 13);
    let members = seq![
        ("block_hash"@, Json::Text(block.hash)),
        ("height"@, Json::Unsigned(block.height as u64)),
        ("confirmations"@, Json::Unsigned(crate::server::confirmations(block, tip))),
    ];
    assert(distinct_keys(members));
    lemma_exactly(members);
    assert(members[0].0 == "block_hash"@);
    assert(members[1].0 == "height"@);
    assert(members[2].0 == "confirmations"@);
    assert(inclusion_json(Some(block), tip) == Json::Object(fields(members)));
}

/// Whether a value is the state of an accepted payment.
pub open spec fn tells_payment(value: Json, record: RecordView, tip: Option<TipView>) -> bool {
    &&& exactly(
        value,
        seq![
            ("txid"@, Json::Text(record.txid)),
            ("status"@, Json::Text(record.status)),
            ("receipt"@, record.receipt),
            ("inclusion"@, part(value, "inclusion"@)),
            ("failure_reason"@, part(value, "failure_reason"@)),
        ],
    )
    &&& match record.inclusion {
        Some(block) => tells_inclusion(part(value, "inclusion"@), block, tip),
        None => part(value, "inclusion"@) is Null,
    }
    &&& tells_optional(part(value, "failure_reason"@), record.failure_reason)
}

/// The answer about an accepted payment tells what its record holds: the payment, its
/// status, its receipt, where it is included, and why it failed.
pub proof fn law_answers_tell_the_state_of_a_payment(record: RecordView, tip: Option<TipView>)
    ensures
        tells_payment(result_json(record, tip), record, tip),
{
    if record.inclusion is Some {
        law_inclusions_tell_the_block_and_its_confirmations(record.inclusion->0, tip);
    }
    reveal_strlit("txid");
    reveal_strlit("status");
    reveal_strlit("receipt");
    reveal_strlit("inclusion");
    reveal_strlit("failure_reason");
    assert("txid"@.len() == 4);
    assert("status"@.len() == 6);
    assert("receipt"@.len() == 7);
    assert("inclusion"@.len() == 9);
    assert("failure_reason"@.len() == 14);
    let members = seq![
        ("txid"@, Json::Text(record.txid)),
        ("status"@, Json::Text(record.status)),
        ("receipt"@, record.receipt),
        ("inclusion"@, inclusion_json(record.inclusion, tip)),
        ("failure_reason"@, crate::json::optional_text_json(record.failure_reason)),
    ];
    assert(distinct_keys(members));
    lemma_exactly(members);
    assert(members[0].0 == "txid"@);
    assert(members[1].0 == "status"@);
    assert(members[2].0 == "receipt"@);
    assert(members[3].0 == "inclusion"@);
    assert(members[4].0 == "failure_reason"@);
    assert(result_json(record, tip) == Json::Object(fields(members)));
}

/// Answers about two payments with different statuses differ, in the member that holds
/// the status.
pub proof fn law_answers_tell_statuses_apart(a: RecordView, b: RecordView, tip: Option<TipView>, later: Option<TipView>)
    requires
        a.status != b.status,
    ensures
        part(result_json(a, tip), "status"@) != part(result_json(b, later), "status"@),
        result_json(a, tip) != result_json(b, later),
{
    law_answers_tell_the_state_of_a_payment(a, tip);
    law_answers_tell_the_state_of_a_payment(b, later);
    let one = seq![
        ("txid"@, Json::Text(a.txid)),
        ("status"@, Json::Text(a.status)),
        ("receipt"@, a.receipt),
        ("inclusion"@, part(result_json(a, tip), "inclusion"@)),
        ("failure_reason"@, part(result_json(a, tip), "failure_reason"@)),
    ];
    let two = seq![
        ("txid"@, Json::Text(b.txid)),
        ("status"@, Json::Text(b.status)),
        ("receipt"@, b.receipt),
        ("inclusion"@, part(result_json(b, later), "inclusion"@)),
        ("failure_reason"@, part(result_json(b, later), "failure_reason"@)),
    ];
    assert(one[1].0 == "status"@ && two[1].0 == "status"@);
}

/// Whether a value is a refused call.
pub open spec fn tells_refusal(value: Json, id: Json, code: int, reason: Seq<char>, message: Seq<char>) -> bool {
    &&& exactly(
        value,
        seq![
            ("jsonrpc"@, Json::Text("2.0"@)),
            ("id"@, id),
            ("error"@, part(value, "error"@)),
        ],
    )
    &&& tells_error(part(value, "error"@), code, reason, message)
}

/// An error tells the call, a code, a message and a reason.
pub proof fn law_errors_tell_code_reason_and_message(id: Json, code: int, reason: Seq<char>, message: Seq<char>)
    ensures
        tells_refusal(error_json(id, code, reason, message), id, code, reason, message),
{
    lemma_error(code, reason, message);
    reveal_strlit("jsonrpc");
    reveal_strlit("id");
    reveal_strlit("error");
    assert("jsonrpc"@.len() == 7);
    assert("id"@.len() == 2);
    assert("error"@.len() == 5);
    let members = seq![
        ("jsonrpc"@, Json::Text("2.0"@)),
        ("id"@, id),
        ("error"@, Json::Object(fields(seq![("code"@, crate::json::signed_json(code)), ("message"@, Json::Text(message)), ("data"@, Json::Object(fields(seq![("reason"@, Json::Text(reason))])))]))),
    ];
    assert(distinct_keys(members));
    lemma_exactly(members);
    assert(members[0].0 == "jsonrpc"@);
    assert(members[1].0 == "id"@);
    assert(members[2].0 == "error"@);
    assert(error_json(id, code, reason, message) == Json::Object(fields(members)));
}

/// Whether a value is an error with a code, a message and a reason.
pub open spec fn tells_error(value: Json, code: int, reason: Seq<char>, message: Seq<char>) -> bool {
    let number = if code < 0 {
        Json::Negative(code as i64)
    } else {
        Json::Unsigned(code as u64)
    };
    &&& exactly(value, seq![("code"@, number), ("message"@, Json::Text(message)), ("data"@, part(value, "data"@))])
    &&& exactly(part(value, "data"@), seq![("reason"@, Json::Text(reason))])
}

proof fn lemma_error(code: int, reason: Seq<char>, message: Seq<char>)
    ensures
        tells_error(
            Json::Object(
                fields(
                    seq![
                        ("code"@, crate::json::signed_json(code)),
                        ("message"@, Json::Text(message)),
                        ("data"@, Json::Object(fields(seq![("reason"@, Json::Text(reason))]))),
                    ],
                ),
            ),
            code,
            reason,
            message,
        ),
{
    let inner = seq![("reason"@, Json::Text(reason))];
    assert(distinct_keys(inner));
    lemma_exactly(inner);
    reveal_strlit("code");
    reveal_strlit("message");
    reveal_strlit("data");
    assert("code"@.len() == 4);
    assert("message"@.len() == 7);
    assert("data"@.len() == 4);
    assert("code"@[0] != "data"@[0]);
    let members = seq![
        ("code"@, crate::json::signed_json(code)),
        ("message"@, Json::Text(message)),
        ("data"@, Json::Object(fields(inner))),
    ];
    assert(distinct_keys(members));
    lemma_exactly(members);
    assert(members[0].0 == "code"@ && members[1].0 == "message"@ && members[2].0 == "data"@);
}

/// Whether a value is the result of a call.
pub open spec fn tells_success(value: Json, id: Json, result: Json) -> bool {
    &&& exactly(
        value,
        seq![
            ("jsonrpc"@, Json::Text("2.0"@)),
            ("id"@, id),
            ("result"@, result),
        ],
    )
}

/// A result tells the call that it answers.
pub proof fn law_results_tell_the_call(id: Json, result: Json)
    ensures
        tells_success(success_json(id, result), id, result),
{
    reveal_strlit("jsonrpc");
    reveal_strlit("id");
    reveal_strlit("result");
    assert("jsonrpc"@.len() == 7);
    assert("id"@.len() == 2);
    assert("result"@.len() == 6);
    let members = seq![
        ("jsonrpc"@, Json::Text("2.0"@)),
        ("id"@, id),
        ("result"@, result),
    ];
    assert(distinct_keys(members));
    lemma_exactly(members);
    assert(members[0].0 == "jsonrpc"@);
    assert(members[1].0 == "id"@);
    assert(members[2].0 == "result"@);
    assert(success_json(id, result) == Json::Object(fields(members)));
}

/// Whether a value is what the service says of itself.
pub open spec fn tells_service(value: Json, service: ServiceView, store: StoreView) -> bool {
    &&& exactly(
        value,
        seq![
            ("protocol_version"@, Json::Unsigned(1)),
            ("chain_id"@, Json::Text(service.chain_id)),
            ("service_pubkey"@, Json::Text(hex_text(public_key_of(service.key)))),
            ("fee_address"@, Json::Text(unified_text(first_address(viewing_key(seed_key(service.seed)->0)), service.net))),
            ("min_fee_zat"@, Json::Text(decimal(service.min_fee_zat as nat))),
            ("ready"@, Json::Bool(store.ready)),
            ("tip"@, part(value, "tip"@)),
        ],
    )
    &&& tells_optional_tip(part(value, "tip"@), store.ledger.tip)
}

/// The service tells its version, its chain, the key under which its receipts verify, the
/// address at which it receives fees, the least fee, whether it is ready, and its tip.
pub proof fn law_the_service_tells_who_it_is(service: ServiceView, store: StoreView)
    requires
        seed_key(service.seed) is Some,
    ensures
        tells_service(info_json(service, store), service, store),
{
    lemma_optional_tip(store.ledger.tip);
    reveal_strlit("protocol_version");
    reveal_strlit("chain_id");
    reveal_strlit("service_pubkey");
    reveal_strlit("fee_address");
    reveal_strlit("min_fee_zat");
    reveal_strlit("ready");
    reveal_strlit("tip");
    assert("protocol_version"@.len() == 16);
    assert("chain_id"@.len() == 8);
    assert("service_pubkey"@.len() == 14);
    assert("fee_address"@.len() == 11);
    assert("min_fee_zat"@.len() == 11);
    assert("ready"@.len() == 5);
    assert("tip"@.len() == 3);
    assert("fee_address"@[0] != "min_fee_zat"@[0]);
    let members = seq![
        ("protocol_version"@, Json::Unsigned(1)),
        ("chain_id"@, Json::Text(service.chain_id)),
        ("service_pubkey"@, Json::Text(hex_text(public_key_of(service.key)))),
        ("fee_address"@, Json::Text(unified_text(first_address(viewing_key(seed_key(service.seed)->0)), service.net))),
        ("min_fee_zat"@, Json::Text(decimal(service.min_fee_zat as nat))),
        ("ready"@, Json::Bool(store.ready)),
        ("tip"@, crate::snapshot::optional_tip_json(store.ledger.tip)),
    ];
    assert(distinct_keys(members));
    lemma_exactly(members);
    assert(members[0].0 == "protocol_version"@);
    assert(members[1].0 == "chain_id"@);
    assert(members[2].0 == "service_pubkey"@);
    assert(members[3].0 == "fee_address"@);
    assert(members[4].0 == "min_fee_zat"@);
    assert(members[5].0 == "ready"@);
    assert(members[6].0 == "tip"@);
    assert(info_json(service, store) == Json::Object(fields(members)));
}

/// Whether a value is a pending set.
pub open spec fn tells_pending(value: Json, pending: PendingView) -> bool {
    &&& exactly(
        value,
        seq![
            ("chain_id"@, Json::Text(pending.chain_id)),
            ("tip"@, part(value, "tip"@)),
            ("transactions"@, part(value, "transactions"@)),
        ],
    )
    &&& tells_tip(part(value, "tip"@), pending.tip)
    &&& tells_texts(part(value, "transactions"@), pending.transactions)
}

/// The message that carries a pending set tells the chain, the tip and the transactions.
pub proof fn law_pending_sets_tell_chain_tip_and_transactions(pending: PendingView)
    ensures
        tells_pending(pending_json(pending), pending),
{
    law_blocks_are_told_by_height_and_hash(pending.tip);
    reveal_strlit("chain_id");
    reveal_strlit("tip");
    reveal_strlit("transactions");
    assert("chain_id"@.len() == 8);
    assert("tip"@.len() == 3);
    assert("transactions"@.len() == 12);
    let members = seq![
        ("chain_id"@, Json::Text(pending.chain_id)),
        ("tip"@, tip_json(pending.tip)),
        ("transactions"@, crate::json::texts_json(pending.transactions)),
    ];
    assert(distinct_keys(members));
    lemma_exactly(members);
    assert(members[0].0 == "chain_id"@);
    assert(members[1].0 == "tip"@);
    assert(members[2].0 == "transactions"@);
    assert(pending_json(pending) == Json::Object(fields(members)));
}

/// Whether a value is a request for the pending set of a chain.
pub open spec fn tells_chain(value: Json, chain_id: Seq<char>) -> bool {
    &&& exactly(
        value,
        seq![
            ("chain_id"@, Json::Text(chain_id)),
        ],
    )
}

/// A request for a pending set tells the chain.
pub proof fn law_requests_tell_the_chain(chain_id: Seq<char>)
    ensures
        tells_chain(request_json(chain_id), chain_id),
{
    reveal_strlit("chain_id");
    assert("chain_id"@.len() == 8);
    let members = seq![
        ("chain_id"@, Json::Text(chain_id)),
    ];
    assert(distinct_keys(members));
    lemma_exactly(members);
    assert(members[0].0 == "chain_id"@);
    assert(request_json(chain_id) == Json::Object(fields(members)));
}

/// Whether a value is a saved payment.
pub open spec fn tells_record(value: Json, record: RecordView) -> bool {
    &&& exactly(
        value,
        seq![
            ("txid"@, Json::Text(record.txid)),
            ("raw_tx"@, Json::Text(record.raw_tx)),
            ("fee"@, Json::Unsigned(record.fee)),
            ("receipt"@, record.receipt),
            ("status"@, Json::Text(record.status)),
            ("inclusion"@, part(value, "inclusion"@)),
            ("failure_reason"@, part(value, "failure_reason"@)),
        ],
    )
    &&& tells_optional_tip(part(value, "inclusion"@), record.inclusion)
    &&& tells_optional(part(value, "failure_reason"@), record.failure_reason)
}

/// A payment is saved with all that its record holds.
pub proof fn law_saved_payments_tell_their_records(record: RecordView)
    ensures
        tells_record(record_json(record), record),
{
    lemma_optional_tip(record.inclusion);
    reveal_strlit("txid");
    reveal_strlit("raw_tx");
    reveal_strlit("fee");
    reveal_strlit("receipt");
    reveal_strlit("status");
    reveal_strlit("inclusion");
    reveal_strlit("failure_reason");
    assert("txid"@.len() == 4);
    assert("raw_tx"@.len() == 6);
    assert("fee"@.len() == 3);
    assert("receipt"@.len() == 7);
    assert("status"@.len() == 6);
    assert("inclusion"@.len() == 9);
    assert("failure_reason"@.len() == 14);
    assert("raw_tx"@[0] != "status"@[0]);
    let members = seq![
        ("txid"@, Json::Text(record.txid)),
        ("raw_tx"@, Json::Text(record.raw_tx)),
        ("fee"@, Json::Unsigned(record.fee)),
        ("receipt"@, record.receipt),
        ("status"@, Json::Text(record.status)),
        ("inclusion"@, crate::snapshot::optional_tip_json(record.inclusion)),
        ("failure_reason"@, crate::json::optional_text_json(record.failure_reason)),
    ];
    assert(distinct_keys(members));
    lemma_exactly(members);
    assert(members[0].0 == "txid"@);
    assert(members[1].0 == "raw_tx"@);
    assert(members[2].0 == "fee"@);
    assert(members[3].0 == "receipt"@);
    assert(members[4].0 == "status"@);
    assert(members[5].0 == "inclusion"@);
    assert(members[6].0 == "failure_reason"@);
    assert(record_json(record) == Json::Object(fields(members)));
}

/// Whether a value is a saved payout.
pub open spec fn tells_payout(value: Json, payout: PayoutView) -> bool {
    &&& exactly(
        value,
        seq![
            ("block"@, part(value, "block"@)),
            ("address"@, Json::Text(payout.address)),
            ("amount"@, Json::Unsigned(payout.amount)),
            ("txids"@, part(value, "txids"@)),
            ("raw_tx"@, part(value, "raw_tx"@)),
            ("txid"@, part(value, "txid"@)),
            ("status"@, Json::Text(payout.status)),
            ("reason"@, part(value, "reason"@)),
        ],
    )
    &&& tells_tip(part(value, "block"@), payout.block)
    &&& tells_texts(part(value, "txids"@), payout.txids)
    &&& tells_optional(part(value, "raw_tx"@), payout.raw_tx)
    &&& tells_optional(part(value, "txid"@), payout.txid)
    &&& tells_optional(part(value, "reason"@), payout.reason)
}

/// A payout is saved with all that the ledger holds of it.
pub proof fn law_saved_payouts_tell_their_debt(payout: PayoutView)
    ensures
        tells_payout(payout_json(payout), payout),
{
    law_blocks_are_told_by_height_and_hash(payout.block);
    reveal_strlit("block");
    reveal_strlit("address");
    reveal_strlit("amount");
    reveal_strlit("txids");
    reveal_strlit("raw_tx");
    reveal_strlit("txid");
    reveal_strlit("status");
    reveal_strlit("reason");
    assert("block"@.len() == 5);
    assert("address"@.len() == 7);
    assert("amount"@.len() == 6);
    assert("txids"@.len() == 5);
    assert("raw_tx"@.len() == 6);
    assert("txid"@.len() == 4);
    assert("status"@.len() == 6);
    assert("reason"@.len() == 6);
    assert("block"@[0] != "txids"@[0]);
    assert("amount"@[0] != "raw_tx"@[0]);
    assert("amount"@[0] != "status"@[0]);
    assert("amount"@[0] != "reason"@[0]);
    assert("raw_tx"@[0] != "status"@[0]);
    assert("raw_tx"@[1] != "reason"@[1]);
    assert("status"@[0] != "reason"@[0]);
    let members = seq![
        ("block"@, tip_json(payout.block)),
        ("address"@, Json::Text(payout.address)),
        ("amount"@, Json::Unsigned(payout.amount)),
        ("txids"@, crate::json::texts_json(payout.txids)),
        ("raw_tx"@, crate::json::optional_text_json(payout.raw_tx)),
        ("txid"@, crate::json::optional_text_json(payout.txid)),
        ("status"@, Json::Text(payout.status)),
        ("reason"@, crate::json::optional_text_json(payout.reason)),
    ];
    assert(distinct_keys(members));
    lemma_exactly(members);
    assert(members[0].0 == "block"@);
    assert(members[1].0 == "address"@);
    assert(members[2].0 == "amount"@);
    assert(members[3].0 == "txids"@);
    assert(members[4].0 == "raw_tx"@);
    assert(members[5].0 == "txid"@);
    assert(members[6].0 == "status"@);
    assert(members[7].0 == "reason"@);
    assert(payout_json(payout) == Json::Object(fields(members)));
}

/// Whether a value is a saved ledger.
pub open spec fn tells_ledger(value: Json, ledger: LedgerView) -> bool {
    &&& exactly(
        value,
        seq![
            ("tip"@, part(value, "tip"@)),
            ("records"@, part(value, "records"@)),
            ("payouts"@, part(value, "payouts"@)),
        ],
    )
    &&& tells_optional_tip(part(value, "tip"@), ledger.tip)
    &&& part(value, "records"@) is Array && part(value, "records"@)->Array_0.len() == ledger.records.len()
        && forall|i: int| 0 <= i < ledger.records.len()
        ==> tells_record(#[trigger] part(value, "records"@)->Array_0[i], ledger.records[i])
    &&& part(value, "payouts"@) is Array && part(value, "payouts"@)->Array_0.len() == ledger.payouts.len()
        && forall|i: int| 0 <= i < ledger.payouts.len()
        ==> tells_payout(#[trigger] part(value, "payouts"@)->Array_0[i], ledger.payouts[i])
}

/// The ledger is saved with its tip, all payments and all payouts, in order.
pub proof fn law_saved_ledgers_tell_everything(ledger: LedgerView)
    ensures
        tells_ledger(ledger_json(ledger), ledger),
{
    lemma_optional_tip(ledger.tip);
    assert forall|i: int| 0 <= i < ledger.records.len() implies tells_record(#[trigger] record_json(ledger.records[i]), ledger.records[i]) by {
        law_saved_payments_tell_their_records(ledger.records[i]);
    }
    assert forall|i: int| 0 <= i < ledger.payouts.len() implies tells_payout(#[trigger] payout_json(ledger.payouts[i]), ledger.payouts[i]) by {
        law_saved_payouts_tell_their_debt(ledger.payouts[i]);
    }
    reveal_strlit("tip");
    reveal_strlit("records");
    reveal_strlit("payouts");
    assert("tip"@.len() == 3);
    assert("records"@.len() == 7);
    assert("payouts"@.len() == 7);
    assert("records"@[0] != "payouts"@[0]);
    let members = seq![
        ("tip"@, crate::snapshot::optional_tip_json(ledger.tip)),
        ("records"@, crate::snapshot::records_json(ledger.records)),
        ("payouts"@, crate::snapshot::payouts_json(ledger.payouts)),
    ];
    assert(distinct_keys(members));
    lemma_exactly(members);
    assert(members[0].0 == "tip"@);
    assert(members[1].0 == "records"@);
    assert(members[2].0 == "payouts"@);
    assert(ledger_json(ledger) == Json::Object(fields(members)));
}

/// Whether a value is the state of the service.
pub open spec fn tells_state(value: Json, store: StoreView) -> bool {
    &&& exactly(
        value,
        seq![
            ("ready"@, Json::Bool(store.ready)),
            ("ledger"@, part(value, "ledger"@)),
        ],
    )
    &&& tells_ledger(part(value, "ledger"@), store.ledger)
}

/// What is shown of the state is whether the service is ready, and the ledger.
pub proof fn law_the_state_tells_the_ledger(store: StoreView)
    ensures
        tells_state(state_json(store), store),
{
    law_saved_ledgers_tell_everything(store.ledger);
    reveal_strlit("ready");
    reveal_strlit("ledger");
    assert("ready"@.len() == 5);
    assert("ledger"@.len() == 6);
    let members = seq![
        ("ready"@, Json::Bool(store.ready)),
        ("ledger"@, ledger_json(store.ledger)),
    ];
    assert(distinct_keys(members));
    lemma_exactly(members);
    assert(members[0].0 == "ready"@);
    assert(members[1].0 == "ledger"@);
    assert(state_json(store) == Json::Object(fields(members)));
}

/// An acceptance is written down with the payment and its fee.
pub proof fn law_acceptances_are_written_down(txid: Seq<char>, fee: u64)
    ensures
        ({
            let value = (EventView::Accepted { txid, fee }).data();
            &&& exactly(
                value,
                seq![
                    ("txid"@, Json::Text(txid)),
                    ("fee_zat"@, Json::Unsigned(fee)),
                ],
            )
        }),
{
    reveal_strlit("txid");
    reveal_strlit("fee_zat");
    assert("txid"@.len() == 4);
    assert("fee_zat"@.len() == 7);
    let members = seq![
        ("txid"@, Json::Text(txid)),
        ("fee_zat"@, Json::Unsigned(fee)),
    ];
    assert(distinct_keys(members));
    lemma_exactly(members);
    assert(members[0].0 == "txid"@);
    assert(members[1].0 == "fee_zat"@);
    assert((EventView::Accepted { txid, fee }).data() == Json::Object(fields(members)));
}

/// A reconciliation is written down with the tip.
pub proof fn law_reconciliations_are_written_down(tip: TipView)
    ensures
        ({
            let value = (EventView::Reconciled { tip }).data();
            &&& exactly(
                value,
                seq![
                    ("tip"@, part(value, "tip"@)),
                ],
            )
            &&& tells_tip(part(value, "tip"@), tip)
        }),
{
    law_blocks_are_told_by_height_and_hash(tip);
    reveal_strlit("tip");
    assert("tip"@.len() == 3);
    let members = seq![
        ("tip"@, tip_json(tip)),
    ];
    assert(distinct_keys(members));
    lemma_exactly(members);
    assert(members[0].0 == "tip"@);
    assert((EventView::Reconciled { tip }).data() == Json::Object(fields(members)));
}

/// A signed payout is written down with its block, its transaction and its amount.
pub proof fn law_signed_payouts_are_written_down(block_hash: Seq<char>, txid: Seq<char>, amount: u64)
    ensures
        ({
            let value = (EventView::PayoutSigned { block_hash, txid, amount }).data();
            &&& exactly(
                value,
                seq![
                    ("block_hash"@, Json::Text(block_hash)),
                    ("txid"@, Json::Text(txid)),
                    ("amount_zat"@, Json::Unsigned(amount)),
                ],
            )
        }),
{
    reveal_strlit("block_hash");
    reveal_strlit("txid");
    reveal_strlit("amount_zat");
    assert("block_hash"@.len() == 10);
    assert("txid"@.len() == 4);
    assert("amount_zat"@.len() == 10);
    assert("block_hash"@[0] != "amount_zat"@[0]);
    let members = seq![
        ("block_hash"@, Json::Text(block_hash)),
        ("txid"@, Json::Text(txid)),
        ("amount_zat"@, Json::Unsigned(amount)),
    ];
    assert(distinct_keys(members));
    lemma_exactly(members);
    assert(members[0].0 == "block_hash"@);
    assert(members[1].0 == "txid"@);
    assert(members[2].0 == "amount_zat"@);
    assert((EventView::PayoutSigned { block_hash, txid, amount }).data() == Json::Object(fields(members)));
}

/// A blocked payout is written down with its block.
pub proof fn law_blocked_payouts_are_written_down(block_hash: Seq<char>)
    ensures
        ({
            let value = (EventView::PayoutBlocked { block_hash }).data();
            &&& exactly(
                value,
                seq![
                    ("block_hash"@, Json::Text(block_hash)),
                ],
            )
        }),
{
    reveal_strlit("block_hash");
    assert("block_hash"@.len() == 10);
    let members = seq![
        ("block_hash"@, Json::Text(block_hash)),
    ];
    assert(distinct_keys(members));
    lemma_exactly(members);
    assert(members[0].0 == "block_hash"@);
    assert((EventView::PayoutBlocked { block_hash }).data() == Json::Object(fields(members)));
}

/// A payout that was found on its way is written down with its block.
pub proof fn law_recovered_payouts_are_written_down(block_hash: Seq<char>)
    ensures
        ({
            let value = (EventView::PayoutRecovered { block_hash }).data();
            &&& exactly(
                value,
                seq![
                    ("block_hash"@, Json::Text(block_hash)),
                ],
            )
        }),
{
    reveal_strlit("block_hash");
    assert("block_hash"@.len() == 10);
    let members = seq![
        ("block_hash"@, Json::Text(block_hash)),
    ];
    assert(distinct_keys(members));
    lemma_exactly(members);
    assert(members[0].0 == "block_hash"@);
    assert((EventView::PayoutRecovered { block_hash }).data() == Json::Object(fields(members)));
}

/// A sent payout is written down with its block and its transaction.
pub proof fn law_sent_payouts_are_written_down(block_hash: Seq<char>, sent: Option<Seq<char>>)
    ensures
        ({
            let value = (EventView::PayoutBroadcast { block_hash, sent }).data();
            &&& exactly(
                value,
                seq![
                    ("block_hash"@, Json::Text(block_hash)),
                    ("txid"@, part(value, "txid"@)),
                ],
            )
            &&& tells_optional(part(value, "txid"@), sent)
        }),
{
    reveal_strlit("block_hash");
    reveal_strlit("txid");
    assert("block_hash"@.len() == 10);
    assert("txid"@.len() == 4);
    let members = seq![
        ("block_hash"@, Json::Text(block_hash)),
        ("txid"@, crate::json::optional_text_json(sent)),
    ];
    assert(distinct_keys(members));
    lemma_exactly(members);
    assert(members[0].0 == "block_hash"@);
    assert(members[1].0 == "txid"@);
    assert((EventView::PayoutBroadcast { block_hash, sent }).data() == Json::Object(fields(members)));
}

/// Whether a value is what a receipt says.
pub open spec fn tells_receipt(value: Json, chain_id: Seq<char>, txid: Seq<char>, fee: u64) -> bool {
    &&& exactly(
        value,
        seq![
            ("chain_id"@, Json::Text(chain_id)),
            ("txid"@, Json::Text(txid)),
            ("service_fee_zat"@, Json::Text(decimal(fee as nat))),
        ],
    )
}

/// What a receipt says is the chain, the payment and the service fee.
pub proof fn law_receipts_tell_chain_payment_and_fee(chain_id: Seq<char>, txid: Seq<char>, fee: u64)
    ensures
        tells_receipt(payload_json(chain_id, txid, fee), chain_id, txid, fee),
{
    reveal_strlit("chain_id");
    reveal_strlit("txid");
    reveal_strlit("service_fee_zat");
    assert("chain_id"@.len() == 8);
    assert("txid"@.len() == 4);
    assert("service_fee_zat"@.len() == 15);
    let members = seq![
        ("chain_id"@, Json::Text(chain_id)),
        ("txid"@, Json::Text(txid)),
        ("service_fee_zat"@, Json::Text(decimal(fee as nat))),
    ];
    assert(distinct_keys(members));
    lemma_exactly(members);
    assert(members[0].0 == "chain_id"@);
    assert(members[1].0 == "txid"@);
    assert(members[2].0 == "service_fee_zat"@);
    assert(payload_json(chain_id, txid, fee) == Json::Object(fields(members)));
}

/// Whether a value is a receipt with its signature.
pub open spec fn tells_signed(value: Json, seed: Seq<u8>, chain_id: Seq<char>, txid: Seq<char>, fee: u64) -> bool {
    &&& exactly(
        value,
        seq![
            ("payload"@, Json::Text(base64_text(json_written(payload_json(chain_id, txid, fee))))),
            ("signature"@, Json::Text(hex_text(signature_of(seed, encode_utf8("zcash-preconf-demo/v1\n"@) + json_written(payload_json(chain_id, txid, fee)))))),
        ],
    )
}

/// A receipt holds what it says in base64, and the signature of the service on it, under
/// the line that names its purpose, in hexadecimal.
pub proof fn law_receipts_are_signed(seed: Seq<u8>, chain_id: Seq<char>, txid: Seq<char>, fee: u64)
    ensures
        tells_signed(issued_json(seed, chain_id, txid, fee), seed, chain_id, txid, fee),
{
    reveal_strlit("payload");
    reveal_strlit("signature");
    assert("payload"@.len() == 7);
    assert("signature"@.len() == 9);
    let members = seq![
        ("payload"@, Json::Text(base64_text(json_written(payload_json(chain_id, txid, fee))))),
        ("signature"@, Json::Text(hex_text(signature_of(seed, encode_utf8("zcash-preconf-demo/v1\n"@) + json_written(payload_json(chain_id, txid, fee)))))),
    ];
    assert(distinct_keys(members));
    lemma_exactly(members);
    assert(members[0].0 == "payload"@);
    assert(members[1].0 == "signature"@);
    assert(issued_json(seed, chain_id, txid, fee) == Json::Object(fields(members)));
}

/// Whether a value is a payment that was built.
pub open spec fn tells_built(value: Json, raw_tx: Seq<char>, txid: Seq<char>, input_txid: Seq<char>, input_nf: Seq<char>) -> bool {
    &&& exactly(
        value,
        seq![
            ("raw_tx"@, Json::Text(raw_tx)),
            ("txid"@, Json::Text(txid)),
            ("input_txid"@, Json::Text(input_txid)),
            ("input_nf"@, Json::Text(input_nf)),
        ],
    )
}

/// A payment that was built is told with its transaction, its identifier and the note that
/// it spends.
pub proof fn law_built_payments_are_told(raw_tx: Seq<char>, txid: Seq<char>, input_txid: Seq<char>, input_nf: Seq<char>)
    ensures
        tells_built(built_json(raw_tx, txid, input_txid, input_nf), raw_tx, txid, input_txid, input_nf),
{
    reveal_strlit("raw_tx");
    reveal_strlit("txid");
    reveal_strlit("input_txid");
    reveal_strlit("input_nf");
    assert("raw_tx"@.len() == 6);
    assert("txid"@.len() == 4);
    assert("input_txid"@.len() == 10);
    assert("input_nf"@.len() == 8);
    let members = seq![
        ("raw_tx"@, Json::Text(raw_tx)),
        ("txid"@, Json::Text(txid)),
        ("input_txid"@, Json::Text(input_txid)),
        ("input_nf"@, Json::Text(input_nf)),
    ];
    assert(distinct_keys(members));
    lemma_exactly(members);
    assert(members[0].0 == "raw_tx"@);
    assert(members[1].0 == "txid"@);
    assert(members[2].0 == "input_txid"@);
    assert(members[3].0 == "input_nf"@);
    assert(built_json(raw_tx, txid, input_txid, input_nf) == Json::Object(fields(members)));
}

/// A request for a conflict is answered with both payments.
pub proof fn law_items_tell_both_payments(payment: Json, conflict: Json)
    ensures
        ({
            let value = item_json(payment, Some(conflict));
            &&& exactly(
                value,
                seq![
                    ("payment"@, payment),
                    ("conflict"@, conflict),
                ],
            )
        }),
{
    reveal_strlit("payment");
    reveal_strlit("conflict");
    assert("payment"@.len() == 7);
    assert("conflict"@.len() == 8);
    let members = seq![
        ("payment"@, payment),
        ("conflict"@, conflict),
    ];
    assert(distinct_keys(members));
    lemma_exactly(members);
    assert(members[0].0 == "payment"@);
    assert(members[1].0 == "conflict"@);
    assert(item_json(payment, Some(conflict)) == Json::Object(fields(members)));
}

/// A request for no conflict is answered with the payment alone.
pub proof fn law_items_tell_the_payment(payment: Json)
    ensures
        ({
            let value = item_json(payment, None);
            &&& exactly(
                value,
                seq![
                    ("payment"@, payment),
                ],
            )
        }),
{
    reveal_strlit("payment");
    assert("payment"@.len() == 7);
    let members = seq![
        ("payment"@, payment),
    ];
    assert(distinct_keys(members));
    lemma_exactly(members);
    assert(members[0].0 == "payment"@);
    assert(item_json(payment, None) == Json::Object(fields(members)));
}

/// Whether a value is a request to a node.
pub open spec fn tells_question(value: Json, method: Seq<char>, params: Json) -> bool {
    &&& exactly(
        value,
        seq![
            ("jsonrpc"@, Json::Text("2.0"@)),
            ("id"@, Json::Unsigned(1)),
            ("method"@, Json::Text(method)),
            ("params"@, params),
        ],
    )
}

/// A request to a node tells the method and its parameters.
pub proof fn law_nodes_are_asked_by_method_and_parameters(method: Seq<char>, params: Json)
    ensures
        tells_question(node_request_json(method, params), method, params),
{
    reveal_strlit("jsonrpc");
    reveal_strlit("id");
    reveal_strlit("method");
    reveal_strlit("params");
    assert("jsonrpc"@.len() == 7);
    assert("id"@.len() == 2);
    assert("method"@.len() == 6);
    assert("params"@.len() == 6);
    assert("method"@[0] != "params"@[0]);
    let members = seq![
        ("jsonrpc"@, Json::Text("2.0"@)),
        ("id"@, Json::Unsigned(1)),
        ("method"@, Json::Text(method)),
        ("params"@, params),
    ];
    assert(distinct_keys(members));
    lemma_exactly(members);
    assert(members[0].0 == "jsonrpc"@);
    assert(members[1].0 == "id"@);
    assert(members[2].0 == "method"@);
    assert(members[3].0 == "params"@);
    assert(node_request_json(method, params) == Json::Object(fields(members)));
}

} // verus!
