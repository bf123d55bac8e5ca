//! The merchants' side: submitting payments, asking for them, and what the service
//! says of itself.

use crate::amount::sum;
use crate::config::{demo_network, network, Config};
use crate::encoding::{hex_bytes, hex_text};
use crate::event::{Event, EventView};
use crate::json::{
    boolean, copy, entries, entry_views, field, fields, get, get_text, is_plain, json, json_read, null, object, object_size,
    optional_text_json, optional_text_value, put, read_json, signed, signed_json, text, text_field, unsigned, Json,
};
use crate::ledger::{
    optional_tip, record_views, Ledger, LedgerView, Record, RecordView, Store, StoreView, Tip, TipView,
};
use crate::p2p::{pending_bytes, Pending, PendingView, CAP};
use crate::receipt::{
    issue_receipt, issued_json, lemma_receipt_fields, payload_bytes, public_key_of, service_key, signature_of, signed_message,
    signing_seed, SeedError,
};
use crate::reconcile::assign::distinct_txids;
use crate::snapshot::{optional_tip_json, optional_tip_value, saved_text};
use crate::text::{any_in, decimal, decimal_text, same_optional, same_text, texts};
use crate::transaction::{raw_message, raw_transaction, raw_tx, spends, Tx, TxView};
use crate::wallet::keys::{address, key_message, seed_address, seed_key, unified_text};
use crate::wallet::scan::{payments_to, received, received_message};
use serde_json::Value;
use vstd::hash_set::StringHashSet;
use vstd::prelude::*;
use zakura_chain::parameters::Network;

verus! {

/// Why a call is refused: a code, a reason for machines, and a message for people.
pub type ApiError = (i32, &'static str, String);

/// The error of a fault inside the service.
pub fn internal(message: String) -> (e: ApiError)
    ensures
        e.0 == -32603,
        e.1@ == "internal"@,
        e.2@ == message@,
{
    (-32603, "internal", message)
}

/// What the service knows of itself.
pub struct Service {
    pub chain_id: String,
    pub seed: String,
    pub key: [u8; 32],
    pub min_fee_zat: u64,
    pub net: Network,
}

pub struct ServiceView {
    pub chain_id: Seq<char>,
    pub seed: Seq<char>,
    pub key: Seq<u8>,
    pub min_fee_zat: u64,
    pub net: Network,
}

impl View for Service {
    type V = ServiceView;

    open spec fn view(&self) -> ServiceView {
        ServiceView {
            chain_id: self.chain_id@,
            seed: self.seed@,
            key: self.key@,
            min_fee_zat: self.min_fee_zat,
            net: self.net,
        }
    }
}

impl Service {
    /// Sets up the service of a configuration.
    pub fn new(config: &Config) -> (service: Result<Service, SeedError>)
        ensures
            match service {
                Ok(service) => {
                    &&& hex_bytes(config.seed@) == Some(service@.key)
                    &&& service@ == (ServiceView {
                        chain_id: config.chain_id@,
                        seed: config.seed@,
                        key: service@.key,
                        min_fee_zat: config.min_fee_zat,
                        net: demo_network(),
                    })
                },
                Err(SeedError::Hex(_)) => hex_bytes(config.seed@) is None,
                Err(SeedError::Length) => hex_bytes(config.seed@) is Some && hex_bytes(config.seed@)->0.len() != 32,
            },
    {
        match signing_seed(config.seed.as_str()) {
            Ok(key) => Ok(
                Service {
                    chain_id: config.chain_id.clone(),
                    seed: config.seed.clone(),
                    key,
                    min_fee_zat: config.min_fee_zat,
                    net: network(),
                },
            ),
            Err(e) => Err(e),
        }
    }
}

/// Whether a payment waits to be mined.
pub open spec fn is_pending(record: RecordView) -> bool {
    record.status == "pending"@
}

/// The transactions of the payments that wait to be mined, in order.
pub open spec fn pending_transactions(records: Seq<RecordView>) -> Seq<Seq<char>> {
    records.filter(|r: RecordView| is_pending(r)).map_values(|r: RecordView| r.raw_tx)
}

/// The pending set of a ledger, once it has seen a chain.
pub open spec fn pending_set(chain_id: Seq<char>, ledger: LedgerView) -> Option<PendingView> {
    match ledger.tip {
        Some(tip) => Some(PendingView { chain_id, tip, transactions: pending_transactions(ledger.records) }),
        None => None,
    }
}

/// Collects the pending set of a ledger.
pub fn pending(chain_id: &str, ledger: &Ledger) -> (pending: Option<Pending>)
    ensures
        crate::p2p::optional_pending(pending) == pending_set(chain_id@, ledger@),
{
    let tip = match &ledger.tip {
        Some(tip) => tip.clone(),
        None => {
            return None;
        },
    };
    let records = &ledger.records;
    let ghost all = record_views(records@);
    let ghost chosen = |r: RecordView| is_pending(r);
    let ghost raw = |r: RecordView| r.raw_tx;
    let mut transactions: Vec<String> = Vec::new();
    let mut i: usize = 0;
    proof {
        reveal(Seq::filter);
        assert(all.take(0).filter(chosen) =~= Seq::<RecordView>::empty());
        assert(texts(transactions@) =~= all.take(0).filter(chosen).map_values(raw));
    }
    while i < records.len()
        invariant
            i <= records.len(),
            all == record_views(records@),
            chosen == (|r: RecordView| is_pending(r)),
            raw == (|r: RecordView| r.raw_tx),
            texts(transactions@) == all.take(i as int).filter(chosen).map_values(raw),
        decreases records.len() - i,
    {
        let record = &records[i];
        let waits = same_text(record.status.as_str(), "pending");
        proof {
            reveal(Seq::filter);
            assert(all[i as int] == record@);
            assert(all.take(i + 1).drop_last() =~= all.take(i as int));
            assert(all.take(i + 1).last() == record@);
            assert(waits == chosen(record@));
        }
        if waits {
            let ghost before = transactions@;
            transactions.push(record.raw_tx.clone());
            proof {
                let group = all.take(i as int).filter(chosen);
                assert(all.take(i + 1).filter(chosen) == group.push(record@));
                assert(group.push(record@).map_values(raw) =~= group.map_values(raw).push(record.raw_tx@));
                assert(texts(transactions@) =~= texts(before).push(record.raw_tx@));
            }
        }
        i += 1;
    }
    assert(all.take(all.len() as int) =~= all);
    Some(Pending { chain_id: chain_id.to_string(), tip, transactions })
}

/// The number of blocks from the one that includes a payment up to the tip.
pub open spec fn confirmations(block: TipView, tip: Option<TipView>) -> u64 {
    match tip {
        Some(tip) => if tip.height >= block.height {
            (tip.height - block.height + 1) as u64
        } else {
            1
        },
        None => 0,
    }
}

/// Where a payment was mined, as JSON.
pub open spec fn inclusion_json(inclusion: Option<TipView>, tip: Option<TipView>) -> Json {
    match inclusion {
        Some(block) => Json::Object(
            fields(
                seq![
                    ("block_hash"@, Json::Text(block.hash)),
                    ("height"@, Json::Unsigned(block.height as u64)),
                    ("confirmations"@, Json::Unsigned(confirmations(block, tip))),
                ],
            ),
        ),
        None => Json::Null,
    }
}

fn inclusion_value(inclusion: &Option<Tip>, tip: &Option<Tip>) -> (value: Value)
    ensures
        json(value) == inclusion_json(optional_tip(*inclusion), optional_tip(*tip)),
{
    match inclusion {
        Some(block) => {
            let count: u64 = match tip {
                Some(tip) => tip.height.saturating_sub(block.height) as u64 + 1,
                None => 0,
            };
            let mut list = entries();
            put(&mut list, "block_hash", text(block.hash.clone()));
            put(&mut list, "height", unsigned(block.height as u64));
            put(&mut list, "confirmations", unsigned(count));
            assert(entry_views(list@) =~= seq![
                ("block_hash"@, Json::Text(block.hash@)),
                ("height"@, Json::Unsigned(block.height as u64)),
                ("confirmations"@, Json::Unsigned(count)),
            ]);
            object(list)
        },
        None => null(),
    }
}

/// What the service tells of an accepted payment, as JSON.
pub open spec fn result_json(record: RecordView, tip: Option<TipView>) -> Json {
    Json::Object(
        fields(
            seq![
                ("txid"@, Json::Text(record.txid)),
                ("status"@, Json::Text(record.status)),
                ("receipt"@, record.receipt),
                ("inclusion"@, inclusion_json(record.inclusion, tip)),
                ("failure_reason"@, optional_text_json(record.failure_reason)),
            ],
        ),
    )
}

/// Makes what the service tells of an accepted payment.
pub fn result(record: &Record, tip: &Option<Tip>) -> (value: Value)
    ensures
        json(value) == result_json(record@, optional_tip(*tip)),
{
    let mut list = entries();
    put(&mut list, "txid", text(record.txid.clone()));
    put(&mut list, "status", text(record.status.clone()));
    put(&mut list, "receipt", copy(&record.receipt));
    put(&mut list, "inclusion", inclusion_value(&record.inclusion, tip));
    put(&mut list, "failure_reason", optional_text_value(&record.failure_reason));
    assert(entry_views(list@) =~= seq![
        ("txid"@, Json::Text(record@.txid)),
        ("status"@, Json::Text(record@.status)),
        ("receipt"@, record@.receipt),
        ("inclusion"@, inclusion_json(record@.inclusion, optional_tip(*tip))),
        ("failure_reason"@, optional_text_json(record@.failure_reason)),
    ]);
    object(list)
}

/// The response to a refused call.
pub open spec fn error_json(id: Json, code: int, reason: Seq<char>, message: Seq<char>) -> Json {
    let data = Json::Object(fields(seq![("reason"@, Json::Text(reason))]));
    let error = Json::Object(
        fields(seq![("code"@, signed_json(code)), ("message"@, Json::Text(message)), ("data"@, data)]),
    );
    Json::Object(fields(seq![("jsonrpc"@, Json::Text("2.0"@)), ("id"@, id), ("error"@, error)]))
}

/// Makes the response to a refused call.
pub fn error(id: Value, code: i32, reason: &str, message: &str) -> (value: Value)
    ensures
        json(value) == error_json(json(id), code as int, reason@, message@),
{
    let mut data = entries();
    put(&mut data, "reason", text(reason.to_string()));
    assert(entry_views(data@) =~= seq![("reason"@, Json::Text(reason@))]);
    let data = object(data);
    let ghost data_json = json(data);
    let mut error = entries();
    put(&mut error, "code", signed(code));
    put(&mut error, "message", text(message.to_string()));
    put(&mut error, "data", data);
    assert(entry_views(error@) =~= seq![
        ("code"@, signed_json(code as int)),
        ("message"@, Json::Text(message@)),
        ("data"@, data_json),
    ]);
    let error = object(error);
    let ghost error_value = json(error);
    let ghost id_json = json(id);
    let mut list = entries();
    put(&mut list, "jsonrpc", text("2.0".to_string()));
    put(&mut list, "id", id);
    put(&mut list, "error", error);
    assert(entry_views(list@) =~= seq![("jsonrpc"@, Json::Text("2.0"@)), ("id"@, id_json), ("error"@, error_value)]);
    object(list)
}

/// The response to a call that went well.
pub open spec fn success_json(id: Json, result: Json) -> Json {
    Json::Object(fields(seq![("jsonrpc"@, Json::Text("2.0"@)), ("id"@, id), ("result"@, result)]))
}

/// Makes the response to a call.
pub fn respond(id: Value, outcome: Result<Value, ApiError>) -> (value: Value)
    ensures
        json(value) == match outcome {
            Ok(result) => success_json(json(id), json(result)),
            Err(e) => error_json(json(id), e.0 as int, e.1@, e.2@),
        },
{
    match outcome {
        Ok(result) => {
            let ghost id_json = json(id);
            let ghost result_value = json(result);
            let mut list = entries();
            put(&mut list, "jsonrpc", text("2.0".to_string()));
            put(&mut list, "id", id);
            put(&mut list, "result", result);
            assert(entry_views(list@) =~= seq![
                ("jsonrpc"@, Json::Text("2.0"@)),
                ("id"@, id_json),
                ("result"@, result_value),
            ]);
            object(list)
        },
        Err(e) => error(id, e.0, e.1, e.2.as_str()),
    }
}

/// A call of a merchant.
pub struct Call {
    pub id: Value,
    pub method: String,
    pub params: Value,
}

/// The identifier under which a call is answered: null where it has none.
pub open spec fn call_id(request: Json) -> Json {
    match field(request, "id"@) {
        Some(id) => id,
        None => Json::Null,
    }
}

/// Whether a request is a call with an identifier and named parameters.
pub open spec fn is_call(request: Json) -> bool {
    &&& text_field(request, "jsonrpc"@) == Some("2.0"@)
    &&& field(request, "id"@) is Some
    &&& field(request, "params"@) is Some && field(request, "params"@)->0 is Object
}

/// The method that a request names: none is the empty one.
pub open spec fn call_method(request: Json) -> Seq<char> {
    match text_field(request, "method"@) {
        Some(method) => method,
        None => ""@,
    }
}

/// Reads the body of a request. One that is no call is answered at once.
pub fn read_call(body: &[u8]) -> (call: Result<Call, Value>)
    ensures
        match json_read(body@) {
            None => call is Err && json(call->Err_0) == error_json(Json::Null, -32700, "parse_error"@, "invalid JSON"@),
            Some(request) => if is_call(request) {
                &&& call is Ok
                &&& json(call->Ok_0.id) == call_id(request)
                &&& call->Ok_0.method@ == call_method(request)
                &&& json(call->Ok_0.params) == field(request, "params"@)->0
            } else {
                &&& call is Err
                &&& json(call->Err_0) == error_json(
                    call_id(request),
                    -32600,
                    "invalid_request"@,
                    "JSON-RPC 2.0 request with named params and id required"@,
                )
            },
        },
{
    let request = match read_json(body) {
        Ok(request) => request,
        Err(_) => {
            return Err(error(null(), -32700, "parse_error", "invalid JSON"));
        },
    };
    let (id, named) = match get(&request, "id") {
        Some(id) => (copy(id), true),
        None => (null(), false),
    };
    let version = match get_text(&request, "jsonrpc") {
        Some(version) => same_text(version, "2.0"),
        None => false,
    };
    let params = match get(&request, "params") {
        Some(params) => if object_size(params).is_some() {
            Some(copy(params))
        } else {
            None
        },
        None => None,
    };
    let method = match get_text(&request, "method") {
        Some(method) => method.to_string(),
        None => "".to_string(),
    };
    match params {
        Some(params) => if version && named {
            return Ok(Call { id, method, params });
        },
        None => {},
    }
    Err(error(id, -32600, "invalid_request", "JSON-RPC 2.0 request with named params and id required"))
}

/// The only parameter of a call, which must be a text.
pub open spec fn only_text(params: Json, key: Seq<char>) -> Option<Seq<char>> {
    if params is Object && params->Object_0.len() == 1 {
        text_field(params, key)
    } else {
        None
    }
}

fn get_only_text<'a>(params: &'a Value, key: &str) -> (found: Option<&'a str>)
    ensures
        match found {
            Some(t) => only_text(json(*params), key@) == Some(t@),
            None => only_text(json(*params), key@) is None,
        },
{
    match object_size(params) {
        Some(size) => if size == 1 {
            get_text(params, key)
        } else {
            None
        },
        None => None,
    }
}

/// What the service says of itself, as JSON.
pub open spec fn info_json(service: ServiceView, store: StoreView) -> Json {
    Json::Object(
        fields(
            seq![
                ("protocol_version"@, Json::Unsigned(1)),
                ("chain_id"@, Json::Text(service.chain_id)),
                ("service_pubkey"@, Json::Text(hex_text(public_key_of(service.key)))),
                ("fee_address"@, Json::Text(unified_text(seed_address(service.seed)->0, service.net))),
                ("min_fee_zat"@, Json::Text(decimal(service.min_fee_zat as nat))),
                ("ready"@, Json::Bool(store.ready)),
                ("tip"@, optional_tip_json(store.ledger.tip)),
            ],
        ),
    )
}

fn info(service: &Service, store: &Store) -> (value: Result<Value, ApiError>)
    ensures
        match value {
            Ok(value) => seed_key(service.seed@) is Some && json(value) == info_json(service@, store@),
            Err(e) => {
                &&& seed_key(service.seed@) is None
                &&& e.0 == -32603 && e.1@ == "internal"@
                &&& key_message(service.seed@) is Some ==> e.2@ == key_message(service.seed@)->0
            },
        },
{
    let fee_address = match address(service.seed.as_str(), &service.net) {
        Ok(fee_address) => fee_address,
        Err(e) => {
            return Err(internal(e.message()));
        },
    };
    let mut list = entries();
    put(&mut list, "protocol_version", unsigned(1));
    put(&mut list, "chain_id", text(service.chain_id.clone()));
    put(&mut list, "service_pubkey", text(service_key(&service.key)));
    put(&mut list, "fee_address", text(fee_address));
    put(&mut list, "min_fee_zat", text(decimal_text(service.min_fee_zat)));
    put(&mut list, "ready", boolean(store.ready));
    put(&mut list, "tip", optional_tip_value(&store.ledger.tip));
    assert(entry_views(list@) =~= seq![
        ("protocol_version"@, Json::Unsigned(1)),
        ("chain_id"@, Json::Text(service@.chain_id)),
        ("service_pubkey"@, Json::Text(hex_text(public_key_of(service@.key)))),
        ("fee_address"@, Json::Text(unified_text(seed_address(service@.seed)->0, service@.net))),
        ("min_fee_zat"@, Json::Text(decimal(service@.min_fee_zat as nat))),
        ("ready"@, Json::Bool(store@.ready)),
        ("tip"@, optional_tip_json(store@.ledger.tip)),
    ]);
    Ok(object(list))
}

/// The position of the first payment with an identifier, from `from` on.
pub open spec fn find(records: Seq<RecordView>, from: int, txid: Seq<char>) -> Option<int>
    decreases records.len() - from,
{
    if from < 0 || from >= records.len() {
        None
    } else if records[from].txid == txid {
        Some(from)
    } else {
        find(records, from + 1, txid)
    }
}

fn find_record(records: &Vec<Record>, txid: &str) -> (found: Option<usize>)
    ensures
        match found {
            Some(i) => find(record_views(records@), 0, txid@) == Some(i as int) && i < records@.len(),
            None => find(record_views(records@), 0, txid@) is None,
        },
{
    let ghost all = record_views(records@);
    let mut i: usize = 0;
    while i < records.len()
        invariant
            i <= records.len(),
            all == record_views(records@),
            find(all, 0, txid@) == find(all, i as int, txid@),
        decreases records.len() - i,
    {
        assert(all[i as int] == records@[i as int]@);
        if same_text(records[i].txid.as_str(), txid) {
            return Some(i);
        }
        i += 1;
    }
    None
}

/// A payment that is found has the identifier; where none is found, none has it.
pub proof fn lemma_find(records: Seq<RecordView>, from: int, txid: Seq<char>)
    requires
        0 <= from <= records.len(),
    ensures
        match find(records, from, txid) {
            Some(i) => from <= i < records.len() && records[i].txid == txid,
            None => forall|i: int| from <= i < records.len() ==> (#[trigger] records[i]).txid != txid,
        },
    decreases records.len() - from,
{
    if from < records.len() {
        lemma_find(records, from + 1, txid);
    }
}

/// What a pending payment means for a new one.
pub enum Clash {
    /// They spend different notes.
    Free,
    /// They spend a common note.
    Conflict,
    /// The pending one, with this text, cannot be read.
    Unreadable(Seq<char>),
}

/// Whether two transactions spend a common note.
pub open spec fn share_note(a: TxView, b: TxView) -> bool {
    exists|nf: Seq<char>| #[trigger] spends(a, nf) && spends(b, nf)
}

/// What an accepted payment means for a new one.
pub open spec fn clash(record: RecordView, tx: TxView) -> Clash {
    if !is_pending(record) {
        Clash::Free
    } else {
        match raw_transaction(record.raw_tx) {
            Some(old) => if share_note(old, tx) {
                Clash::Conflict
            } else {
                Clash::Free
            },
            None => Clash::Unreadable(record.raw_tx),
        }
    }
}

/// What the first of the first `n` accepted payments that stands against a new one
/// means for it.
pub open spec fn first_clash(records: Seq<RecordView>, n: nat, tx: TxView) -> Clash
    decreases n,
{
    if n == 0 {
        Clash::Free
    } else {
        let before = first_clash(records, (n - 1) as nat, tx);
        if before is Free {
            clash(records[n - 1], tx)
        } else {
            before
        }
    }
}

fn shares_note(old: &Tx, nullifiers: &StringHashSet, tx: Ghost<TxView>) -> (shared: bool)
    requires
        forall|nf: Seq<char>| #[trigger] nullifiers@.contains(nf) <==> spends(tx@, nf),
    ensures
        shared == share_note(old@, tx@),
{
    let found = any_in(&old.nullifiers, nullifiers);
    proof {
        if found {
            let nf = choose|nf: Seq<char>| #[trigger] texts(old.nullifiers@).contains(nf) && nullifiers@.contains(nf);
            assert(spends(old@, nf));
        }
        if share_note(old@, tx@) {
            let nf = choose|nf: Seq<char>| #[trigger] spends(old@, nf) && spends(tx@, nf);
            assert(texts(old.nullifiers@).contains(nf) && nullifiers@.contains(nf));
        }
    }
    found
}

fn check_clash(records: &Vec<Record>, tx: &Tx) -> (free: Result<(), ApiError>)
    ensures
        match free {
            Ok(_) => first_clash(record_views(records@), records@.len(), tx@) is Free,
            Err(e) => {
                let found = first_clash(record_views(records@), records@.len(), tx@);
                ||| found is Conflict && e.0 == -32004 && e.1@ == "conflict"@ && e.2@ == "spend already reserved"@
                ||| found is Unreadable && e.0 == -32603 && e.1@ == "internal"@ && (raw_message(found->Unreadable_0) is Some
                    ==> e.2@ == raw_message(found->Unreadable_0)->0)
            },
        },
{
    let ghost all = record_views(records@);
    let mut nullifiers = StringHashSet::new();
    crate::transaction::insert_nullifiers(&mut nullifiers, tx);
    let mut i: usize = 0;
    while i < records.len()
        invariant
            i <= records.len(),
            all == record_views(records@),
            forall|nf: Seq<char>| #[trigger] nullifiers@.contains(nf) <==> spends(tx@, nf),
            first_clash(all, i as nat, tx@) is Free,
        decreases records.len() - i,
    {
        assert(all[i as int] == records@[i as int]@);
        if same_text(records[i].status.as_str(), "pending") {
            match raw_tx(records[i].raw_tx.as_str()) {
                Ok(old) => if shares_note(&old, &nullifiers, Ghost(tx@)) {
                    proof {
                        lemma_clash_stays(all, (i + 1) as nat, all.len(), tx@);
                    }
                    return Err((-32004, "conflict", "spend already reserved".to_string()));
                },
                Err(e) => {
                    proof {
                        lemma_clash_stays(all, (i + 1) as nat, all.len(), tx@);
                    }
                    return Err(internal(e.message()));
                },
            }
        }
        i += 1;
    }
    Ok(())
}

proof fn lemma_clash_stays(records: Seq<RecordView>, i: nat, n: nat, tx: TxView)
    requires
        i <= n,
        !(first_clash(records, i, tx) is Free),
    ensures
        first_clash(records, n, tx) == first_clash(records, i, tx),
    decreases n,
{
    if i < n {
        lemma_clash_stays(records, i, (n - 1) as nat, tx);
    }
}

/// A payment that has passed the first checks and must now be verified by a node.
pub struct Submission {
    pub raw: String,
    pub tx: Tx,
    pub tip: Tip,
}

/// What a call comes to.
pub enum Answer {
    /// Its result.
    Done(Value),
    /// A payment that a node has to verify.
    Verify(Submission),
}

/// What a call comes to. A refusal has a message of its own, except where it passes
/// on the words of another library.
pub enum AnswerView {
    Done(Json),
    Verify { raw: Seq<char>, tx: TxView, tip: TipView },
    Refused { code: int, reason: Seq<char>, message: Option<Seq<char>> },
}

/// A refusal with a message of its own.
pub open spec fn refused(code: int, reason: Seq<char>, message: Seq<char>) -> AnswerView {
    AnswerView::Refused { code, reason, message: Some(message) }
}

/// The answer to a question about an accepted payment.
pub open spec fn answer_get(store: StoreView, params: Json) -> AnswerView {
    match only_text(params, "txid"@) {
        None => refused(-32602, "invalid_params"@, "txid required"@),
        Some(txid) => match find(store.ledger.records, 0, txid) {
            Some(i) => AnswerView::Done(result_json(store.ledger.records[i], store.ledger.tip)),
            None => refused(-32006, "not_found"@, "unknown txid"@),
        },
    }
}

/// The answer to a submitted payment, before a node has verified it. One that was
/// accepted before is answered as it was; any other waits for the ledger to be
/// reconciled with the best block of the node, and must not spend a note of a pending
/// payment.
pub open spec fn answer_submit(store: StoreView, params: Json, best_hash: Option<Seq<char>>) -> AnswerView {
    let records = store.ledger.records;
    match only_text(params, "raw_tx"@) {
        None => refused(-32602, "invalid_params"@, "raw_tx required"@),
        Some(raw) => match raw_transaction(raw) {
            None => AnswerView::Refused { code: -32002, reason: "invalid_tx"@, message: raw_message(raw) },
            Some(tx) => match find(records, 0, tx.txid) {
                Some(i) => AnswerView::Done(result_json(records[i], store.ledger.tip)),
                None => if !store.ready || tip_hash(store.ledger.tip) != best_hash {
                    refused(-32001, "not_ready"@, "chain reconciliation pending"@)
                } else if store.ledger.tip is None {
                    refused(-32001, "not_ready"@, "chain not ready"@)
                } else {
                    match first_clash(records, records.len(), tx) {
                        Clash::Free => AnswerView::Verify { raw, tx, tip: store.ledger.tip->0 },
                        Clash::Conflict => refused(-32004, "conflict"@, "spend already reserved"@),
                        Clash::Unreadable(old) => AnswerView::Refused {
                            code: -32603,
                            reason: "internal"@,
                            message: raw_message(old),
                        },
                    }
                },
            },
        },
    }
}

/// The hash of an optional block.
pub open spec fn tip_hash(tip: Option<TipView>) -> Option<Seq<char>> {
    match tip {
        Some(tip) => Some(tip.hash),
        None => None,
    }
}

/// The answer to a call.
pub open spec fn answer(
    service: ServiceView,
    store: StoreView,
    method: Seq<char>,
    params: Json,
    best_hash: Option<Seq<char>>,
) -> AnswerView {
    if method == "preconf_info"@ {
        if !(params is Object && params->Object_0.len() == 0) {
            refused(-32602, "invalid_params"@, "no parameters expected"@)
        } else if seed_key(service.seed) is None {
            AnswerView::Refused { code: -32603, reason: "internal"@, message: key_message(service.seed) }
        } else {
            AnswerView::Done(info_json(service, store))
        }
    } else if method == "preconf_get"@ {
        answer_get(store, params)
    } else if method == "preconf_submit"@ {
        answer_submit(store, params, best_hash)
    } else {
        refused(-32601, "method_not_found"@, "unknown method"@)
    }
}

/// Whether an outcome is the one that an answer describes.
pub open spec fn agrees(outcome: Result<Answer, ApiError>, answer: AnswerView) -> bool {
    match outcome {
        Ok(Answer::Done(value)) => answer == AnswerView::Done(json(value)),
        Ok(Answer::Verify(s)) => answer == (AnswerView::Verify { raw: s.raw@, tx: s.tx@, tip: s.tip@ }),
        Err(e) => {
            &&& answer is Refused
            &&& e.0 == answer->code
            &&& e.1@ == answer->reason
            &&& answer->message is Some ==> e.2@ == answer->message->0
        },
    }
}

fn submit(store: &Store, params: &Value, best_hash: Option<&str>) -> (outcome: Result<Answer, ApiError>)
    ensures
        agrees(outcome, answer_submit(store@, json(*params), saved_text(best_hash))),
{
    let raw = match get_only_text(params, "raw_tx") {
        Some(raw) => raw,
        None => {
            return Err((-32602, "invalid_params", "raw_tx required".to_string()));
        },
    };
    let tx = match raw_tx(raw) {
        Ok(tx) => tx,
        Err(e) => {
            return Err((-32002, "invalid_tx", e.message()));
        },
    };
    let records = &store.ledger.records;
    if let Some(i) = find_record(records, tx.txid.as_str()) {
        assert(store@.ledger.records[i as int] == records@[i as int]@);
        return Ok(Answer::Done(result(&records[i], &store.ledger.tip)));
    }
    let known: Option<&str> = match &store.ledger.tip {
        Some(tip) => Some(tip.hash.as_str()),
        None => None,
    };
    if !store.ready || !same_optional(known, best_hash) {
        return Err((-32001, "not_ready", "chain reconciliation pending".to_string()));
    }
    let tip = match &store.ledger.tip {
        Some(tip) => tip.clone(),
        None => {
            return Err((-32001, "not_ready", "chain not ready".to_string()));
        },
    };
    if let Err(e) = check_clash(records, &tx) {
        return Err(e);
    }
    Ok(Answer::Verify(Submission { raw: raw.to_string(), tx, tip }))
}

/// Answers a call of a merchant as far as that is possible without a node's verdict.
/// `best_hash` is the best block of the node.
pub fn dispatch(service: &Service, store: &Store, method: &str, params: &Value, best_hash: Option<&str>) -> (outcome: Result<
    Answer,
    ApiError,
>)
    ensures
        agrees(outcome, answer(service@, store@, method@, json(*params), saved_text(best_hash))),
{
    if same_text(method, "preconf_info") {
        let empty = match object_size(params) {
            Some(size) => size == 0,
            None => false,
        };
        if !empty {
            return Err((-32602, "invalid_params", "no parameters expected".to_string()));
        }
        match info(service, store) {
            Ok(value) => Ok(Answer::Done(value)),
            Err(e) => Err(e),
        }
    } else if same_text(method, "preconf_get") {
        let txid = match get_only_text(params, "txid") {
            Some(txid) => txid,
            None => {
                return Err((-32602, "invalid_params", "txid required".to_string()));
            },
        };
        match find_record(&store.ledger.records, txid) {
            Some(i) => {
                assert(store@.ledger.records[i as int] == store.ledger.records@[i as int]@);
                Ok(Answer::Done(result(&store.ledger.records[i], &store.ledger.tip)))
            },
            None => Err((-32006, "not_found", "unknown txid".to_string())),
        }
    } else if same_text(method, "preconf_submit") {
        submit(store, params, best_hash)
    } else {
        Err((-32601, "method_not_found", "unknown method".to_string()))
    }
}

/// The record of a payment that is accepted with a fee.
pub open spec fn accepted_record(service: ServiceView, raw: Seq<char>, txid: Seq<char>, fee: u64) -> RecordView {
    RecordView {
        txid,
        raw_tx: raw,
        fee,
        receipt: issued_json(service.key, service.chain_id, txid, fee),
        status: "pending"@,
        inclusion: None,
        failure_reason: None,
    }
}

/// A payment that was accepted: what has to be saved, and what the merchant is told
/// once it was.
pub struct Accepted {
    pub event: Event,
    pub response: Value,
}

/// What the payment pays to the service.
pub open spec fn service_fee(service: ServiceView, tx: TxView, tip: TipView) -> Option<Seq<u64>> {
    payments_to(tx.bytes, service.seed, service.net, (tip.height + 1) as u32)
}

/// Whether the pending set has room for one more transaction.
pub open spec fn has_room(chain_id: Seq<char>, ledger: LedgerView, raw: Seq<char>) -> bool {
    let now = pending_set(chain_id, ledger)->0;
    pending_bytes(PendingView { transactions: now.transactions.push(raw), ..now }).len() <= CAP
}

/// Why a verified payment is refused, if it is: the chain has moved on, it does not
/// pay the fee, or the pending set is full.
pub open spec fn refusal(
    service: ServiceView,
    store: StoreView,
    raw: Seq<char>,
    tx: TxView,
    tip: TipView,
    valid: bool,
    best_hash: Option<Seq<char>>,
) -> Option<AnswerView> {
    let paid = service_fee(service, tx, tip);
    if !valid {
        Some(AnswerView::Refused { code: -32002, reason: "invalid_tx"@, message: None })
    } else if best_hash != Some(tip.hash) {
        Some(refused(-32001, "not_ready"@, "tip changed during validation"@))
    } else if paid is None || sum(paid->0) > u64::MAX {
        let message = received_message(tx.bytes, service.seed, service.net, (tip.height + 1) as u32);
        Some(AnswerView::Refused { code: -32603, reason: "internal"@, message })
    } else if sum(paid->0) < service.min_fee_zat {
        Some(refused(-32003, "fee_too_low"@, "insufficient service fee"@))
    } else if store.ledger.tip is None {
        Some(refused(-32603, "internal"@, "missing tip"@))
    } else if !has_room(service.chain_id, store.ledger, raw) {
        Some(refused(-32005, "pending_full"@, "pending set at capacity"@))
    } else {
        None
    }
}

impl Store {
    /// Accepts a payment that a node has verified, or refuses it and leaves the ledger
    /// as it was. `verified` is the node's verdict, and `best_hash` its best block
    /// after it gave it.
    pub fn accept(
        &mut self,
        service: &Service,
        submission: &Submission,
        verified: Result<(), String>,
        best_hash: Option<&str>,
    ) -> (outcome: Result<Accepted, ApiError>)
        requires
            submission.tip.height < u32::MAX,
        ensures
            ({
                let tx = submission.tx@;
                let tip = submission.tip@;
                let reason = refusal(
                    service@,
                    old(self)@,
                    submission.raw@,
                    tx,
                    tip,
                    verified is Ok,
                    saved_text(best_hash),
                );
                match outcome {
                    Ok(accepted) => {
                        let fee = sum(service_fee(service@, tx, tip)->0) as u64;
                        let record = accepted_record(service@, submission.raw@, tx.txid, fee);
                        &&& reason is None
                        &&& final(self)@ == (StoreView {
                            ledger: LedgerView {
                                records: old(self)@.ledger.records.push(record),
                                ..old(self)@.ledger
                            },
                            ..old(self)@
                        })
                        &&& accepted.event@ == (EventView::Accepted { txid: tx.txid, fee })
                        &&& json(accepted.response) == result_json(record, Some(tip))
                    },
                    Err(e) => {
                        &&& reason is Some
                        &&& e.0 == reason->0->code
                        &&& e.1@ == reason->0->reason
                        &&& reason->0->message is Some ==> e.2@ == reason->0->message->0
                        &&& verified is Err ==> e.2@ == verified->Err_0@
                        &&& final(self)@ == old(self)@
                    },
                }
            }),
    {
        if let Err(words) = verified {
            return Err((-32002, "invalid_tx", words));
        }
        if !same_optional(best_hash, Some(submission.tip.hash.as_str())) {
            return Err((-32001, "not_ready", "tip changed during validation".to_string()));
        }
        let fee = match received(&submission.tx, service.seed.as_str(), &service.net, submission.tip.height + 1) {
            Ok(fee) => fee,
            Err(e) => {
                return Err(internal(e.message()));
            },
        };
        if fee < service.min_fee_zat {
            return Err((-32003, "fee_too_low", "insufficient service fee".to_string()));
        }
        let mut waiting = match pending(service.chain_id.as_str(), &self.ledger) {
            Some(waiting) => waiting,
            None => {
                return Err(internal("missing tip".to_string()));
            },
        };
        let ghost now = waiting@;
        waiting.transactions.push(submission.raw.clone());
        assert(waiting@ =~= (PendingView { transactions: now.transactions.push(submission.raw@), ..now }));
        let size = match waiting.to_message() {
            Ok(message) => message.len(),
            Err(words) => {
                return Err(internal(words));
            },
        };
        if size > CAP {
            return Err((-32005, "pending_full", "pending set at capacity".to_string()));
        }
        let txid = submission.tx.txid.clone();
        let receipt = match issue_receipt(&service.key, service.chain_id.as_str(), txid.as_str(), fee) {
            Ok(receipt) => receipt,
            Err(words) => {
                return Err(internal(words));
            },
        };
        let record = Record {
            txid: txid.clone(),
            raw_tx: submission.raw.clone(),
            fee,
            receipt,
            status: "pending".to_string(),
            inclusion: None,
            failure_reason: None,
        };
        let tip = Some(submission.tip.clone());
        let response = result(&record, &tip);
        let ghost before = self.ledger.records@;
        self.ledger.records.push(record);
        assert(record_views(self.ledger.records@) =~= record_views(before).push(record@));
        Ok(Accepted { event: Event::Accepted { txid, fee }, response })
    }

    /// Takes back the payment that was accepted last, since it could not be saved. The
    /// service is not ready until the next reconciliation.
    pub fn withdraw(&mut self)
        ensures
            final(self)@.ready == false,
            final(self)@.recovering == old(self)@.recovering,
            final(self)@.ledger.tip == old(self)@.ledger.tip,
            final(self)@.ledger.payouts == old(self)@.ledger.payouts,
            final(self)@.ledger.records == if old(self)@.ledger.records.len() > 0 {
                old(self)@.ledger.records.drop_last()
            } else {
                old(self)@.ledger.records
            },
    {
        let ghost before = self.ledger.records@;
        let _ = self.ledger.records.pop();
        self.ready = false;
        assert(before.len() > 0 ==> record_views(self.ledger.records@) =~= record_views(before).drop_last());
    }
}

/// A payment that was accepted is answered the same way every time it is submitted,
/// whether or not the service is ready, and the ledger stays as it is.
pub proof fn law_accepted_payments_are_answered_again(
    service: ServiceView,
    store: StoreView,
    params: Json,
    best_hash: Option<Seq<char>>,
    i: int,
)
    requires
        distinct_txids(store.ledger.records),
        0 <= i < store.ledger.records.len(),
        only_text(params, "raw_tx"@) is Some,
        raw_transaction(only_text(params, "raw_tx"@)->0) is Some,
        raw_transaction(only_text(params, "raw_tx"@)->0)->0.txid == store.ledger.records[i].txid,
    ensures
        answer(service, store, "preconf_submit"@, params, best_hash) == AnswerView::Done(
            result_json(store.ledger.records[i], store.ledger.tip),
        ),
{
    lemma_methods_differ();
    lemma_found_once(store.ledger.records, store.ledger.records[i].txid, i);
}

/// A payment that was accepted is found by its identifier.
pub proof fn law_accepted_payments_are_found(
    service: ServiceView,
    store: StoreView,
    params: Json,
    best_hash: Option<Seq<char>>,
    i: int,
)
    requires
        distinct_txids(store.ledger.records),
        0 <= i < store.ledger.records.len(),
        only_text(params, "txid"@) == Some(store.ledger.records[i].txid),
    ensures
        answer(service, store, "preconf_get"@, params, best_hash) == AnswerView::Done(
            result_json(store.ledger.records[i], store.ledger.tip),
        ),
{
    lemma_methods_differ();
    lemma_found_once(store.ledger.records, store.ledger.records[i].txid, i);
}

proof fn lemma_methods_differ()
    ensures
        "preconf_info"@ != "preconf_get"@,
        "preconf_info"@ != "preconf_submit"@,
        "preconf_get"@ != "preconf_submit"@,
{
    reveal_strlit("preconf_info");
    reveal_strlit("preconf_get");
    reveal_strlit("preconf_submit");
    assert("preconf_info"@.len() == 12 && "preconf_get"@.len() == 11 && "preconf_submit"@.len() == 14);
}

proof fn lemma_found_once(records: Seq<RecordView>, txid: Seq<char>, i: int)
    requires
        distinct_txids(records),
        0 <= i < records.len(),
        records[i].txid == txid,
    ensures
        find(records, 0, txid) == Some(i),
{
    lemma_find(records, 0, txid);
    if find(records, 0, txid) is Some {
        let k = find(records, 0, txid)->0;
        if k < i {
            assert(records[k].txid != records[i].txid);
        } else if i < k {
            assert(records[i].txid != records[k].txid);
        }
    }
}

/// The ledger with one more accepted payment.
pub open spec fn extended(ledger: LedgerView, record: RecordView) -> LedgerView {
    LedgerView { records: ledger.records.push(record), ..ledger }
}

/// A payment that is sent on to be verified is new, so accepting it keeps the ledger
/// in order: no payment is in it twice.
pub proof fn law_acceptance_keeps_the_ledger_sound(
    service: ServiceView,
    store: StoreView,
    params: Json,
    best_hash: Option<Seq<char>>,
    fee: u64,
)
    requires
        store.ledger.sound(),
        answer_submit(store, params, best_hash) is Verify,
    ensures
        ({
            let submission = answer_submit(store, params, best_hash);
            let record = accepted_record(service, submission->raw, submission->tx.txid, fee);
            extended(store.ledger, record).sound()
        }),
{
    let submission = answer_submit(store, params, best_hash);
    let record = accepted_record(service, submission->raw, submission->tx.txid, fee);
    let before = store.ledger.records;
    let after = before.push(record);
    lemma_find(before, 0, record.txid);
    assert forall|i: int, j: int| 0 <= i < j < after.len() implies (#[trigger] after[i]).txid != (
    #[trigger] after[j]).txid by {
        assert(after[i] == before[i]);
        if j < before.len() {
            assert(after[j] == before[j]);
        }
    }
    let payload = payload_bytes(service.chain_id, record.txid, fee);
    lemma_receipt_fields(payload, signature_of(service.key, signed_message(payload)));
    crate::json::lemma_plain_deeper(record.receipt, 1, 90);
    assert forall|i: int| 0 <= i < after.len() implies is_plain((#[trigger] after[i]).receipt, 90) by {
        if i < before.len() {
            assert(after[i] == before[i]);
        }
    }
}

/// Whether no two pending payments spend a common note, and all can be read.
pub open spec fn no_double_spend(records: Seq<RecordView>) -> bool {
    &&& forall|i: int|
        0 <= i < records.len() && is_pending(#[trigger] records[i]) ==> raw_transaction(records[i].raw_tx) is Some
    &&& forall|i: int, j: int|
        0 <= i < j < records.len() && is_pending(#[trigger] records[i]) && is_pending(#[trigger] records[j])
            ==> !share_note(raw_transaction(records[i].raw_tx)->0, raw_transaction(records[j].raw_tx)->0)
}

proof fn lemma_free(records: Seq<RecordView>, n: nat, tx: TxView)
    requires
        n <= records.len(),
        first_clash(records, n, tx) is Free,
    ensures
        forall|i: int| 0 <= i < n ==> clash(#[trigger] records[i], tx) is Free,
    decreases n,
{
    if n > 0 {
        lemma_free(records, (n - 1) as nat, tx);
    }
}

/// The service never accepts a payment that spends a note of a pending one: if no two
/// pending payments spend a common note, none do after another was accepted.
pub proof fn law_acceptance_admits_no_double_spend(
    service: ServiceView,
    store: StoreView,
    params: Json,
    best_hash: Option<Seq<char>>,
    fee: u64,
)
    requires
        no_double_spend(store.ledger.records),
        answer_submit(store, params, best_hash) is Verify,
    ensures
        ({
            let submission = answer_submit(store, params, best_hash);
            let record = accepted_record(service, submission->raw, submission->tx.txid, fee);
            no_double_spend(extended(store.ledger, record).records)
        }),
{
    let submission = answer_submit(store, params, best_hash);
    let record = accepted_record(service, submission->raw, submission->tx.txid, fee);
    let before = store.ledger.records;
    let after = before.push(record);
    lemma_free(before, before.len(), submission->tx);
    assert forall|i: int| 0 <= i < after.len() && is_pending(#[trigger] after[i]) implies raw_transaction(
        after[i].raw_tx,
    ) is Some by {
        if i < before.len() {
            assert(after[i] == before[i]);
        }
    }
    assert forall|i: int, j: int|
        0 <= i < j < after.len() && is_pending(#[trigger] after[i]) && is_pending(
            #[trigger] after[j],
        ) implies !share_note(raw_transaction(after[i].raw_tx)->0, raw_transaction(after[j].raw_tx)->0) by {
        assert(after[i] == before[i]);
        if j < before.len() {
            assert(after[j] == before[j]);
        } else {
            assert(clash(before[i], submission->tx) is Free);
        }
    }
}

/// A payment that was accepted and could not be saved leaves no trace in the ledger.
pub proof fn law_withdrawn_payments_leave_no_trace(ledger: LedgerView, record: RecordView)
    ensures
        extended(ledger, record).records.drop_last() == ledger.records,
{
    assert(ledger.records.push(record).drop_last() =~= ledger.records);
}

/// A payment is accepted only if a node found it valid for the block after the best
/// one, it pays at least the least service fee, and the pending set with it still
/// fits into a message.
pub proof fn law_acceptance_is_paid_for(
    service: ServiceView,
    store: StoreView,
    raw: Seq<char>,
    tx: TxView,
    tip: TipView,
    valid: bool,
    best_hash: Option<Seq<char>>,
)
    requires
        refusal(service, store, raw, tx, tip, valid, best_hash) is None,
    ensures
        valid,
        best_hash == Some(tip.hash),
        service_fee(service, tx, tip) is Some,
        service.min_fee_zat <= sum(service_fee(service, tx, tip)->0) <= u64::MAX,
        has_room(service.chain_id, store.ledger, raw),
{
}

} // verus!
