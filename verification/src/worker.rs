//! The wallet worker: requests for payments, and what is written back.

use crate::json::{
    array, as_bool, copy, entries, entry_views, field, fields, get, get_text, json, json_read, jsons, null, object, put, text,
    text_field, unsigned, unsigned_field, Json,
};
use crate::amount::sum;
use crate::transaction::{is_raw_error, raw_transaction, raw_tx, RawTxError};
use crate::wallet::keys::KeyError;
use crate::wallet::payment::output_views;
use crate::wallet::scan::{is_received_error, payments_to, received, ReceivedError};
use serde_json::Value;
use vstd::hash_set::StringHashSet;
use vstd::prelude::*;
use vstd::string::StringExecFns;
use vstd::utf8::encode_utf8;
use zakura_chain::parameters::Network;

verus! {

/// The network fee of a payment, where none is named.
pub const DEFAULT_FEE: u64 = 20000;

/// How much more a conflicting payment offers.
pub const CONFLICT_PREMIUM: u64 = 100000;

/// An address and an amount.
pub open spec fn json_output(value: Json) -> Option<(Seq<char>, u64)> {
    match value {
        Json::Array(items) => if items.len() == 2 && items[0] is Text && items[1] is Unsigned {
            Some((items[0]->Text_0, items[1]->Unsigned_0))
        } else {
            None
        },
        _ => None,
    }
}

/// A list of addresses and amounts.
pub open spec fn json_outputs(value: Json) -> Option<Seq<(Seq<char>, u64)>> {
    match value {
        Json::Array(items) => if forall|i: int| 0 <= i < items.len() ==> json_output(#[trigger] items[i]) is Some {
            Some(items.map_values(|item: Json| json_output(item)->0))
        } else {
            None
        },
        _ => None,
    }
}

/// Calls `from_value` of `serde_json` for a list of pairs of a text and a number. It
/// reads an array of arrays of two, each a text and a number that fits into 64 bits
/// without a sign, and nothing else. No claim is made of the words in which it rejects
/// a value.
#[verifier::external_body]
fn outputs_from(value: Value) -> (outputs: Result<Vec<(String, u64)>, String>)
    ensures
        match outputs {
            Ok(outputs) => json_outputs(json(value)) == Some(output_views(outputs@)),
            Err(_) => json_outputs(json(value)) is None,
        },
{
    serde_json::from_value(value).map_err(|e| e.to_string())
}

/// The list of pairs of a text and a number that `serde_json` reads from a text, given
/// by its bytes.
pub uninterp spec fn pairs_read(bytes: Seq<u8>) -> Option<Seq<(Seq<char>, u64)>>;

/// Calls `from_str` of `serde_json` for a list of pairs of a text and a number. What it
/// reads depends on the text alone, and the text has the same value if no type is
/// prescribed. No claim is made of the words in which it rejects a text.
#[verifier::external_body]
fn parse_outputs(written: &str) -> (outputs: Result<Vec<(String, u64)>, String>)
    ensures
        match outputs {
            Ok(outputs) => {
                &&& pairs_read(encode_utf8(written@)) == Some(output_views(outputs@))
                &&& json_read(encode_utf8(written@)) is Some
                &&& json_outputs(json_read(encode_utf8(written@))->0) == Some(output_views(outputs@))
            },
            Err(_) => pairs_read(encode_utf8(written@)) is None,
        },
{
    serde_json::from_str(written).map_err(|e| e.to_string())
}

/// Reads a list of addresses and amounts.
pub fn read_outputs(written: &str) -> (outputs: Result<Vec<(String, u64)>, String>)
    ensures
        match outputs {
            Ok(outputs) => {
                &&& pairs_read(encode_utf8(written@)) == Some(output_views(outputs@))
                &&& json_read(encode_utf8(written@)) is Some
                &&& json_outputs(json_read(encode_utf8(written@))->0) == Some(output_views(outputs@))
            },
            Err(_) => pairs_read(encode_utf8(written@)) is None,
        },
{
    parse_outputs(written)
}

/// The list of values that `serde_json` reads from a text, given by its bytes.
pub uninterp spec fn values_read(bytes: Seq<u8>) -> Option<Seq<Json>>;

/// Calls `from_str` of `serde_json` for a list of values. What it reads depends on the
/// text alone, and the text has the same value if no type is prescribed. No claim is
/// made of the words in which it rejects a text.
#[verifier::external_body]
fn parse_requests(line: &str) -> (requests: Result<Vec<Value>, String>)
    ensures
        match requests {
            Ok(requests) => {
                &&& values_read(encode_utf8(line@)) == Some(jsons(requests@))
                &&& json_read(encode_utf8(line@)) == Some(Json::Array(jsons(requests@)))
            },
            Err(_) => values_read(encode_utf8(line@)) is None,
        },
{
    serde_json::from_str(line).map_err(|e| e.to_string())
}

/// Reads a line of requests: a list.
pub fn read_requests(line: &str) -> (requests: Result<Vec<Value>, String>)
    ensures
        match requests {
            Ok(requests) => {
                &&& values_read(encode_utf8(line@)) == Some(jsons(requests@))
                &&& json_read(encode_utf8(line@)) == Some(Json::Array(jsons(requests@)))
            },
            Err(_) => values_read(encode_utf8(line@)) is None,
        },
{
    parse_requests(line)
}

/// A payment that is to be made: from which seed, to whom, at which fee, and from
/// which note, where that is prescribed.
#[derive(Debug, PartialEq)]
pub struct Order {
    pub seed: String,
    pub outputs: Vec<(String, u64)>,
    pub fee: u64,
    pub input: Option<String>,
}

/// Why a request is no order.
#[derive(Debug, PartialEq)]
pub enum OrderError {
    /// It names no seed.
    Seed,
    /// It has no list of addresses and amounts.
    Outputs(String),
}

impl OrderError {
    /// The error in words.
    pub fn message(&self) -> (text: String)
        ensures
            text@ == match *self {
                OrderError::Seed => "seed"@,
                OrderError::Outputs(words) => words@,
            },
    {
        match self {
            OrderError::Seed => "seed".to_string(),
            OrderError::Outputs(words) => words.clone(),
        }
    }
}

/// The addresses and amounts of a request.
pub open spec fn requested_outputs(request: Json) -> Option<Seq<(Seq<char>, u64)>> {
    match field(request, "outputs"@) {
        Some(value) => json_outputs(value),
        None => None,
    }
}

/// The fee of a request.
pub open spec fn requested_fee(request: Json) -> u64 {
    match unsigned_field(request, "fee"@) {
        Some(fee) => fee,
        None => DEFAULT_FEE,
    }
}

/// Whether a request asks for a second payment that conflicts with the first.
pub open spec fn wants_conflict(request: Json) -> bool {
    field(request, "conflict"@) == Some(Json::Bool(true))
}

impl Order {
    /// Reads the order of a request.
    pub fn read(request: &Value) -> (order: Result<Order, OrderError>)
        ensures
            match order {
                Ok(order) => {
                    &&& text_field(json(*request), "seed"@) == Some(order.seed@)
                    &&& requested_outputs(json(*request)) == Some(output_views(order.outputs@))
                    &&& order.fee == requested_fee(json(*request))
                    &&& order.input is None
                },
                Err(OrderError::Seed) => text_field(json(*request), "seed"@) is None,
                Err(OrderError::Outputs(_)) => {
                    &&& text_field(json(*request), "seed"@) is Some
                    &&& requested_outputs(json(*request)) is None
                },
            },
    {
        let seed = match get_text(request, "seed") {
            Some(seed) => seed.to_string(),
            None => {
                return Err(OrderError::Seed);
            },
        };
        let value = match get(request, "outputs") {
            Some(value) => copy(value),
            None => null(),
        };
        let outputs = match outputs_from(value) {
            Ok(outputs) => outputs,
            Err(words) => {
                return Err(OrderError::Outputs(words));
            },
        };
        let fee = match crate::json::get_unsigned(request, "fee") {
            Some(fee) => fee,
            None => DEFAULT_FEE,
        };
        Ok(Order { seed, outputs, fee, input: None })
    }

    /// The order of a payment that spends the same note at a higher fee, where the
    /// request asks for one. `input_nf` is the nullifier that the first payment
    /// reveals.
    pub fn conflicting(&self, request: &Value, input_nf: &str) -> (order: Option<Order>)
        requires
            wants_conflict(json(*request)) ==> self.fee <= u64::MAX - CONFLICT_PREMIUM,
        ensures
            match order {
                Some(order) => {
                    &&& wants_conflict(json(*request))
                    &&& order.seed@ == self.seed@
                    &&& output_views(order.outputs@) == output_views(self.outputs@)
                    &&& order.fee == self.fee + CONFLICT_PREMIUM
                    &&& order.input is Some && order.input->0@ == "nf:"@ + input_nf@
                },
                None => !wants_conflict(json(*request)),
            },
    {
        let wanted = match get(request, "conflict") {
            Some(value) => match as_bool(value) {
                Some(wanted) => wanted,
                None => false,
            },
            None => false,
        };
        if !wanted {
            return None;
        }
        let mut input = "nf:".to_string();
        input.append(input_nf);
        let mut outputs: Vec<(String, u64)> = Vec::new();
        let mut i: usize = 0;
        while i < self.outputs.len()
            invariant
                i <= self.outputs.len(),
                outputs@.len() == i,
                forall|k: int|
                    0 <= k < i ==> (#[trigger] outputs@[k]).0@ == self.outputs@[k].0@ && outputs@[k].1 == self.outputs@[k].1,
            decreases self.outputs.len() - i,
        {
            outputs.push((self.outputs[i].0.clone(), self.outputs[i].1));
            i += 1;
        }
        assert(output_views(outputs@) =~= output_views(self.outputs@));
        Some(Order { seed: self.seed.clone(), outputs, fee: self.fee + CONFLICT_PREMIUM, input: Some(input) })
    }
}

/// The nullifiers of notes that payments must leave alone.
pub type Reserved = StringHashSet;

/// The notes that payments must leave alone: none yet.
pub fn unreserved() -> (reserved: Reserved)
    ensures
        reserved@ == Set::<Seq<char>>::empty(),
{
    StringHashSet::new()
}

/// Has later payments leave the note alone that a payment spends.
pub fn reserve(reserved: &mut Reserved, payment: &Built)
    ensures
        final(reserved)@ == old(reserved)@.insert(payment.input_nf@),
{
    reserved.insert(payment.input_nf.clone());
}

/// A payment that was built: its transaction, and the note that it spends.
#[derive(Debug, PartialEq)]
pub struct Built {
    pub raw_tx: String,
    pub txid: String,
    pub input_txid: String,
    pub input_nf: String,
}

/// A payment that was built, as JSON.
pub open spec fn built_json(raw_tx: Seq<char>, txid: Seq<char>, input_txid: Seq<char>, input_nf: Seq<char>) -> Json {
    Json::Object(
        fields(
            seq![
                ("raw_tx"@, Json::Text(raw_tx)),
                ("txid"@, Json::Text(txid)),
                ("input_txid"@, Json::Text(input_txid)),
                ("input_nf"@, Json::Text(input_nf)),
            ],
        ),
    )
}

impl Built {
    /// Makes the JSON value of the payment.
    pub fn to_value(&self) -> (value: Value)
        ensures
            json(value) == built_json(self.raw_tx@, self.txid@, self.input_txid@, self.input_nf@),
    {
        let mut list = entries();
        put(&mut list, "raw_tx", text(self.raw_tx.clone()));
        put(&mut list, "txid", text(self.txid.clone()));
        put(&mut list, "input_txid", text(self.input_txid.clone()));
        put(&mut list, "input_nf", text(self.input_nf.clone()));
        assert(entry_views(list@) =~= seq![
            ("raw_tx"@, Json::Text(self.raw_tx@)),
            ("txid"@, Json::Text(self.txid@)),
            ("input_txid"@, Json::Text(self.input_txid@)),
            ("input_nf"@, Json::Text(self.input_nf@)),
        ]);
        object(list)
    }
}

/// What is written back for one request.
pub open spec fn item_json(payment: Json, conflict: Option<Json>) -> Json {
    Json::Object(
        fields(
            match conflict {
                Some(conflict) => seq![("payment"@, payment), ("conflict"@, conflict)],
                None => seq![("payment"@, payment)],
            },
        ),
    )
}

/// Makes what is written back for one request.
pub fn item(payment: &Built, conflict: &Option<Built>) -> (value: Value)
    ensures
        ({
            let first = built_json(payment.raw_tx@, payment.txid@, payment.input_txid@, payment.input_nf@);
            json(value) == match *conflict {
                Some(c) => item_json(first, Some(built_json(c.raw_tx@, c.txid@, c.input_txid@, c.input_nf@))),
                None => item_json(first, None),
            }
        }),
{
    let ghost first = built_json(payment.raw_tx@, payment.txid@, payment.input_txid@, payment.input_nf@);
    let mut list = entries();
    put(&mut list, "payment", payment.to_value());
    match conflict {
        Some(c) => {
            put(&mut list, "conflict", c.to_value());
            assert(entry_views(list@) =~= seq![
                ("payment"@, first),
                ("conflict"@, built_json(c.raw_tx@, c.txid@, c.input_txid@, c.input_nf@)),
            ]);
        },
        None => {
            assert(entry_views(list@) =~= seq![("payment"@, first)]);
        },
    }
    object(list)
}

/// Makes what is written back for a line of requests: the items, or an error.
pub fn reply(items: Result<Vec<Value>, String>) -> (value: Value)
    ensures
        json(value) == match items {
            Ok(items) => Json::Object(fields(seq![("result"@, Json::Array(jsons(items@)))])),
            Err(words) => Json::Object(fields(seq![("error"@, Json::Text(words@))])),
        },
{
    let mut list = entries();
    match items {
        Ok(items) => {
            let ghost all = jsons(items@);
            put(&mut list, "result", array(items));
            assert(entry_views(list@) =~= seq![("result"@, Json::Array(all))]);
        },
        Err(words) => {
            put(&mut list, "error", text(words));
            assert(entry_views(list@) =~= seq![("error"@, Json::Text(words@))]);
        },
    }
    object(list)
}

/// Why a transaction cannot be inspected.
#[derive(Debug, PartialEq)]
pub enum InspectError {
    /// It cannot be read.
    Raw(RawTxError),
    /// What it pays is unknown.
    Received(ReceivedError),
}

impl InspectError {
    /// The error in words.
    pub fn message(&self) -> (text: String)
        ensures
            match *self {
                InspectError::Raw(RawTxError::Hex(words)) => text@ == words@,
                InspectError::Raw(RawTxError::Malformed(words)) => text@ == words@,
                InspectError::Raw(RawTxError::Trailing) => text@ == "trailing transaction bytes"@,
                InspectError::Received(ReceivedError::Malformed(words)) => text@ == words@,
                InspectError::Received(ReceivedError::Overflow) => text@ == "amount overflow"@,
                InspectError::Received(ReceivedError::Key(KeyError::Hex(words))) => text@ == words@,
                InspectError::Received(ReceivedError::Key(KeyError::Length)) => text@ == "seed must be 32 bytes"@,
                InspectError::Received(ReceivedError::Key(KeyError::Invalid)) => text@ == "invalid spending key"@,
            },
    {
        match self {
            InspectError::Raw(e) => e.message(),
            InspectError::Received(e) => e.message(),
        }
    }
}

/// Tells the identifier of a transaction, and what it pays to a seed in the first
/// block.
pub fn inspect(raw: &str, seed: &str, net: &Network) -> (value: Result<Value, InspectError>)
    ensures
        match value {
            Ok(value) => {
                let tx = raw_transaction(raw@)->0;
                let paid = payments_to(tx.bytes, seed@, *net, 1);
                &&& raw_transaction(raw@) is Some
                &&& paid is Some && sum(paid->0) <= u64::MAX
                &&& json(value) == Json::Object(
                    fields(
                        seq![("txid"@, Json::Text(tx.txid)), ("received_zat"@, Json::Unsigned(sum(paid->0) as u64))],
                    ),
                )
            },
            Err(InspectError::Raw(e)) => is_raw_error(e, raw@),
            Err(InspectError::Received(e)) => {
                &&& raw_transaction(raw@) is Some
                &&& is_received_error(e, raw_transaction(raw@)->0.bytes, seed@, *net, 1)
            },
        },
{
    let tx = match raw_tx(raw) {
        Ok(tx) => tx,
        Err(e) => {
            return Err(InspectError::Raw(e));
        },
    };
    let amount = match received(&tx, seed, net, 1) {
        Ok(amount) => amount,
        Err(e) => {
            return Err(InspectError::Received(e));
        },
    };
    let mut list = entries();
    put(&mut list, "txid", text(tx.txid.clone()));
    put(&mut list, "received_zat", unsigned(amount));
    assert(entry_views(list@) =~= seq![("txid"@, Json::Text(tx.txid@)), ("received_zat"@, Json::Unsigned(amount))]);
    Ok(object(list))
}

} // verus!
