//! The ledger as it is saved: one JSON text, from which a restart recovers it.

use crate::json::{
    array, entries, entry_views, fields, get_member, has_members, is_null, is_plain, is_record, json, json_optional_text,
    json_read, json_text, json_texts, json_unsigned, json_written, jsons, lemma_fields, lemma_fields_plain,
    lemma_plain_deeper, member, null, object, optional_json, optional_text_json, optional_text_value, put, read_json,
    read_optional_text, read_text, read_texts, read_unsigned, text, texts_json, texts_value, unsigned, write_json, Json,
};
use crate::ledger::{
    empty_ledger, optional_tip, payout_views, record_views, Ledger, LedgerView, Payout, PayoutView, Record, RecordView,
    Store, Tip, TipView,
};
use crate::p2p::{json_tip, lemma_texts_read_back, lemma_tip_reads_back, read_tip, tip_json, tip_value};
use serde_json::Value;
use vstd::prelude::*;
use vstd::utf8::encode_utf8;

verus! {

/// An optional block as JSON: null where there is none.
pub open spec fn optional_tip_json(tip: Option<TipView>) -> Json {
    match tip {
        Some(tip) => tip_json(tip),
        None => Json::Null,
    }
}

/// Makes the JSON value of an optional block.
pub(crate) fn optional_tip_value(tip: &Option<Tip>) -> (value: Value)
    ensures
        json(value) == optional_tip_json(optional_tip(*tip)),
{
    match tip {
        Some(tip) => tip_value(tip),
        None => null(),
    }
}

/// The block that a member stands for, where nothing and null stand for none.
pub open spec fn json_optional_tip(value: Option<Json>) -> Option<Option<TipView>> {
    match value {
        None => Some(None),
        Some(Json::Null) => Some(None),
        Some(value) => match json_tip(value) {
            Some(tip) => Some(Some(tip)),
            None => None,
        },
    }
}

fn read_optional_tip(value: Option<&Value>) -> (found: Option<Option<Tip>>)
    ensures
        match found {
            Some(tip) => json_optional_tip(optional_json(value)) == Some(optional_tip(tip)),
            None => json_optional_tip(optional_json(value)) is None,
        },
{
    match value {
        Some(v) => if is_null(v) {
            Some(None)
        } else {
            match read_tip(v) {
                Some(tip) => Some(Some(tip)),
                None => None,
            }
        },
        None => Some(None),
    }
}

/// The entries of an accepted payment.
pub open spec fn record_entries(record: RecordView) -> Seq<(Seq<char>, Json)> {
    seq![
        ("txid"@, Json::Text(record.txid)),
        ("raw_tx"@, Json::Text(record.raw_tx)),
        ("fee"@, Json::Unsigned(record.fee)),
        ("receipt"@, record.receipt),
        ("status"@, Json::Text(record.status)),
        ("inclusion"@, optional_tip_json(record.inclusion)),
        ("failure_reason"@, optional_text_json(record.failure_reason)),
    ]
}

/// An accepted payment as JSON.
pub open spec fn record_json(record: RecordView) -> Json {
    Json::Object(fields(record_entries(record)))
}

fn record_value(record: &Record) -> (value: Value)
    ensures
        json(value) == record_json(record@),
{
    let mut list = entries();
    put(&mut list, "txid", text(record.txid.clone()));
    put(&mut list, "raw_tx", text(record.raw_tx.clone()));
    put(&mut list, "fee", unsigned(record.fee));
    put(&mut list, "receipt", crate::json::copy(&record.receipt));
    put(&mut list, "status", text(record.status.clone()));
    put(&mut list, "inclusion", optional_tip_value(&record.inclusion));
    put(&mut list, "failure_reason", optional_text_value(&record.failure_reason));
    assert(entry_views(list@) =~= record_entries(record@));
    object(list)
}

/// The accepted payment that a JSON value stands for.
pub open spec fn json_record(value: Json) -> Option<RecordView> {
    let txid = json_text(member(value, "txid"@, 0, 7));
    let raw_tx = json_text(member(value, "raw_tx"@, 1, 7));
    let fee = json_unsigned(member(value, "fee"@, 2, 7));
    let receipt = member(value, "receipt"@, 3, 7);
    let status = json_text(member(value, "status"@, 4, 7));
    let inclusion = json_optional_tip(member(value, "inclusion"@, 5, 7));
    let failure_reason = json_optional_text(member(value, "failure_reason"@, 6, 7));
    if is_record(value, 7) && txid is Some && raw_tx is Some && fee is Some && receipt is Some && status is Some
        && inclusion is Some && failure_reason is Some {
        Some(
            RecordView {
                txid: txid->0,
                raw_tx: raw_tx->0,
                fee: fee->0,
                receipt: receipt->0,
                status: status->0,
                inclusion: inclusion->0,
                failure_reason: failure_reason->0,
            },
        )
    } else {
        None
    }
}

fn read_record(value: &Value) -> (record: Option<Record>)
    ensures
        match record {
            Some(record) => json_record(json(*value)) == Some(record@),
            None => json_record(json(*value)) is None,
        },
{
    if !has_members(value, 7) {
        return None;
    }
    let txid = read_text(get_member(value, "txid", 0, 7));
    let raw_tx = read_text(get_member(value, "raw_tx", 1, 7));
    let fee = read_unsigned(get_member(value, "fee", 2, 7));
    let receipt = get_member(value, "receipt", 3, 7);
    let status = read_text(get_member(value, "status", 4, 7));
    let inclusion = read_optional_tip(get_member(value, "inclusion", 5, 7));
    let failure_reason = read_optional_text(get_member(value, "failure_reason", 6, 7));
    match (txid, raw_tx, fee, receipt, status, inclusion, failure_reason) {
        (Some(txid), Some(raw_tx), Some(fee), Some(receipt), Some(status), Some(inclusion), Some(failure_reason)) => Some(
            Record { txid, raw_tx, fee, receipt: crate::json::copy(receipt), status, inclusion, failure_reason },
        ),
        _ => None,
    }
}

/// The entries of a payout.
pub open spec fn payout_entries(payout: PayoutView) -> Seq<(Seq<char>, Json)> {
    seq![
        ("block"@, tip_json(payout.block)),
        ("address"@, Json::Text(payout.address)),
        ("amount"@, Json::Unsigned(payout.amount)),
        ("txids"@, texts_json(payout.txids)),
        ("raw_tx"@, optional_text_json(payout.raw_tx)),
        ("txid"@, optional_text_json(payout.txid)),
        ("status"@, Json::Text(payout.status)),
        ("reason"@, optional_text_json(payout.reason)),
    ]
}

/// A payout as JSON.
pub open spec fn payout_json(payout: PayoutView) -> Json {
    Json::Object(fields(payout_entries(payout)))
}

fn payout_value(payout: &Payout) -> (value: Value)
    ensures
        json(value) == payout_json(payout@),
{
    let mut list = entries();
    put(&mut list, "block", tip_value(&payout.block));
    put(&mut list, "address", text(payout.address.clone()));
    put(&mut list, "amount", unsigned(payout.amount));
    put(&mut list, "txids", texts_value(&payout.txids));
    put(&mut list, "raw_tx", optional_text_value(&payout.raw_tx));
    put(&mut list, "txid", optional_text_value(&payout.txid));
    put(&mut list, "status", text(payout.status.clone()));
    put(&mut list, "reason", optional_text_value(&payout.reason));
    assert(entry_views(list@) =~= payout_entries(payout@));
    object(list)
}

/// The payout that a JSON value stands for.
pub open spec fn json_payout(value: Json) -> Option<PayoutView> {
    let block = member(value, "block"@, 0, 8);
    let address = json_text(member(value, "address"@, 1, 8));
    let amount = json_unsigned(member(value, "amount"@, 2, 8));
    let txids = member(value, "txids"@, 3, 8);
    let raw_tx = json_optional_text(member(value, "raw_tx"@, 4, 8));
    let txid = json_optional_text(member(value, "txid"@, 5, 8));
    let status = json_text(member(value, "status"@, 6, 8));
    let reason = json_optional_text(member(value, "reason"@, 7, 8));
    if is_record(value, 8) && block is Some && json_tip(block->0) is Some && address is Some && amount is Some && txids is Some
        && json_texts(txids->0) is Some && raw_tx is Some && txid is Some && status is Some && reason is Some {
        Some(
            PayoutView {
                block: json_tip(block->0)->0,
                address: address->0,
                amount: amount->0,
                txids: json_texts(txids->0)->0,
                raw_tx: raw_tx->0,
                txid: txid->0,
                status: status->0,
                reason: reason->0,
            },
        )
    } else {
        None
    }
}

fn read_payout(value: &Value) -> (payout: Option<Payout>)
    ensures
        match payout {
            Some(payout) => json_payout(json(*value)) == Some(payout@),
            None => json_payout(json(*value)) is None,
        },
{
    if !has_members(value, 8) {
        return None;
    }
    let block = match get_member(value, "block", 0, 8) {
        Some(block) => read_tip(block),
        None => None,
    };
    let address = read_text(get_member(value, "address", 1, 8));
    let amount = read_unsigned(get_member(value, "amount", 2, 8));
    let txids = match get_member(value, "txids", 3, 8) {
        Some(txids) => read_texts(txids),
        None => None,
    };
    let raw_tx = read_optional_text(get_member(value, "raw_tx", 4, 8));
    let txid = read_optional_text(get_member(value, "txid", 5, 8));
    let status = read_text(get_member(value, "status", 6, 8));
    let reason = read_optional_text(get_member(value, "reason", 7, 8));
    match (block, address, amount, txids, raw_tx, txid, status, reason) {
        (
            Some(block),
            Some(address),
            Some(amount),
            Some(txids),
            Some(raw_tx),
            Some(txid),
            Some(status),
            Some(reason),
        ) => Some(Payout { block, address, amount, txids, raw_tx, txid, status, reason }),
        _ => None,
    }
}

/// A list of accepted payments as JSON.
pub open spec fn records_json(records: Seq<RecordView>) -> Json {
    Json::Array(records.map_values(|r: RecordView| record_json(r)))
}

/// A list of payouts as JSON.
pub open spec fn payouts_json(payouts: Seq<PayoutView>) -> Json {
    Json::Array(payouts.map_values(|p: PayoutView| payout_json(p)))
}

/// The list of accepted payments that a JSON value stands for.
pub open spec fn json_records(value: Json) -> Option<Seq<RecordView>> {
    match value {
        Json::Array(items) => if forall|i: int| 0 <= i < items.len() ==> json_record(#[trigger] items[i]) is Some {
            Some(items.map_values(|item: Json| json_record(item)->0))
        } else {
            None
        },
        _ => None,
    }
}

/// The list of payouts that a JSON value stands for.
pub open spec fn json_payouts(value: Json) -> Option<Seq<PayoutView>> {
    match value {
        Json::Array(items) => if forall|i: int| 0 <= i < items.len() ==> json_payout(#[trigger] items[i]) is Some {
            Some(items.map_values(|item: Json| json_payout(item)->0))
        } else {
            None
        },
        _ => None,
    }
}

fn records_value(records: &Vec<Record>) -> (value: Value)
    ensures
        json(value) == records_json(record_views(records@)),
{
    let ghost all = record_views(records@).map_values(|r: RecordView| record_json(r));
    let mut items: Vec<Value> = Vec::new();
    let mut i: usize = 0;
    while i < records.len()
        invariant
            i <= records.len(),
            all == record_views(records@).map_values(|r: RecordView| record_json(r)),
            jsons(items@) =~= all.take(i as int),
        decreases records.len() - i,
    {
        let ghost before = items@;
        items.push(record_value(&records[i]));
        assert(jsons(items@) =~= jsons(before).push(record_json(records@[i as int]@)));
        assert(all.take(i + 1) =~= all.take(i as int).push(all[i as int]));
        i += 1;
    }
    assert(all.take(i as int) =~= all);
    array(items)
}

fn payouts_value(payouts: &Vec<Payout>) -> (value: Value)
    ensures
        json(value) == payouts_json(payout_views(payouts@)),
{
    let ghost all = payout_views(payouts@).map_values(|p: PayoutView| payout_json(p));
    let mut items: Vec<Value> = Vec::new();
    let mut i: usize = 0;
    while i < payouts.len()
        invariant
            i <= payouts.len(),
            all == payout_views(payouts@).map_values(|p: PayoutView| payout_json(p)),
            jsons(items@) =~= all.take(i as int),
        decreases payouts.len() - i,
    {
        let ghost before = items@;
        items.push(payout_value(&payouts[i]));
        assert(jsons(items@) =~= jsons(before).push(payout_json(payouts@[i as int]@)));
        assert(all.take(i + 1) =~= all.take(i as int).push(all[i as int]));
        i += 1;
    }
    assert(all.take(i as int) =~= all);
    array(items)
}

fn read_records(value: &Value) -> (records: Option<Vec<Record>>)
    ensures
        match records {
            Some(records) => json_records(json(*value)) == Some(record_views(records@)),
            None => json_records(json(*value)) is None,
        },
{
    let items = match crate::json::as_items(value) {
        Some(items) => items,
        None => {
            return None;
        },
    };
    let ghost all = jsons(items@);
    let mut records: Vec<Record> = Vec::new();
    let mut i: usize = 0;
    while i < items.len()
        invariant
            i <= items.len(),
            all == jsons(items@),
            json(*value) == Json::Array(all),
            records@.len() == i,
            forall|k: int| 0 <= k < i ==> json_record(#[trigger] all[k]) == Some(records@[k]@),
        decreases items.len() - i,
    {
        assert(all[i as int] == json(items@[i as int]));
        match read_record(&items[i]) {
            Some(record) => {
                records.push(record);
            },
            None => {
                return None;
            },
        }
        i += 1;
    }
    assert(all.map_values(|item: Json| json_record(item)->0) =~= record_views(records@));
    Some(records)
}

fn read_payouts(value: &Value) -> (payouts: Option<Vec<Payout>>)
    ensures
        match payouts {
            Some(payouts) => json_payouts(json(*value)) == Some(payout_views(payouts@)),
            None => json_payouts(json(*value)) is None,
        },
{
    let items = match crate::json::as_items(value) {
        Some(items) => items,
        None => {
            return None;
        },
    };
    let ghost all = jsons(items@);
    let mut payouts: Vec<Payout> = Vec::new();
    let mut i: usize = 0;
    while i < items.len()
        invariant
            i <= items.len(),
            all == jsons(items@),
            json(*value) == Json::Array(all),
            payouts@.len() == i,
            forall|k: int| 0 <= k < i ==> json_payout(#[trigger] all[k]) == Some(payouts@[k]@),
        decreases items.len() - i,
    {
        assert(all[i as int] == json(items@[i as int]));
        match read_payout(&items[i]) {
            Some(payout) => {
                payouts.push(payout);
            },
            None => {
                return None;
            },
        }
        i += 1;
    }
    assert(all.map_values(|item: Json| json_payout(item)->0) =~= payout_views(payouts@));
    Some(payouts)
}

/// The entries of the ledger.
pub open spec fn ledger_entries(ledger: LedgerView) -> Seq<(Seq<char>, Json)> {
    seq![
        ("tip"@, optional_tip_json(ledger.tip)),
        ("records"@, records_json(ledger.records)),
        ("payouts"@, payouts_json(ledger.payouts)),
    ]
}

/// The ledger as JSON.
pub open spec fn ledger_json(ledger: LedgerView) -> Json {
    Json::Object(fields(ledger_entries(ledger)))
}

/// Makes the JSON value of the ledger.
pub(crate) fn ledger_value(ledger: &Ledger) -> (value: Value)
    ensures
        json(value) == ledger_json(ledger@),
{
    let mut list = entries();
    put(&mut list, "tip", optional_tip_value(&ledger.tip));
    put(&mut list, "records", records_value(&ledger.records));
    put(&mut list, "payouts", payouts_value(&ledger.payouts));
    assert(entry_views(list@) =~= ledger_entries(ledger@));
    object(list)
}

/// The ledger that a JSON value stands for.
pub open spec fn json_ledger(value: Json) -> Option<LedgerView> {
    let tip = json_optional_tip(member(value, "tip"@, 0, 3));
    let records = member(value, "records"@, 1, 3);
    let payouts = member(value, "payouts"@, 2, 3);
    if is_record(value, 3) && tip is Some && records is Some && json_records(records->0) is Some && payouts is Some
        && json_payouts(payouts->0) is Some {
        Some(LedgerView { tip: tip->0, records: json_records(records->0)->0, payouts: json_payouts(payouts->0)->0 })
    } else {
        None
    }
}

/// The ledger that a saved text stands for.
pub open spec fn ledger_read(saved: Seq<char>) -> Option<LedgerView> {
    match json_read(encode_utf8(saved)) {
        Some(value) => json_ledger(value),
        None => None,
    }
}

/// Whether every receipt of the ledger is made of texts, integers and the like, as
/// those of the service are.
pub open spec fn plain_receipts(ledger: LedgerView) -> bool {
    forall|i: int| 0 <= i < ledger.records.len() ==> is_plain((#[trigger] ledger.records[i]).receipt, 90)
}

proof fn lemma_record_reads_back(record: RecordView)
    requires
        is_plain(record.receipt, 90),
    ensures
        json_record(record_json(record)) == Some(record),
        is_plain(record_json(record), 91),
{
    crate::json::lemma_raw_key();
    reveal_strlit("txid");
    reveal_strlit("raw_tx");
    reveal_strlit("fee");
    reveal_strlit("receipt");
    reveal_strlit("status");
    reveal_strlit("inclusion");
    reveal_strlit("failure_reason");
    let list = record_entries(record);
    assert("txid"@.len() == 4 && "raw_tx"@.len() == 6 && "fee"@.len() == 3 && "receipt"@.len() == 7);
    assert("status"@.len() == 6 && "inclusion"@.len() == 9 && "failure_reason"@.len() == 14);
    assert("raw_tx"@[0] != "status"@[0]);
    assert(crate::json::distinct_keys(list));
    lemma_fields(list);
    assert(list[0].0 == "txid"@ && list[1].0 == "raw_tx"@ && list[2].0 == "fee"@ && list[3].0 == "receipt"@);
    assert(list[4].0 == "status"@ && list[5].0 == "inclusion"@ && list[6].0 == "failure_reason"@);
    if record.inclusion is Some {
        lemma_tip_reads_back(record.inclusion->0);
        lemma_plain_deeper(tip_json(record.inclusion->0), 2, 90);
    }
    lemma_fields_plain(list, 90);
}

proof fn lemma_payout_reads_back(payout: PayoutView)
    ensures
        json_payout(payout_json(payout)) == Some(payout),
        is_plain(payout_json(payout), 91),
{
    crate::json::lemma_raw_key();
    reveal_strlit("block");
    reveal_strlit("address");
    reveal_strlit("amount");
    reveal_strlit("txids");
    reveal_strlit("raw_tx");
    reveal_strlit("txid");
    reveal_strlit("status");
    reveal_strlit("reason");
    let list = payout_entries(payout);
    assert("block"@.len() == 5 && "address"@.len() == 7 && "amount"@.len() == 6 && "txids"@.len() == 5);
    assert("raw_tx"@.len() == 6 && "txid"@.len() == 4 && "status"@.len() == 6 && "reason"@.len() == 6);
    assert("block"@[0] != "txids"@[0]);
    assert("amount"@[0] != "raw_tx"@[0] && "amount"@[0] != "status"@[0] && "amount"@[0] != "reason"@[0]);
    assert("raw_tx"@[0] != "status"@[0] && "raw_tx"@[1] != "reason"@[1] && "status"@[0] != "reason"@[0]);
    assert(crate::json::distinct_keys(list));
    lemma_fields(list);
    assert(list[0].0 == "block"@ && list[1].0 == "address"@ && list[2].0 == "amount"@ && list[3].0 == "txids"@);
    assert(list[4].0 == "raw_tx"@ && list[5].0 == "txid"@ && list[6].0 == "status"@ && list[7].0 == "reason"@);
    lemma_tip_reads_back(payout.block);
    lemma_plain_deeper(tip_json(payout.block), 2, 90);
    lemma_texts_read_back(payout.txids);
    lemma_plain_deeper(texts_json(payout.txids), 2, 90);
    lemma_fields_plain(list, 90);
}

proof fn lemma_ledger_reads_back(ledger: LedgerView)
    requires
        plain_receipts(ledger),
    ensures
        json_ledger(ledger_json(ledger)) == Some(ledger),
        is_plain(ledger_json(ledger), 100),
{
    crate::json::lemma_raw_key();
    reveal_strlit("tip");
    reveal_strlit("records");
    reveal_strlit("payouts");
    let list = ledger_entries(ledger);
    assert("tip"@.len() == 3 && "records"@.len() == 7 && "payouts"@.len() == 7);
    assert("records"@[0] != "payouts"@[0]);
    assert(crate::json::distinct_keys(list));
    lemma_fields(list);
    assert(list[0].0 == "tip"@ && list[1].0 == "records"@ && list[2].0 == "payouts"@);
    if ledger.tip is Some {
        lemma_tip_reads_back(ledger.tip->0);
        lemma_plain_deeper(tip_json(ledger.tip->0), 2, 92);
    }
    let records = ledger.records.map_values(|r: RecordView| record_json(r));
    assert forall|i: int| 0 <= i < records.len() implies json_record(#[trigger] records[i]) == Some(ledger.records[i])
        && is_plain(records[i], 91) by {
        lemma_record_reads_back(ledger.records[i]);
    }
    assert(records.map_values(|item: Json| json_record(item)->0) =~= ledger.records);
    let payouts = ledger.payouts.map_values(|p: PayoutView| payout_json(p));
    assert forall|i: int| 0 <= i < payouts.len() implies json_payout(#[trigger] payouts[i]) == Some(ledger.payouts[i])
        && is_plain(payouts[i], 91) by {
        lemma_payout_reads_back(ledger.payouts[i]);
    }
    assert(payouts.map_values(|item: Json| json_payout(item)->0) =~= ledger.payouts);
    assert(is_plain(Json::Array(records), 92));
    assert(is_plain(Json::Array(payouts), 92));
    lemma_fields_plain(list, 92);
    lemma_plain_deeper(ledger_json(ledger), 93, 100);
}

impl Ledger {
    /// Writes the text under which the ledger is saved. Nothing is lost: it is read
    /// back as it was, receipts and payouts included.
    pub fn to_text(&self) -> (saved: Result<String, String>)
        ensures
            saved is Ok,
            encode_utf8(saved->Ok_0@) == json_written(ledger_json(self@)),
            plain_receipts(self@) ==> ledger_read(saved->Ok_0@) == Some(self@),
    {
        proof {
            if plain_receipts(self@) {
                lemma_ledger_reads_back(self@);
            }
        }
        write_json(&ledger_value(self))
    }

    /// Reads a saved ledger.
    pub fn from_text(saved: &str) -> (ledger: Result<Ledger, String>)
        ensures
            match ledger {
                Ok(ledger) => ledger_read(saved@) == Some(ledger@),
                Err(words) => {
                    &&& ledger_read(saved@) is None
                    &&& json_read(encode_utf8(saved@)) is Some ==> words@ == "invalid ledger"@
                },
            },
    {
        let value = match read_json(saved.as_bytes()) {
            Ok(value) => value,
            Err(words) => {
                return Err(words);
            },
        };
        if !has_members(&value, 3) {
            return Err("invalid ledger".to_string());
        }
        let tip = read_optional_tip(get_member(&value, "tip", 0, 3));
        let records = match get_member(&value, "records", 1, 3) {
            Some(records) => read_records(records),
            None => None,
        };
        let payouts = match get_member(&value, "payouts", 2, 3) {
            Some(payouts) => read_payouts(payouts),
            None => None,
        };
        match (tip, records, payouts) {
            (Some(tip), Some(records), Some(payouts)) => Ok(Ledger { tip, records, payouts }),
            _ => Err("invalid ledger".to_string()),
        }
    }
}

/// The characters of an optional slice.
pub open spec fn saved_text(saved: Option<&str>) -> Option<Seq<char>> {
    match saved {
        Some(text) => Some(text@),
        None => None,
    }
}

/// The ledger from which a service starts: the one that was saved, or an empty one.
pub open spec fn recovered(saved: Option<Seq<char>>) -> Option<LedgerView> {
    match saved {
        Some(text) => ledger_read(text),
        None => Some(empty_ledger()),
    }
}

impl Store {
    /// Starts from the ledger that was last saved, or from an empty one. Nothing is
    /// accepted before the ledger has been reconciled with the chain.
    pub fn open(saved: Option<&str>) -> (store: Result<Store, String>)
        ensures
            match store {
                Ok(store) => {
                    &&& recovered(saved_text(saved)) == Some(store@.ledger)
                    &&& !store.ready
                    &&& store.recovering
                },
                Err(words) => {
                    &&& recovered(saved_text(saved)) is None
                    &&& saved is Some && json_read(encode_utf8(saved->0@)) is Some ==> words@ == "invalid ledger"@
                },
            },
    {
        let ledger = match saved {
            Some(text) => match Ledger::from_text(text) {
                Ok(ledger) => ledger,
                Err(words) => {
                    return Err(words);
                },
            },
            None => Ledger::default(),
        };
        Ok(Store { ledger, ready: false, recovering: true })
    }
}

} // verus!
