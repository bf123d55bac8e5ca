//! The durable state of the service: the payments it accepted, the receipts it gave
//! for them, and the payouts it owes to miners.

use crate::json::{copy, json, Json};
use crate::text::{optional_text, texts};
use serde_json::Value;
use vstd::prelude::*;

verus! {

/// A block, by its height and its hash.
#[derive(Debug, PartialEq)]
pub struct Tip {
    pub height: u32,
    pub hash: String,
}

#[verifier::ext_equal]
pub struct TipView {
    pub height: u32,
    pub hash: Seq<char>,
}

impl View for Tip {
    type V = TipView;

    open spec fn view(&self) -> TipView {
        TipView { height: self.height, hash: self.hash@ }
    }
}

impl Clone for Tip {
    fn clone(&self) -> (copy: Self)
        ensures
            copy@ == self@,
    {
        Tip { height: self.height, hash: self.hash.clone() }
    }
}

/// The model of an optional block.
pub open spec fn optional_tip(tip: Option<Tip>) -> Option<TipView> {
    match tip {
        Some(t) => Some(t@),
        None => None,
    }
}

pub fn copy_tip(tip: &Option<Tip>) -> (copy: Option<Tip>)
    ensures
        optional_tip(copy) == optional_tip(*tip),
{
    match tip {
        Some(t) => Some(t.clone()),
        None => None,
    }
}

/// A payment that the service accepted, with the receipt that it gave for it. Its
/// status is `pending`, `included` or `failed`.
#[derive(Debug, PartialEq)]
pub struct Record {
    pub txid: String,
    pub raw_tx: String,
    pub fee: u64,
    pub receipt: Value,
    pub status: String,
    pub inclusion: Option<Tip>,
    pub failure_reason: Option<String>,
}

#[verifier::ext_equal]
pub struct RecordView {
    pub txid: Seq<char>,
    pub raw_tx: Seq<char>,
    pub fee: u64,
    pub receipt: Json,
    pub status: Seq<char>,
    pub inclusion: Option<TipView>,
    pub failure_reason: Option<Seq<char>>,
}

impl View for Record {
    type V = RecordView;

    open spec fn view(&self) -> RecordView {
        RecordView {
            txid: self.txid@,
            raw_tx: self.raw_tx@,
            fee: self.fee,
            receipt: json(self.receipt),
            status: self.status@,
            inclusion: optional_tip(self.inclusion),
            failure_reason: optional_text(self.failure_reason),
        }
    }
}

impl Clone for Record {
    fn clone(&self) -> (copy: Self)
        ensures
            copy@ == self@,
    {
        Record {
            txid: self.txid.clone(),
            raw_tx: self.raw_tx.clone(),
            fee: self.fee,
            receipt: copy(&self.receipt),
            status: self.status.clone(),
            inclusion: copy_tip(&self.inclusion),
            failure_reason: self.failure_reason.clone(),
        }
    }
}

/// What the service owes to the miner of one block, for the payments it included.
/// Its status is `waiting`, `broadcast`, `confirmed` or `blocked`.
#[derive(Debug, PartialEq)]
pub struct Payout {
    pub block: Tip,
    pub address: String,
    pub amount: u64,
    pub txids: Vec<String>,
    pub raw_tx: Option<String>,
    pub txid: Option<String>,
    pub status: String,
    pub reason: Option<String>,
}

#[verifier::ext_equal]
pub struct PayoutView {
    pub block: TipView,
    pub address: Seq<char>,
    pub amount: u64,
    pub txids: Seq<Seq<char>>,
    pub raw_tx: Option<Seq<char>>,
    pub txid: Option<Seq<char>>,
    pub status: Seq<char>,
    pub reason: Option<Seq<char>>,
}

impl View for Payout {
    type V = PayoutView;

    open spec fn view(&self) -> PayoutView {
        PayoutView {
            block: self.block@,
            address: self.address@,
            amount: self.amount,
            txids: texts(self.txids@),
            raw_tx: optional_text(self.raw_tx),
            txid: optional_text(self.txid),
            status: self.status@,
            reason: optional_text(self.reason),
        }
    }
}

impl Clone for Payout {
    fn clone(&self) -> (copy: Self)
        ensures
            copy@ == self@,
    {
        Payout {
            block: self.block.clone(),
            address: self.address.clone(),
            amount: self.amount,
            txids: self.txids.clone(),
            raw_tx: self.raw_tx.clone(),
            txid: self.txid.clone(),
            status: self.status.clone(),
            reason: self.reason.clone(),
        }
    }
}

/// The models of a list of records.
pub open spec fn record_views(records: Seq<Record>) -> Seq<RecordView> {
    records.map_values(|r: Record| r@)
}

/// The models of a list of payouts.
pub open spec fn payout_views(payouts: Seq<Payout>) -> Seq<PayoutView> {
    payouts.map_values(|p: Payout| p@)
}

/// Everything that outlives a restart.
#[derive(Debug, PartialEq)]
pub struct Ledger {
    pub tip: Option<Tip>,
    pub records: Vec<Record>,
    pub payouts: Vec<Payout>,
}

#[verifier::ext_equal]
pub struct LedgerView {
    pub tip: Option<TipView>,
    pub records: Seq<RecordView>,
    pub payouts: Seq<PayoutView>,
}

impl View for Ledger {
    type V = LedgerView;

    open spec fn view(&self) -> LedgerView {
        LedgerView {
            tip: optional_tip(self.tip),
            records: record_views(self.records@),
            payouts: payout_views(self.payouts@),
        }
    }
}

/// The ledger of a service that has seen nothing yet.
pub open spec fn empty_ledger() -> LedgerView {
    LedgerView { tip: None, records: Seq::empty(), payouts: Seq::empty() }
}

impl Default for Ledger {
    fn default() -> (ledger: Self)
        ensures
            ledger@ == empty_ledger(),
    {
        let ledger = Ledger { tip: None, records: Vec::new(), payouts: Vec::new() };
        assert(ledger@ =~= empty_ledger());
        ledger
    }
}

/// The ledger in memory. The service accepts payments only while it is `ready`;
/// it is `recovering` from its start until the first reconciliation with the chain.
#[derive(Debug, PartialEq)]
pub struct Store {
    pub ledger: Ledger,
    pub ready: bool,
    pub recovering: bool,
}

#[verifier::ext_equal]
pub struct StoreView {
    pub ledger: LedgerView,
    pub ready: bool,
    pub recovering: bool,
}

impl View for Store {
    type V = StoreView;

    open spec fn view(&self) -> StoreView {
        StoreView { ledger: self.ledger@, ready: self.ready, recovering: self.recovering }
    }
}

} // verus!
