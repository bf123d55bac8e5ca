//! What the service writes down with every change of the ledger.

use crate::json::{entries, entry_views, fields, json, object, optional_text_json, optional_text_value, put, text, unsigned, Json};
use crate::ledger::{Tip, TipView};
use crate::p2p::{tip_json, tip_value};
use crate::text::optional_text;
use serde_json::Value;
use vstd::prelude::*;

verus! {

/// A change of the ledger that must be saved before anything else happens.
#[derive(Debug, PartialEq)]
pub enum Event {
    /// A payment was accepted.
    Accepted { txid: String, fee: u64 },
    /// The ledger was reconciled with a chain.
    Reconciled { tip: Tip },
    /// A payout was signed.
    PayoutSigned { block_hash: String, txid: String, amount: u64 },
    /// A payout was blocked.
    PayoutBlocked { block_hash: String },
    /// A payout was found on its way.
    PayoutRecovered { block_hash: String },
    /// A payout was sent.
    PayoutBroadcast { block_hash: String, sent: Option<String> },
}

#[verifier::ext_equal]
pub enum EventView {
    Accepted { txid: Seq<char>, fee: u64 },
    Reconciled { tip: TipView },
    PayoutSigned { block_hash: Seq<char>, txid: Seq<char>, amount: u64 },
    PayoutBlocked { block_hash: Seq<char> },
    PayoutRecovered { block_hash: Seq<char> },
    PayoutBroadcast { block_hash: Seq<char>, sent: Option<Seq<char>> },
}

impl View for Event {
    type V = EventView;

    open spec fn view(&self) -> EventView {
        match *self {
            Event::Accepted { txid, fee } => EventView::Accepted { txid: txid@, fee },
            Event::Reconciled { tip } => EventView::Reconciled { tip: tip@ },
            Event::PayoutSigned { block_hash, txid, amount } => EventView::PayoutSigned {
                block_hash: block_hash@,
                txid: txid@,
                amount,
            },
            Event::PayoutBlocked { block_hash } => EventView::PayoutBlocked { block_hash: block_hash@ },
            Event::PayoutRecovered { block_hash } => EventView::PayoutRecovered { block_hash: block_hash@ },
            Event::PayoutBroadcast { block_hash, sent } => EventView::PayoutBroadcast {
                block_hash: block_hash@,
                sent: optional_text(sent),
            },
        }
    }
}

/// The model of an optional event.
pub open spec fn optional_event(event: Option<Event>) -> Option<EventView> {
    match event {
        Some(event) => Some(event@),
        None => None,
    }
}

impl EventView {
    /// What is written down of an event, beside its kind.
    pub open spec fn data(self) -> Json {
        Json::Object(
            fields(
                match self {
                    EventView::Accepted { txid, fee } => seq![
                        ("txid"@, Json::Text(txid)),
                        ("fee_zat"@, Json::Unsigned(fee)),
                    ],
                    EventView::Reconciled { tip } => seq![("tip"@, tip_json(tip))],
                    EventView::PayoutSigned { block_hash, txid, amount } => seq![
                        ("block_hash"@, Json::Text(block_hash)),
                        ("txid"@, Json::Text(txid)),
                        ("amount_zat"@, Json::Unsigned(amount)),
                    ],
                    EventView::PayoutBlocked { block_hash } => seq![("block_hash"@, Json::Text(block_hash))],
                    EventView::PayoutRecovered { block_hash } => seq![("block_hash"@, Json::Text(block_hash))],
                    EventView::PayoutBroadcast { block_hash, sent } => seq![
                        ("block_hash"@, Json::Text(block_hash)),
                        ("txid"@, optional_text_json(sent)),
                    ],
                },
            ),
        )
    }
}

impl Event {
    /// The kind of the event.
    pub fn kind(&self) -> (kind: &'static str)
        ensures
            kind@ == match *self {
                Event::Accepted { .. } => "accepted"@,
                Event::Reconciled { .. } => "chain_reconciled"@,
                Event::PayoutSigned { .. } => "payout_signed"@,
                Event::PayoutBlocked { .. } => "payout_blocked"@,
                Event::PayoutRecovered { .. } => "payout_broadcast_recovered"@,
                Event::PayoutBroadcast { .. } => "payout_broadcast"@,
            },
    {
        match self {
            Event::Accepted { .. } => "accepted",
            Event::Reconciled { .. } => "chain_reconciled",
            Event::PayoutSigned { .. } => "payout_signed",
            Event::PayoutBlocked { .. } => "payout_blocked",
            Event::PayoutRecovered { .. } => "payout_broadcast_recovered",
            Event::PayoutBroadcast { .. } => "payout_broadcast",
        }
    }

    /// What is written down of the event, beside its kind.
    pub fn data(&self) -> (value: Value)
        ensures
            json(value) == self@.data(),
    {
        let mut list = entries();
        match self {
            Event::Accepted { txid, fee } => {
                put(&mut list, "txid", text(txid.clone()));
                put(&mut list, "fee_zat", unsigned(*fee));
                assert(entry_views(list@) =~= seq![("txid"@, Json::Text(txid@)), ("fee_zat"@, Json::Unsigned(*fee))]);
            },
            Event::Reconciled { tip } => {
                put(&mut list, "tip", tip_value(tip));
                assert(entry_views(list@) =~= seq![("tip"@, tip_json(tip@))]);
            },
            Event::PayoutSigned { block_hash, txid, amount } => {
                put(&mut list, "block_hash", text(block_hash.clone()));
                put(&mut list, "txid", text(txid.clone()));
                put(&mut list, "amount_zat", unsigned(*amount));
                assert(entry_views(list@) =~= seq![
                    ("block_hash"@, Json::Text(block_hash@)),
                    ("txid"@, Json::Text(txid@)),
                    ("amount_zat"@, Json::Unsigned(*amount)),
                ]);
            },
            Event::PayoutBlocked { block_hash } => {
                put(&mut list, "block_hash", text(block_hash.clone()));
                assert(entry_views(list@) =~= seq![("block_hash"@, Json::Text(block_hash@))]);
            },
            Event::PayoutRecovered { block_hash } => {
                put(&mut list, "block_hash", text(block_hash.clone()));
                assert(entry_views(list@) =~= seq![("block_hash"@, Json::Text(block_hash@))]);
            },
            Event::PayoutBroadcast { block_hash, sent } => {
                put(&mut list, "block_hash", text(block_hash.clone()));
                put(&mut list, "txid", optional_text_value(sent));
                assert(entry_views(list@) =~= seq![
                    ("block_hash"@, Json::Text(block_hash@)),
                    ("txid"@, optional_text_json(optional_text(*sent))),
                ]);
            },
        }
        object(list)
    }
}

} // verus!
