//! What the service shows to whoever runs it.

use crate::json::{boolean, entries, entry_views, fields, json, object, put, Json};
use crate::ledger::{payout_views, record_views, Payout, PayoutView, Record, RecordView, Store, StoreView};
use crate::snapshot::{ledger_json, ledger_value};
use crate::text::{decimal, decimal_text, same_text};
use serde_json::Value;
use vstd::prelude::*;
use vstd::string::StringExecFns;

verus! {

/// The number of payments with a status.
pub open spec fn count_records(records: Seq<RecordView>, status: Seq<char>) -> nat {
    records.filter(|r: RecordView| r.status == status).len()
}

/// The number of payouts with a status.
pub open spec fn count_payouts(payouts: Seq<PayoutView>, status: Seq<char>) -> nat {
    payouts.filter(|p: PayoutView| p.status == status).len()
}

fn records_with(records: &Vec<Record>, status: &str) -> (count: u64)
    ensures
        count == count_records(record_views(records@), status@),
{
    let ghost all = record_views(records@);
    let ghost chosen = |r: RecordView| r.status == status@;
    let mut count: usize = 0;
    let mut i: usize = 0;
    proof {
        reveal(Seq::filter);
        assert(all.take(0).filter(chosen).len() == 0);
    }
    while i < records.len()
        invariant
            i <= records.len(),
            all == record_views(records@),
            chosen == (|r: RecordView| r.status == status@),
            count == all.take(i as int).filter(chosen).len(),
            count <= i,
        decreases records.len() - i,
    {
        proof {
            reveal(Seq::filter);
            assert(all.take(i + 1).drop_last() =~= all.take(i as int));
            assert(all.take(i + 1).last() == records@[i as int]@);
        }
        if same_text(records[i].status.as_str(), status) {
            count += 1;
        }
        i += 1;
    }
    assert(all.take(all.len() as int) =~= all);
    count as u64
}

fn payouts_with(payouts: &Vec<Payout>, status: &str) -> (count: u64)
    ensures
        count == count_payouts(payout_views(payouts@), status@),
{
    let ghost all = payout_views(payouts@);
    let ghost chosen = |p: PayoutView| p.status == status@;
    let mut count: usize = 0;
    let mut i: usize = 0;
    proof {
        reveal(Seq::filter);
        assert(all.take(0).filter(chosen).len() == 0);
    }
    while i < payouts.len()
        invariant
            i <= payouts.len(),
            all == payout_views(payouts@),
            chosen == (|p: PayoutView| p.status == status@),
            count == all.take(i as int).filter(chosen).len(),
            count <= i,
        decreases payouts.len() - i,
    {
        proof {
            reveal(Seq::filter);
            assert(all.take(i + 1).drop_last() =~= all.take(i as int));
            assert(all.take(i + 1).last() == payouts@[i as int]@);
        }
        if same_text(payouts[i].status.as_str(), status) {
            count += 1;
        }
        i += 1;
    }
    assert(all.take(all.len() as int) =~= all);
    count as u64
}

/// A line of the metrics: a name and a number.
pub open spec fn metric(name: Seq<char>, value: nat) -> Seq<char> {
    name + " "@ + decimal(value) + "\n"@
}

/// A line of the metrics: a name, a status and a number.
pub open spec fn status_metric(name: Seq<char>, status: Seq<char>, value: nat) -> Seq<char> {
    metric(name + "{status=\""@ + status + "\"}"@, value)
}

/// The metrics of the service: whether it is ready, how far it has followed the
/// chain, and how many payments and payouts there are of each status.
pub open spec fn metrics_text(store: StoreView) -> Seq<char> {
    let height = match store.ledger.tip {
        Some(tip) => tip.height as nat,
        None => 0,
    };
    let records = store.ledger.records;
    let payouts = store.ledger.payouts;
    metric(
        "preconf_ready"@,
        if store.ready {
            1
        } else {
            0
        },
    ) + metric("preconf_chain_height"@, height) + status_metric(
        "preconf_transactions"@,
        "pending"@,
        count_records(records, "pending"@),
    ) + status_metric("preconf_transactions"@, "included"@, count_records(records, "included"@)) + status_metric(
        "preconf_transactions"@,
        "failed"@,
        count_records(records, "failed"@),
    ) + status_metric("preconf_payouts"@, "waiting"@, count_payouts(payouts, "waiting"@)) + status_metric(
        "preconf_payouts"@,
        "broadcast"@,
        count_payouts(payouts, "broadcast"@),
    ) + status_metric("preconf_payouts"@, "confirmed"@, count_payouts(payouts, "confirmed"@)) + status_metric(
        "preconf_payouts"@,
        "blocked"@,
        count_payouts(payouts, "blocked"@),
    )
}

fn add_metric(text: &mut String, name: &str, value: u64)
    ensures
        final(text)@ == old(text)@ + metric(name@, value as nat),
{
    let ghost before = text@;
    let digits = decimal_text(value);
    text.append(name);
    text.append(" ");
    text.append(digits.as_str());
    text.append("\n");
    assert(text@ =~= before + metric(name@, value as nat));
}

fn add_status_metric(text: &mut String, name: &str, status: &str, value: u64)
    ensures
        final(text)@ == old(text)@ + status_metric(name@, status@, value as nat),
{
    let mut label = name.to_string();
    label.append("{status=\"");
    label.append(status);
    label.append("\"}");
    assert(label@ =~= name@ + "{status=\""@ + status@ + "\"}"@);
    add_metric(text, label.as_str(), value);
}

/// What the service shows of its state, as JSON.
pub open spec fn state_json(store: StoreView) -> Json {
    Json::Object(fields(seq![("ready"@, Json::Bool(store.ready)), ("ledger"@, ledger_json(store.ledger))]))
}

impl Store {
    /// Writes the metrics of the service.
    pub fn metrics(&self) -> (text: String)
        ensures
            text@ == metrics_text(self@),
    {
        let height: u64 = match &self.ledger.tip {
            Some(tip) => tip.height as u64,
            None => 0,
        };
        let ready: u64 = if self.ready {
            1
        } else {
            0
        };
        let records = &self.ledger.records;
        let payouts = &self.ledger.payouts;
        let mut text = "".to_string();
        proof {
            reveal_strlit("");
            assert(text@ =~= Seq::<char>::empty());
        }
        add_metric(&mut text, "preconf_ready", ready);
        assert(text@ =~= metric("preconf_ready"@, ready as nat));
        add_metric(&mut text, "preconf_chain_height", height);
        add_status_metric(&mut text, "preconf_transactions", "pending", records_with(records, "pending"));
        add_status_metric(&mut text, "preconf_transactions", "included", records_with(records, "included"));
        add_status_metric(&mut text, "preconf_transactions", "failed", records_with(records, "failed"));
        add_status_metric(&mut text, "preconf_payouts", "waiting", payouts_with(payouts, "waiting"));
        add_status_metric(&mut text, "preconf_payouts", "broadcast", payouts_with(payouts, "broadcast"));
        add_status_metric(&mut text, "preconf_payouts", "confirmed", payouts_with(payouts, "confirmed"));
        add_status_metric(&mut text, "preconf_payouts", "blocked", payouts_with(payouts, "blocked"));
        text
    }

    /// Makes what the service shows of its state.
    pub fn state(&self) -> (value: Value)
        ensures
            json(value) == state_json(self@),
    {
        let mut list = entries();
        put(&mut list, "ready", boolean(self.ready));
        put(&mut list, "ledger", ledger_value(&self.ledger));
        assert(entry_views(list@) =~= seq![
            ("ready"@, Json::Bool(self@.ready)),
            ("ledger"@, ledger_json(self@.ledger)),
        ]);
        object(list)
    }
}

} // verus!
