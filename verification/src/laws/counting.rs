//! Counting: sums, shares and numbers in words.

use crate::amount::sum;
use crate::laws::{lemma_filter_places, picks};
use crate::ledger::{PayoutView, RecordView, StoreView};
use crate::status::{count_payouts, count_records, metrics_text, status_metric};
use crate::text::decimal;
use vstd::prelude::*;

verus! {

/// The sum of no amounts is nothing, that of one amount is the amount, and the sum of
/// two lists together is that of their sums.
pub proof fn law_sums_add_up(a: Seq<u64>, b: Seq<u64>, x: u64)
    ensures
        sum(Seq::<u64>::empty()) == 0,
        sum(seq![x]) == x,
        sum(a + b) == sum(a) + sum(b),
    decreases b.len(),
{
    assert(seq![x].drop_last() =~= Seq::<u64>::empty());
    reveal_with_fuel(sum, 2);
    if b.len() == 0 {
        assert(a + b =~= a);
    } else {
        law_sums_add_up(a, b.drop_last(), x);
        assert((a + b).drop_last() =~= a + b.drop_last());
    }
}

/// Each amount of a list is within the sum.
pub proof fn law_parts_are_within_the_sum(amounts: Seq<u64>, i: int)
    requires
        0 <= i < amounts.len(),
    ensures
        amounts[i] <= sum(amounts),
{
    let before = amounts.take(i);
    let after = amounts.skip(i + 1);
    assert(amounts =~= before + seq![amounts[i]] + after);
    law_sums_add_up(before, seq![amounts[i]], amounts[i]);
    law_sums_add_up(before + seq![amounts[i]], after, amounts[i]);
}

/// Whether a payment has a status.
pub open spec fn payment_is(status: Seq<char>) -> spec_fn(RecordView) -> bool {
    |r: RecordView| r.status == status
}

/// Whether a payout has a status.
pub open spec fn payout_is(status: Seq<char>) -> spec_fn(PayoutView) -> bool {
    |p: PayoutView| p.status == status
}

/// Every payment and every payout with a status is counted, each once, and no other.
pub proof fn law_statuses_are_counted(records: Seq<RecordView>, payouts: Seq<PayoutView>, status: Seq<char>)
    ensures
        exists|places: Seq<int>| #[trigger]
            picks(places, records, payment_is(status)) && places.len() == count_records(records, status),
        exists|places: Seq<int>| #[trigger]
            picks(places, payouts, payout_is(status)) && places.len() == count_payouts(payouts, status),
{
    let a = |r: RecordView| r.status == status;
    assert(payment_is(status) =~= a);
    let places = lemma_filter_places(records, a);
    assert(picks(places, records, payment_is(status)) && places.len() == count_records(records, status));
    let b = |p: PayoutView| p.status == status;
    assert(payout_is(status) =~= b);
    let places = lemma_filter_places(payouts, b);
    assert(picks(places, payouts, payout_is(status)) && places.len() == count_payouts(payouts, status));
}

proof fn lemma_next(text: Seq<char>, end: Seq<char>, line: Seq<char>, name: Seq<char>, number: Seq<char>)
    requires
        end + line == name + number + end,
    ensures
        text + end + line == text + name + number + end,
{
    assert(text + end + line =~= text + (end + line));
    assert(text + (name + number + end) =~= text + name + number + end);
}

proof fn lemma_line(name: Seq<char>, status: Seq<char>, line: Seq<char>, n: nat)
    requires
        line == "\n"@ + (name + "{status=\""@ + status + "\"}"@) + " "@,
    ensures
        "\n"@ + status_metric(name, status, n) == line + decimal(n) + "\n"@,
{
    assert("\n"@ + status_metric(name, status, n) =~= line + decimal(n) + "\n"@);
}

/// Whether a text shows the state of the service.
pub open spec fn shows(text: Seq<char>, store: StoreView) -> bool {
    let records = store.ledger.records;
    let payouts = store.ledger.payouts;
    let ready = if store.ready {
        "preconf_ready 1\n"@
    } else {
        "preconf_ready 0\n"@
    };
    let height: nat = if store.ledger.tip is Some {
        store.ledger.tip->0.height as nat
    } else {
        0
    };
    text == ready + "preconf_chain_height "@ + decimal(height)
        + "\npreconf_transactions{status=\"pending\"} "@ + decimal(count_records(records, "pending"@))
        + "\npreconf_transactions{status=\"included\"} "@ + decimal(count_records(records, "included"@))
        + "\npreconf_transactions{status=\"failed\"} "@ + decimal(count_records(records, "failed"@))
        + "\npreconf_payouts{status=\"waiting\"} "@ + decimal(count_payouts(payouts, "waiting"@))
        + "\npreconf_payouts{status=\"broadcast\"} "@ + decimal(count_payouts(payouts, "broadcast"@))
        + "\npreconf_payouts{status=\"confirmed\"} "@ + decimal(count_payouts(payouts, "confirmed"@))
        + "\npreconf_payouts{status=\"blocked\"} "@ + decimal(count_payouts(payouts, "blocked"@))
        + "\n"@
}

/// What is shown of the service: whether it is ready, the height of its tip, and how many
/// payments and payouts have each status.
pub proof fn law_metrics_show_height_and_counts(store: StoreView)
    ensures
        shows(metrics_text(store), store),
{
    let records = store.ledger.records;
    let payouts = store.ledger.payouts;
    reveal_strlit("preconf_ready 1\n");
    reveal_strlit("preconf_ready 0\n");
    reveal_strlit("preconf_ready");
    reveal_strlit("preconf_chain_height");
    reveal_strlit("preconf_chain_height ");
    reveal_strlit(" ");
    reveal_strlit("\n");
    reveal_with_fuel(decimal, 2);
    assert(decimal(1) =~= seq!['1'] && decimal(0) =~= seq!['0']);
    let height: nat = if store.ledger.tip is Some {
        store.ledger.tip->0.height as nat
    } else {
        0
    };
    let ready = if store.ready {
        "preconf_ready 1\n"@
    } else {
        "preconf_ready 0\n"@
    };
    assert("preconf_ready"@ + " "@ + seq!['1'] + "\n"@ =~= "preconf_ready 1\n"@);
    assert("preconf_ready"@ + " "@ + seq!['0'] + "\n"@ =~= "preconf_ready 0\n"@);
    assert("preconf_chain_height"@ + " "@ =~= "preconf_chain_height "@);
    reveal_strlit("{status=\"");
    reveal_strlit("\"}");
    reveal_strlit("preconf_transactions");
    reveal_strlit("pending");
    reveal_strlit("\npreconf_transactions{status=\"pending\"} ");
    reveal_strlit("included");
    reveal_strlit("\npreconf_transactions{status=\"included\"} ");
    reveal_strlit("failed");
    reveal_strlit("\npreconf_transactions{status=\"failed\"} ");
    reveal_strlit("preconf_payouts");
    reveal_strlit("waiting");
    reveal_strlit("\npreconf_payouts{status=\"waiting\"} ");
    reveal_strlit("broadcast");
    reveal_strlit("\npreconf_payouts{status=\"broadcast\"} ");
    reveal_strlit("confirmed");
    reveal_strlit("\npreconf_payouts{status=\"confirmed\"} ");
    reveal_strlit("blocked");
    reveal_strlit("\npreconf_payouts{status=\"blocked\"} ");
    assert("\npreconf_transactions{status=\"pending\"} "@ =~= "\n"@ + ("preconf_transactions"@ + "{status=\""@ + "pending"@ + "\"}"@)
        + " "@);
    lemma_line(
        "preconf_transactions"@,
        "pending"@,
        "\npreconf_transactions{status=\"pending\"} "@,
        count_records(records, "pending"@),
    );
    assert("\npreconf_transactions{status=\"included\"} "@ =~= "\n"@ + ("preconf_transactions"@ + "{status=\""@ + "included"@ + "\"}"@)
        + " "@);
    lemma_line(
        "preconf_transactions"@,
        "included"@,
        "\npreconf_transactions{status=\"included\"} "@,
        count_records(records, "included"@),
    );
    assert("\npreconf_transactions{status=\"failed\"} "@ =~= "\n"@ + ("preconf_transactions"@ + "{status=\""@ + "failed"@ + "\"}"@)
        + " "@);
    lemma_line(
        "preconf_transactions"@,
        "failed"@,
        "\npreconf_transactions{status=\"failed\"} "@,
        count_records(records, "failed"@),
    );
    assert("\npreconf_payouts{status=\"waiting\"} "@ =~= "\n"@ + ("preconf_payouts"@ + "{status=\""@ + "waiting"@ + "\"}"@)
        + " "@);
    lemma_line(
        "preconf_payouts"@,
        "waiting"@,
        "\npreconf_payouts{status=\"waiting\"} "@,
        count_payouts(payouts, "waiting"@),
    );
    assert("\npreconf_payouts{status=\"broadcast\"} "@ =~= "\n"@ + ("preconf_payouts"@ + "{status=\""@ + "broadcast"@ + "\"}"@)
        + " "@);
    lemma_line(
        "preconf_payouts"@,
        "broadcast"@,
        "\npreconf_payouts{status=\"broadcast\"} "@,
        count_payouts(payouts, "broadcast"@),
    );
    assert("\npreconf_payouts{status=\"confirmed\"} "@ =~= "\n"@ + ("preconf_payouts"@ + "{status=\""@ + "confirmed"@ + "\"}"@)
        + " "@);
    lemma_line(
        "preconf_payouts"@,
        "confirmed"@,
        "\npreconf_payouts{status=\"confirmed\"} "@,
        count_payouts(payouts, "confirmed"@),
    );
    assert("\npreconf_payouts{status=\"blocked\"} "@ =~= "\n"@ + ("preconf_payouts"@ + "{status=\""@ + "blocked"@ + "\"}"@)
        + " "@);
    lemma_line(
        "preconf_payouts"@,
        "blocked"@,
        "\npreconf_payouts{status=\"blocked\"} "@,
        count_payouts(payouts, "blocked"@),
    );
    assert(metrics_text(store) =~= ready + ("preconf_chain_height "@ + decimal(height) + "\n"@)
        + status_metric("preconf_transactions"@, "pending"@, count_records(records, "pending"@))
        + status_metric("preconf_transactions"@, "included"@, count_records(records, "included"@))
        + status_metric("preconf_transactions"@, "failed"@, count_records(records, "failed"@))
        + status_metric("preconf_payouts"@, "waiting"@, count_payouts(payouts, "waiting"@))
        + status_metric("preconf_payouts"@, "broadcast"@, count_payouts(payouts, "broadcast"@))
        + status_metric("preconf_payouts"@, "confirmed"@, count_payouts(payouts, "confirmed"@))
        + status_metric("preconf_payouts"@, "blocked"@, count_payouts(payouts, "blocked"@)));
    let t0 = ready + "preconf_chain_height "@ + decimal(height);
    assert(ready + ("preconf_chain_height "@ + decimal(height) + "\n"@) =~= t0 + "\n"@);
    let t1 = t0 + "\npreconf_transactions{status=\"pending\"} "@ + decimal(count_records(records, "pending"@));
    lemma_next(
        t0,
        "\n"@,
        status_metric("preconf_transactions"@, "pending"@, count_records(records, "pending"@)),
        "\npreconf_transactions{status=\"pending\"} "@,
        decimal(count_records(records, "pending"@)),
    );
    let t2 = t1 + "\npreconf_transactions{status=\"included\"} "@ + decimal(count_records(records, "included"@));
    lemma_next(
        t1,
        "\n"@,
        status_metric("preconf_transactions"@, "included"@, count_records(records, "included"@)),
        "\npreconf_transactions{status=\"included\"} "@,
        decimal(count_records(records, "included"@)),
    );
    let t3 = t2 + "\npreconf_transactions{status=\"failed\"} "@ + decimal(count_records(records, "failed"@));
    lemma_next(
        t2,
        "\n"@,
        status_metric("preconf_transactions"@, "failed"@, count_records(records, "failed"@)),
        "\npreconf_transactions{status=\"failed\"} "@,
        decimal(count_records(records, "failed"@)),
    );
    let t4 = t3 + "\npreconf_payouts{status=\"waiting\"} "@ + decimal(count_payouts(payouts, "waiting"@));
    lemma_next(
        t3,
        "\n"@,
        status_metric("preconf_payouts"@, "waiting"@, count_payouts(payouts, "waiting"@)),
        "\npreconf_payouts{status=\"waiting\"} "@,
        decimal(count_payouts(payouts, "waiting"@)),
    );
    let t5 = t4 + "\npreconf_payouts{status=\"broadcast\"} "@ + decimal(count_payouts(payouts, "broadcast"@));
    lemma_next(
        t4,
        "\n"@,
        status_metric("preconf_payouts"@, "broadcast"@, count_payouts(payouts, "broadcast"@)),
        "\npreconf_payouts{status=\"broadcast\"} "@,
        decimal(count_payouts(payouts, "broadcast"@)),
    );
    let t6 = t5 + "\npreconf_payouts{status=\"confirmed\"} "@ + decimal(count_payouts(payouts, "confirmed"@));
    lemma_next(
        t5,
        "\n"@,
        status_metric("preconf_payouts"@, "confirmed"@, count_payouts(payouts, "confirmed"@)),
        "\npreconf_payouts{status=\"confirmed\"} "@,
        decimal(count_payouts(payouts, "confirmed"@)),
    );
    let t7 = t6 + "\npreconf_payouts{status=\"blocked\"} "@ + decimal(count_payouts(payouts, "blocked"@));
    lemma_next(
        t6,
        "\n"@,
        status_metric("preconf_payouts"@, "blocked"@, count_payouts(payouts, "blocked"@)),
        "\npreconf_payouts{status=\"blocked\"} "@,
        decimal(count_payouts(payouts, "blocked"@)),
    );
}

} // verus!
