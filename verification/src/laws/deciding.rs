//! Deciding: what a call of a merchant comes to, and which payments are accepted.

use crate::amount::sum;
use crate::json::{field, text_field, unsigned_field, Json};
use crate::laws::serving::{law_the_pending_set_lists_every_pending_payment, rivals, waits};
use crate::laws::telling::{exactly, part};
use crate::laws::picks;
use crate::ledger::{LedgerView, RecordView, StoreView, TipView};
use crate::p2p::{pending_bytes, PendingView};
use crate::receipt::issued_json;
use crate::server::{
    accepted_record, answer, call_id, call_method, clash, find, first_clash, has_room, info_json, is_call, only_text,
    refusal, result_json, share_note, AnswerView, ServiceView,
};
use crate::transaction::{raw_message, raw_transaction, spends, TxView};
use crate::wallet::keys::{external_incoming_key, key_message, prepared_key, seed_key, viewing_key};
use crate::wallet::scan::{
    decrypted_note, ironwood_leaves, note_value, parsed_transaction, payments_to, received_message, received_values,
};
use orchard::keys::PreparedIncomingViewingKey;
use vstd::prelude::*;
use zakura_chain::parameters::Network;
use zcash_primitives::transaction::Transaction;

verus! {

/// Whether an object has a member.
pub open spec fn bears(value: Json, key: Seq<char>) -> bool {
    value is Object && value->Object_0.contains_key(key)
}

/// Members are found in objects, by their names, and nowhere else.
pub proof fn law_members_are_found_by_name(value: Json, key: Seq<char>)
    ensures
        field(value, key) is Some <==> bears(value, key),
        bears(value, key) ==> field(value, key) == Some(part(value, key)),
        text_field(value, key) is Some <==> bears(value, key) && part(value, key) is Text,
        text_field(value, key) is Some ==> part(value, key) == Json::Text(text_field(value, key)->0),
        unsigned_field(value, key) is Some <==> bears(value, key) && part(value, key) is Unsigned,
        unsigned_field(value, key) is Some ==> part(value, key) == Json::Unsigned(unsigned_field(value, key)->0),
{
}

/// A request is a call exactly if it says that it is one of version 2.0, has an
/// identifier, and has parameters by name. Its method is the text that it gives for it.
pub proof fn law_calls_have_version_identifier_and_parameters(request: Json)
    ensures
        is_call(request) <==> bears(request, "jsonrpc"@) && part(request, "jsonrpc"@) == Json::Text("2.0"@) && bears(
            request,
            "id"@,
        ) && bears(request, "params"@) && part(request, "params"@) is Object,
        bears(request, "id"@) ==> call_id(request) == part(request, "id"@),
        !bears(request, "id"@) ==> call_id(request) is Null,
        bears(request, "method"@) && part(request, "method"@) is Text ==> part(request, "method"@) == Json::Text(
            call_method(request),
        ),
        !(bears(request, "method"@) && part(request, "method"@) is Text) ==> call_method(request) == ""@,
{
}

/// The only parameter of a call is a text under a name that is expected.
pub proof fn law_the_only_parameter_is_a_text(params: Json, key: Seq<char>)
    ensures
        only_text(params, key) is Some <==> bears(params, key) && params->Object_0.len() == 1 && part(params, key) is Text,
        only_text(params, key) is Some ==> part(params, key) == Json::Text(only_text(params, key)->0),
        exactly(params, seq![(key, part(params, key))]) && part(params, key) is Text && params->Object_0.dom().finite()
            ==> only_text(params, key) is Some,
{
    if params is Object {
        let members = params->Object_0;
        if text_field(params, key) is Some {
            assert(part(params, key) == Json::Text(text_field(params, key)->0));
        }
        let only = seq![(key, part(params, key))];
        if exactly(params, only) && members.dom().finite() {
            assert(only[0].0 == key);
            assert(members.dom() =~= Set::empty().insert(key)) by {
                assert forall|k: Seq<char>| members.contains_key(k) implies k == key by {
                    let i = choose|i: int| 0 <= i < only.len() && (#[trigger] only[i]).0 == k;
                }
            }
            assert(Set::empty().insert(key).len() == 1);
        }
    }
}

/// Whether a record is the first of a ledger about a payment.
pub open spec fn first_named(records: Seq<RecordView>, i: int, txid: Seq<char>) -> bool {
    &&& 0 <= i < records.len() && records[i].txid == txid
    &&& forall|j: int| 0 <= j < i ==> (#[trigger] records[j]).txid != txid
}

/// Whether a ledger knows a payment.
pub open spec fn known(records: Seq<RecordView>, txid: Seq<char>) -> bool {
    exists|i: int| 0 <= i < records.len() && (#[trigger] records[i]).txid == txid
}

proof fn lemma_first_named(records: Seq<RecordView>, from: int, txid: Seq<char>)
    requires
        0 <= from <= records.len(),
        forall|j: int| 0 <= j < from ==> (#[trigger] records[j]).txid != txid,
    ensures
        match find(records, from, txid) {
            Some(i) => first_named(records, i, txid) && known(records, txid),
            None => !known(records, txid),
        },
    decreases records.len() - from,
{
    if from < records.len() && records[from].txid != txid {
        lemma_first_named(records, from + 1, txid);
    }
}

/// Whether a payment that waits to be mined stands in the way of a new one: it cannot be
/// read, or it spends a note that the new one spends.
pub open spec fn in_the_way(record: RecordView, tx: TxView) -> bool {
    record.status == "pending"@ && (raw_transaction(record.raw_tx) is None || rivals(
        raw_transaction(record.raw_tx)->0.nullifiers,
        tx.nullifiers,
    ))
}

/// Whether a record is the first that stands in the way of a new payment.
pub open spec fn first_in_the_way(records: Seq<RecordView>, i: int, tx: TxView) -> bool {
    &&& 0 <= i < records.len() && in_the_way(records[i], tx)
    &&& forall|j: int| 0 <= j < i ==> !in_the_way(#[trigger] records[j], tx)
}

/// Whether nothing stands in the way of a new payment.
pub open spec fn way_is_free(records: Seq<RecordView>, tx: TxView) -> bool {
    forall|i: int| 0 <= i < records.len() ==> !in_the_way(#[trigger] records[i], tx)
}

proof fn lemma_share_note(a: TxView, b: TxView)
    ensures
        share_note(a, b) == rivals(a.nullifiers, b.nullifiers),
{
    if share_note(a, b) {
        let nf = choose|nf: Seq<char>| #[trigger] spends(a, nf) && spends(b, nf);
        let i = choose|i: int| 0 <= i < a.nullifiers.len() && a.nullifiers[i] == nf;
        let j = choose|j: int| 0 <= j < b.nullifiers.len() && b.nullifiers[j] == nf;
        assert(a.nullifiers[i] == b.nullifiers[j]);
    }
    if rivals(a.nullifiers, b.nullifiers) {
        let (i, j) = choose|i: int, j: int|
            0 <= i < a.nullifiers.len() && 0 <= j < b.nullifiers.len() && #[trigger] a.nullifiers[i]
                == #[trigger] b.nullifiers[j];
        assert(spends(a, a.nullifiers[i]) && spends(b, a.nullifiers[i]));
    }
}

proof fn lemma_first_in_the_way(records: Seq<RecordView>, n: nat, tx: TxView)
    requires
        n <= records.len(),
    ensures
        first_clash(records, n, tx) is Free <==> forall|j: int| 0 <= j < n ==> !in_the_way(#[trigger] records[j], tx),
        !(first_clash(records, n, tx) is Free) ==> exists|i: int|
            0 <= i < n && #[trigger] first_in_the_way(records, i, tx) && first_clash(records, n, tx) == clash(
                records[i],
                tx,
            ),
    decreases n,
{
    if n > 0 {
        lemma_first_in_the_way(records, (n - 1) as nat, tx);
        let last = records[n - 1];
        if raw_transaction(last.raw_tx) is Some {
            lemma_share_note(raw_transaction(last.raw_tx)->0, tx);
        }
        assert(clash(last, tx) is Free == !in_the_way(last, tx));
        if first_clash(records, (n - 1) as nat, tx) is Free {
            if !(clash(last, tx) is Free) {
                assert(first_in_the_way(records, n - 1, tx));
            }
        } else {
            let i = choose|i: int|
                0 <= i < n - 1 && #[trigger] first_in_the_way(records, i, tx) && first_clash(records, (n - 1) as nat, tx)
                    == clash(records[i], tx);
            assert(first_in_the_way(records, i, tx));
            assert(in_the_way(records[i], tx));
        }
    }
}

/// A call that is refused, with its code, its reason and, unless another library words
/// it, its message.
pub open spec fn says_no(answer: AnswerView, code: int, reason: Seq<char>, message: Seq<char>) -> bool {
    &&& answer is Refused && answer->code == code && answer->reason == reason
    &&& answer->message == Some(message)
}

proof fn lemma_three_methods()
    ensures
        "preconf_info"@ != "preconf_get"@,
        "preconf_info"@ != "preconf_submit"@,
        "preconf_get"@ != "preconf_submit"@,
{
    reveal_strlit("preconf_info");
    reveal_strlit("preconf_get");
    reveal_strlit("preconf_submit");
    assert("preconf_info"@.len() == 12 && "preconf_get"@.len() == 11 && "preconf_submit"@.len() == 14);
}

/// There are three methods; any other call is refused.
pub proof fn law_unknown_methods_are_refused(
    service: ServiceView,
    store: StoreView,
    method: Seq<char>,
    params: Json,
    best_hash: Option<Seq<char>>,
)
    ensures
        says_no(answer(service, store, method, params, best_hash), -32601, "method_not_found"@, "unknown method"@)
            <== method != "preconf_info"@ && method != "preconf_get"@ && method != "preconf_submit"@,
{
}

/// The service tells who it is to anyone who asks without parameters, if its seed gives
/// a key.
pub proof fn law_the_service_is_asked_without_parameters(
    service: ServiceView,
    store: StoreView,
    params: Json,
    best_hash: Option<Seq<char>>,
)
    ensures
        ({
            let answer = answer(service, store, "preconf_info"@, params, best_hash);
            let empty = params is Object && params->Object_0.len() == 0;
            &&& empty && seed_key(service.seed) is Some ==> answer == AnswerView::Done(info_json(service, store))
            &&& !empty ==> says_no(answer, -32602, "invalid_params"@, "no parameters expected"@)
            &&& empty && seed_key(service.seed) is None ==> answer is Refused && answer->code == -32603
                && answer->reason
                == "internal"@ && answer->message == key_message(service.seed)
        }),
{
}

/// A merchant who asks for a payment is told of the first record about it; for one that
/// the ledger does not know, that there is none.
pub proof fn law_payments_are_told_by_their_identifier(
    service: ServiceView,
    store: StoreView,
    params: Json,
    best_hash: Option<Seq<char>>,
    i: int,
)
    ensures
        ({
            let answer = answer(service, store, "preconf_get"@, params, best_hash);
            let records = store.ledger.records;
            let asked = params is Object && params->Object_0.len() == 1 && bears(params, "txid"@) && part(
                params,
                "txid"@,
            ) is Text;
            let txid = part(params, "txid"@)->Text_0;
            &&& !asked ==> says_no(answer, -32602, "invalid_params"@, "txid required"@)
            &&& asked && first_named(records, i, txid) ==> answer == AnswerView::Done(
                result_json(records[i], store.ledger.tip),
            )
            &&& asked && !known(records, txid) ==> says_no(answer, -32006, "not_found"@, "unknown txid"@)
        }),
{
    lemma_three_methods();
    let records = store.ledger.records;
    let txid = part(params, "txid"@)->Text_0;
    lemma_first_named(records, 0, txid);
    lemma_only_one_first(records, txid, i);
}

proof fn lemma_only_one_first(records: Seq<RecordView>, txid: Seq<char>, i: int)
    ensures
        first_named(records, i, txid) ==> find(records, 0, txid) == Some(i),
{
    lemma_first_named(records, 0, txid);
    if first_named(records, i, txid) {
        assert(records[i].txid == txid);
        let k = find(records, 0, txid)->0;
        if k < i {
            assert(records[k].txid != txid);
        } else if i < k {
            assert(records[i].txid != txid);
        }
    }
}

/// A merchant who submits a payment is answered as before if the ledger knows it. Any
/// other payment waits until the ledger is that of the best block of the node, and goes
/// to a node to be verified exactly if nothing that is pending stands in its way; else
/// the first that does decides what the merchant is told.
pub proof fn law_submitted_payments_are_answered_verified_or_refused(
    service: ServiceView,
    store: StoreView,
    params: Json,
    best_hash: Option<Seq<char>>,
    i: int,
)
    ensures
        ({
            let answer = answer(service, store, "preconf_submit"@, params, best_hash);
            let records = store.ledger.records;
            let tip = store.ledger.tip;
            let given = params is Object && params->Object_0.len() == 1 && bears(params, "raw_tx"@) && part(
                params,
                "raw_tx"@,
            ) is Text;
            let raw = part(params, "raw_tx"@)->Text_0;
            let read = raw_transaction(raw);
            let tx = read->0;
            let current = store.ready && match (tip, best_hash) {
                (Some(tip), Some(best)) => tip.hash == best,
                (None, None) => true,
                _ => false,
            };
            let fresh = given && read is Some && !known(records, tx.txid);
            &&& !given ==> says_no(answer, -32602, "invalid_params"@, "raw_tx required"@)
            &&& given && read is None ==> answer is Refused && answer->code == -32002 && answer->reason == "invalid_tx"@
                && answer->message == raw_message(raw)
            &&& given && read is Some && first_named(records, i, tx.txid) ==> answer == AnswerView::Done(
                result_json(records[i], tip),
            )
            &&& fresh && !current ==> says_no(answer, -32001, "not_ready"@, "chain reconciliation pending"@)
            &&& fresh && current && tip is None ==> says_no(answer, -32001, "not_ready"@, "chain not ready"@)
            &&& fresh && current && tip is Some && way_is_free(records, tx) ==> answer == (AnswerView::Verify {
                raw,
                tx,
                tip: tip->0,
            })
            &&& answer is Verify ==> fresh && current && tip is Some && way_is_free(records, tx)
            &&& fresh && current && tip is Some && first_in_the_way(records, i, tx) ==> if raw_transaction(
                records[i].raw_tx,
            ) is Some {
                says_no(answer, -32004, "conflict"@, "spend already reserved"@)
            } else {
                answer is Refused && answer->code == -32603 && answer->reason == "internal"@ && answer->message
                    == raw_message(records[i].raw_tx)
            }
        }),
{
    lemma_three_methods();
    let records = store.ledger.records;
    let raw = part(params, "raw_tx"@)->Text_0;
    let tx = raw_transaction(raw)->0;
    lemma_first_named(records, 0, tx.txid);
    lemma_only_one_first(records, tx.txid, i);
    lemma_first_in_the_way(records, records.len(), tx);
    if first_in_the_way(records, i, tx) {
        assert(in_the_way(records[i], tx));
        let k = choose|k: int|
            0 <= k < records.len() && #[trigger] first_in_the_way(records, k, tx) && first_clash(
                records,
                records.len(),
                tx,
            ) == clash(records[k], tx);
        assert(in_the_way(records[k], tx));
        assert(k == i);
        if raw_transaction(records[i].raw_tx) is Some {
            lemma_share_note(raw_transaction(records[i].raw_tx)->0, tx);
        }
    }
}

/// Whether a list holds the values of the notes that a key reads in a transaction, in
/// order, each once, and no others.
pub open spec fn reads_values(values: Seq<u64>, tx: Transaction, key: PreparedIncomingViewingKey, n: nat) -> bool {
    exists|places: Seq<int>|
        {
            &&& #[trigger] places.len() == values.len()
            &&& forall|k: int|
                0 <= k < places.len() ==> 0 <= #[trigger] places[k] < n && decrypted_note(tx, places[k], key) is Some
                    && values[k] == note_value(decrypted_note(tx, places[k], key)->0)
            &&& forall|j: int, k: int| 0 <= j < k < places.len() ==> #[trigger] places[j] < #[trigger] places[k]
            &&& forall|i: int|
                0 <= i < n && (#[trigger] decrypted_note(tx, i, key)) is Some ==> places.contains(i)
        }
}

proof fn lemma_reads_values(tx: Transaction, key: PreparedIncomingViewingKey, n: nat) -> (places: Seq<int>)
    ensures
        places.len() == received_values(tx, key, n).len(),
        forall|k: int|
            0 <= k < places.len() ==> 0 <= #[trigger] places[k] < n && decrypted_note(tx, places[k], key) is Some
                && received_values(tx, key, n)[k] == note_value(decrypted_note(tx, places[k], key)->0),
        forall|j: int, k: int| 0 <= j < k < places.len() ==> #[trigger] places[j] < #[trigger] places[k],
        forall|i: int| 0 <= i < n && (#[trigger] decrypted_note(tx, i, key)) is Some ==> places.contains(i),
    decreases n,
{
    if n == 0 {
        Seq::empty()
    } else {
        let before = lemma_reads_values(tx, key, (n - 1) as nat);
        if decrypted_note(tx, n - 1, key) is Some {
            let places = before.push(n - 1);
            assert forall|i: int| 0 <= i < n && (#[trigger] decrypted_note(tx, i, key)) is Some implies places.contains(
                i,
            ) by {
                if i < n - 1 {
                    let k = choose|k: int| 0 <= k < before.len() && before[k] == i;
                    assert(places[k] == i);
                } else {
                    assert(places[before.len() as int] == i);
                }
            }
            places
        } else {
            before
        }
    }
}

/// What a payment pays to the service is the value of every output that the incoming
/// key of its seed reads; it is known where the seed gives a key and the transaction
/// can be read at that height.
pub proof fn law_every_note_for_the_service_counts(bytes: Seq<u8>, seed: Seq<char>, net: Network, height: u32)
    ensures
        ({
            let paid = payments_to(bytes, seed, net, height);
            let parsed = parsed_transaction(bytes, net, height);
            &&& paid is Some <==> seed_key(seed) is Some && parsed is Some
            &&& paid is Some ==> reads_values(
                paid->0,
                parsed->0,
                prepared_key(external_incoming_key(viewing_key(seed_key(seed)->0))),
                ironwood_leaves(parsed->0).len(),
            )
        }),
{
    if payments_to(bytes, seed, net, height) is Some {
        let parsed = parsed_transaction(bytes, net, height)->0;
        let key = prepared_key(external_incoming_key(viewing_key(seed_key(seed)->0)));
        let places = lemma_reads_values(parsed, key, ironwood_leaves(parsed).len());
        assert(places.len() == payments_to(bytes, seed, net, height)->0.len());
    }
}

/// Whether the pending set of a ledger, with one more transaction, fits into a message.
pub open spec fn leaves_room(chain_id: Seq<char>, ledger: LedgerView, raw: Seq<char>) -> bool {
    exists|places: Seq<int>| #[trigger]
        picks(places, ledger.records, waits()) && pending_bytes(
            PendingView {
                chain_id,
                tip: ledger.tip->0,
                transactions: Seq::new(places.len(), |i: int| ledger.records[places[i]].raw_tx).push(raw),
            },
        ).len() <= 2097152
}

proof fn lemma_room(chain_id: Seq<char>, ledger: LedgerView, raw: Seq<char>)
    requires
        ledger.tip is Some,
    ensures
        has_room(chain_id, ledger, raw) ==> leaves_room(chain_id, ledger, raw),
        !has_room(chain_id, ledger, raw) ==> exists|places: Seq<int>| #[trigger]
            picks(places, ledger.records, waits()) && pending_bytes(
                PendingView {
                    chain_id,
                    tip: ledger.tip->0,
                    transactions: Seq::new(places.len(), |i: int| ledger.records[places[i]].raw_tx).push(raw),
                },
            ).len() > 2097152,
{
    law_the_pending_set_lists_every_pending_payment(chain_id, ledger);
    let now = crate::server::pending_set(chain_id, ledger)->0;
    let places = choose|places: Seq<int>| #[trigger]
        picks(places, ledger.records, waits()) && now.transactions == Seq::new(
            places.len(),
            |i: int| ledger.records[places[i]].raw_tx,
        );
    let listed = Seq::new(places.len(), |i: int| ledger.records[places[i]].raw_tx);
    assert(now.transactions =~= listed);
    assert((PendingView { transactions: now.transactions.push(raw), ..now }) == (PendingView {
        chain_id,
        tip: ledger.tip->0,
        transactions: listed.push(raw),
    }));
}

/// A payment that a node has judged is refused for the first of these reasons that
/// holds: the node found it invalid, the best block is another, what it pays cannot be
/// read or added up, it pays less than the least fee, or the pending set would no longer
/// fit into a message. Where none holds, it is accepted.
pub proof fn law_verified_payments_are_refused_only_for_a_reason(
    service: ServiceView,
    store: StoreView,
    raw: Seq<char>,
    tx: TxView,
    tip: TipView,
    valid: bool,
    best_hash: Option<Seq<char>>,
)
    requires
        tip.height < u32::MAX,
    ensures
        ({
            let no = refusal(service, store, raw, tx, tip, valid, best_hash);
            let next = (tip.height + 1) as u32;
            let paid = payments_to(tx.bytes, service.seed, service.net, next);
            let current = best_hash is Some && best_hash->0 == tip.hash;
            let fee = sum(paid->0);
            &&& !valid ==> no is Some && no->0 is Refused && no->0->code == -32002 && no->0->reason == "invalid_tx"@
            &&& valid && !current ==> no is Some && says_no(
                no->0,
                -32001,
                "not_ready"@,
                "tip changed during validation"@,
            )
            &&& valid && current && (paid is None || fee > u64::MAX) ==> no is Some && no->0 is Refused && no->0->code
                == -32603 && no->0->reason == "internal"@ && no->0->message == received_message(
                tx.bytes,
                service.seed,
                service.net,
                next,
            )
            &&& valid && current && paid is Some && fee < service.min_fee_zat ==> no is Some && says_no(
                no->0,
                -32003,
                "fee_too_low"@,
                "insufficient service fee"@,
            )
            &&& valid && current && paid is Some && service.min_fee_zat <= fee <= u64::MAX && store.ledger.tip is None
                ==> no is Some && says_no(no->0, -32603, "internal"@, "missing tip"@)
            &&& no is Some && valid && current && paid is Some && service.min_fee_zat <= fee <= u64::MAX
                && store.ledger.tip is Some ==> says_no(no->0, -32005, "pending_full"@, "pending set at capacity"@)
                && exists|places: Seq<int>| #[trigger]
                picks(places, store.ledger.records, waits()) && pending_bytes(
                    PendingView {
                        chain_id: service.chain_id,
                        tip: store.ledger.tip->0,
                        transactions: Seq::new(places.len(), |i: int| store.ledger.records[places[i]].raw_tx).push(raw),
                    },
                ).len() > 2097152
            &&& no is None ==> valid && current && paid is Some && service.min_fee_zat <= fee <= u64::MAX
                && store.ledger.tip is Some && leaves_room(service.chain_id, store.ledger, raw)
        }),
{
    if store.ledger.tip is Some {
        lemma_room(service.chain_id, store.ledger, raw);
    }
}

/// A payment that is accepted is recorded under its identifier, as it was sent, with
/// what it pays and the receipt for that; it is pending, and it is neither included nor
/// has it failed.
pub proof fn law_accepted_payments_are_recorded_as_pending(service: ServiceView, raw: Seq<char>, txid: Seq<char>, fee: u64)
    ensures
        ({
            let record = accepted_record(service, raw, txid, fee);
            &&& record.txid == txid && record.raw_tx == raw && record.fee == fee
            &&& record.receipt == issued_json(service.key, service.chain_id, txid, fee)
            &&& record.status == "pending"@
            &&& record.inclusion is None && record.failure_reason is None
        }),
{
}

} // verus!
