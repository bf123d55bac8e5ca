use ed25519_dalek::Signer;
use preconf::amount::{share, total, ShareError};
use preconf::config::{min_fee, Config, Role};
use preconf::event::Event;
use preconf::ledger::{Ledger, Payout, Record, Store, Tip};
use preconf::miner::{is_server, needs_selection, read_reply, still_best, Reply, ReplyError};
use preconf::p2p::{custom, pending_request, Frame, Pending, PendingService, Reject, CAP};
use preconf::payout::read_mempool;
use preconf::receipt::{issue_receipt, service_key, signing_seed, verify_receipt, ReceiptError, SeedError};
use preconf::server::{error, internal, read_call, respond, result};
use preconf::text::{decimal_text, same_optional};
use preconf::worker::{item, read_outputs, read_requests, reply, Built, Order, OrderError};
use serde_json::Value;

fn value(text: &str) -> Value {
    serde_json::from_str(text).unwrap()
}

fn frame(chain_id: &str) -> Frame {
    Frame { message_type: 0, flags: 0, payload: pending_request(chain_id).unwrap() }
}

#[test]
fn wrong_chain_and_insufficient_capacity_never_return_pending_transactions() {
    let pending = Pending {
        chain_id: "a".repeat(64),
        tip: Tip { height: 1, hash: "b".repeat(64) },
        transactions: vec!["ff".repeat(200)],
    };
    let service = PendingService { feed: Some(pending.clone()), chain_id: pending.chain_id.clone() };
    let wrong = service.request_frame(1024, 1024, &frame(&"c".repeat(64))).unwrap();
    assert_eq!(wrong[0].message_type, 2);
    assert_eq!(serde_json::from_slice::<Value>(&wrong[0].payload).unwrap()["reason"], "wrong_chain");
    let small = service.request_frame(128, 128, &frame(&pending.chain_id)).unwrap();
    assert_eq!(small[0].message_type, 2);
    assert_eq!(serde_json::from_slice::<Value>(&small[0].payload).unwrap()["reason"], "capacity");
    let full = service.request_frame(1024, 1024, &frame(&pending.chain_id)).unwrap();
    assert_eq!(Pending::from_message(&full[0].payload).unwrap(), pending);
}

#[test]
fn restart_preserves_receipt_and_signed_payout_assignment() {
    let receipt = value("{\"payload\":\"exact-bytes\",\"signature\":\"immutable\"}");
    let block = Tip { height: 2, hash: "b".repeat(64) };
    let saved = {
        let mut store = Store::open(None).unwrap();
        store.ledger.records.push(Record {
            txid: "tx".into(),
            raw_tx: "00".into(),
            fee: 10000,
            receipt: receipt.clone(),
            status: "included".into(),
            inclusion: Some(block.clone()),
            failure_reason: None,
        });
        store.ledger.payouts.push(Payout {
            block,
            address: "miner".into(),
            amount: 9800,
            txids: vec!["tx".into()],
            raw_tx: Some("signed".into()),
            txid: Some("payout".into()),
            status: "waiting".into(),
            reason: None,
        });
        store.ledger.to_text().unwrap()
    };
    let store = Store::open(Some(saved.as_str())).unwrap();
    assert!(!store.ready, "restart must reconcile before accepting");
    assert!(store.recovering);
    assert_eq!(store.ledger.records[0].receipt, receipt);
    assert_eq!(store.ledger.payouts[0].raw_tx.as_deref(), Some("signed"));
    assert_eq!(store.ledger.payouts[0].txids, vec!["tx"]);
    assert_eq!(store.ledger.to_text().unwrap(), saved);
}

#[test]
fn receipts_that_look_like_raw_values_are_written_as_they_are() {
    let odd = "{\"$serde_json::private::RawValue\":\"0\"}";
    let mut held = serde_json::Map::new();
    held.insert("$serde_json::private::RawValue".to_string(), Value::from("0"));
    let mut paid = record("pending");
    paid.receipt = Value::Object(held);
    let ledger = Ledger { tip: None, records: vec![paid], payouts: vec![] };
    assert!(ledger.to_text().unwrap().contains(odd));
}

#[test]
fn pending_requests_are_checked() {
    let service = PendingService { feed: None, chain_id: "c".into() };
    assert_eq!(service.name(), "zakura.preconf.v1");
    assert_eq!(service.message_types(), vec![0, 1, 2]);
    assert_eq!(service.message_payload_limits(), vec![(0, 128), (1, CAP), (2, 128)]);
    let idle = service.request_frame(1024, 1024, &frame("c")).unwrap();
    assert_eq!(idle[0].payload, b"{\"reason\":\"not_ready\"}".to_vec());
    let kind = Frame { message_type: 1, flags: 0, payload: vec![] };
    assert_eq!(service.request_frame(1024, 1024, &kind), Err(Reject::Kind));
    assert_eq!(Reject::Kind.message(), "invalid preconf request");
    let flagged = Frame { message_type: 0, flags: 1, payload: vec![] };
    assert_eq!(service.request_frame(1024, 1024, &flagged), Err(Reject::Kind));
    let unknown = Frame { message_type: 0, flags: 0, payload: b"{\"chain_id\":\"c\",\"x\":1}".to_vec() };
    assert!(matches!(service.request_frame(1024, 1024, &unknown), Err(Reject::Payload(_))));
    let nothing = Frame { message_type: 0, flags: 0, payload: b"no".to_vec() };
    assert!(matches!(service.request_frame(1024, 1024, &nothing), Err(Reject::Payload(_))));
    assert_eq!(service.request_frame(8, 1024, &frame("c")), Err(Reject::Capacity));
    assert_eq!(service.request_frame(4, 1024, &frame("c")), Err(Reject::Capacity));
    assert_eq!(Reject::Capacity.message(), "frame capacity");
}

#[test]
fn servers_provide_and_miners_seek_the_service() {
    let server = custom(None, "c".into(), true);
    assert_eq!(server.provides, vec!["zakura.preconf.v1"]);
    assert!(server.seeks.is_empty());
    let miner = custom(None, "c".into(), false);
    assert!(miner.provides.is_empty());
    assert_eq!(miner.seeks, vec!["zakura.preconf.v1"]);
    assert_eq!(miner.service.chain_id, "c");
}

fn pending_frame(pending: &Pending) -> Frame {
    Frame { message_type: 1, flags: 0, payload: pending.to_message().unwrap() }
}

#[test]
fn miners_take_pending_sets_of_their_chain() {
    let pending = Pending { chain_id: "c".into(), tip: Tip { height: 1, hash: "h".into() }, transactions: vec!["t".into()] };
    match read_reply(&vec![pending_frame(&pending)], "c", &None) {
        Ok(Reply::Received(read, changed)) => {
            assert_eq!(read, pending);
            assert!(changed);
        }
        _ => panic!("not received"),
    }
    match read_reply(&vec![pending_frame(&pending)], "c", &Some(pending.clone())) {
        Ok(Reply::Received(_, changed)) => assert!(!changed),
        _ => panic!("not received"),
    }
    let mut other = pending.clone();
    other.transactions.push("u".into());
    assert!(!other.same(&pending));
    match read_reply(&vec![pending_frame(&pending)], "c", &Some(other)) {
        Ok(Reply::Received(_, changed)) => assert!(changed),
        _ => panic!("not received"),
    }
    assert!(matches!(read_reply(&vec![pending_frame(&pending)], "d", &None), Err(ReplyError::WrongChain)));
    assert_eq!(ReplyError::WrongChain.message(), "wrong chain in pending response");
    let broken = Frame { message_type: 1, flags: 0, payload: b"[]".to_vec() };
    assert!(matches!(read_reply(&vec![broken], "c", &None), Err(ReplyError::Malformed(_))));
    let refusal = Frame { message_type: 2, flags: 0, payload: vec![] };
    assert!(matches!(read_reply(&vec![refusal], "c", &None), Ok(Reply::Unavailable)));
    assert!(matches!(read_reply(&vec![], "c", &None), Ok(Reply::Unavailable)));
    let huge = Frame { message_type: 1, flags: 0, payload: vec![0; CAP + 1] };
    assert!(matches!(read_reply(&vec![huge], "c", &None), Ok(Reply::Unavailable)));
}

#[test]
fn miners_know_their_server_and_when_to_select() {
    assert!(still_best("a", Some("a")));
    assert!(!still_best("a", Some("b")));
    assert!(!still_best("a", None));
    assert!(is_server(&[0xab, 0x01], "ab01"));
    assert!(!is_server(&[0xab, 0x01], "ab02"));
    assert!(needs_selection(true, Some("p"), "p"));
    assert!(needs_selection(false, None, "p"));
    assert!(needs_selection(false, Some("q"), "p"));
    assert!(!needs_selection(false, Some("p"), "p"));
}

#[test]
fn pending_sets_survive_the_wire() {
    let pending = Pending {
        chain_id: "quote \" and \\ and \u{e9}".into(),
        tip: Tip { height: u32::MAX, hash: "h".into() },
        transactions: vec![],
    };
    let message = pending.to_message().unwrap();
    assert_eq!(Pending::from_message(&message).unwrap(), pending);
    let unknown = b"{\"chain_id\":\"c\",\"tip\":{\"height\":1,\"hash\":\"h\"},\"transactions\":[],\"x\":0}";
    assert!(Pending::from_message(unknown).is_err());
    let tall = b"{\"chain_id\":\"c\",\"tip\":{\"height\":4294967296,\"hash\":\"h\"},\"transactions\":[]}";
    assert!(Pending::from_message(tall).is_err());
    let listed = b"[\"c\",[1,\"h\"],[\"t\"]]";
    assert_eq!(Pending::from_message(listed).unwrap().transactions, vec!["t"]);
}

#[test]
fn receipts_verify_and_say_what_was_accepted() {
    let seed = signing_seed(&"07".repeat(32)).unwrap();
    let key = service_key(&seed);
    assert_eq!(key, hex::encode(ed25519_dalek::SigningKey::from_bytes(&seed).verifying_key().to_bytes()));
    let receipt = issue_receipt(&seed, "chain", "tx", 12345).unwrap();
    let payload = verify_receipt(&key, &receipt.to_string()).unwrap();
    assert_eq!(payload, "{\"chain_id\":\"chain\",\"service_fee_zat\":\"12345\",\"txid\":\"tx\"}");
    let other = service_key(&signing_seed(&"08".repeat(32)).unwrap());
    assert!(matches!(verify_receipt(&other, &receipt.to_string()), Err(ReceiptError::Invalid(_))));
    let mut forged = receipt.clone();
    forged["payload"] = Value::from("e30=");
    assert!(matches!(verify_receipt(&key, &forged.to_string()), Err(ReceiptError::Invalid(_))));
}

#[test]
fn receipts_are_rejected_for_a_reason() {
    let seed = signing_seed(&"07".repeat(32)).unwrap();
    let key = service_key(&seed);
    let good = issue_receipt(&seed, "chain", "tx", 1).unwrap();
    let with = |name: &str, text: &str| {
        let mut receipt = good.clone();
        receipt[name] = Value::from(text);
        receipt.to_string()
    };
    assert!(matches!(verify_receipt(&key, "{"), Err(ReceiptError::Json(_))));
    assert_eq!(verify_receipt(&key, "{}"), Err(ReceiptError::Payload));
    assert!(matches!(verify_receipt(&key, &with("payload", "e30")), Err(ReceiptError::Base64(_))));
    assert_eq!(verify_receipt(&key, "{\"payload\":\"e30=\"}"), Err(ReceiptError::Signature));
    assert!(matches!(verify_receipt(&key, &with("signature", "z")), Err(ReceiptError::SignatureHex(_))));
    assert_eq!(verify_receipt(&key, &with("signature", "00")), Err(ReceiptError::SignatureLength));
    let words = ed25519_dalek::Signature::from_slice(&[0]).unwrap_err().to_string();
    assert_eq!(ReceiptError::SignatureLength.message(), words);
    assert!(matches!(verify_receipt("z", &good.to_string()), Err(ReceiptError::KeyHex(_))));
    assert_eq!(verify_receipt("00", &good.to_string()), Err(ReceiptError::KeyLength));
    let no_point = format!("02{}", "00".repeat(31));
    assert!(matches!(verify_receipt(&no_point, &good.to_string()), Err(ReceiptError::Key(_))));
    assert_eq!(signing_seed("00"), Err(SeedError::Length));
    assert_eq!(SeedError::Length.message(), "seed length");
    assert!(matches!(signing_seed("0"), Err(SeedError::Hex(_))));
}

#[test]
fn receipts_for_bytes_that_are_no_text_are_rejected() {
    let seed = [9u8; 32];
    let mut message = b"zcash-preconf-demo/v1\n".to_vec();
    message.push(0xff);
    let signature = ed25519_dalek::SigningKey::from_bytes(&seed).sign(&message).to_bytes();
    let receipt = format!("{{\"payload\":\"/w==\",\"signature\":\"{}\"}}", hex::encode(signature));
    assert!(matches!(verify_receipt(&service_key(&seed), &receipt), Err(ReceiptError::Utf8(_))));
}

fn record(status: &str) -> Record {
    Record {
        txid: "tx".into(),
        raw_tx: "00".into(),
        fee: 1,
        receipt: value("{}"),
        status: status.into(),
        inclusion: None,
        failure_reason: None,
    }
}

#[test]
fn results_count_confirmations() {
    let mut mined = record("included");
    mined.inclusion = Some(Tip { height: 5, hash: "h".into() });
    let at = |height: u32| Some(Tip { height, hash: "t".into() });
    assert_eq!(result(&mined, &at(5))["inclusion"]["confirmations"], 1);
    assert_eq!(result(&mined, &at(9))["inclusion"]["confirmations"], 5);
    assert_eq!(result(&mined, &at(3))["inclusion"]["confirmations"], 1);
    assert_eq!(result(&mined, &None)["inclusion"]["confirmations"], 0);
    assert_eq!(result(&mined, &None)["inclusion"]["block_hash"], "h");
    assert_eq!(result(&mined, &None)["inclusion"]["height"], 5);
    let expected = "{\"txid\":\"tx\",\"status\":\"pending\",\"receipt\":{},\"inclusion\":null,\"failure_reason\":null}";
    assert_eq!(result(&record("pending"), &None), value(expected));
}

#[test]
fn calls_are_read_and_answered() {
    let call = match read_call(b"{\"jsonrpc\":\"2.0\",\"id\":7,\"method\":\"m\",\"params\":{\"a\":1}}") {
        Ok(call) => call,
        Err(_) => panic!("rejected"),
    };
    assert_eq!(call.id, value("7"));
    assert_eq!(call.method, "m");
    assert_eq!(call.params, value("{\"a\":1}"));
    let nameless = read_call(b"{\"jsonrpc\":\"2.0\",\"id\":null,\"params\":{}}");
    assert!(matches!(nameless, Ok(call) if call.method.is_empty()));
    let garbage = read_call(b"{").err().unwrap();
    let parse_error = "{\"jsonrpc\":\"2.0\",\"id\":null,\"error\":{\"code\":-32700,\"message\":\"invalid JSON\",\"data\":{\"reason\":\"parse_error\"}}}";
    assert_eq!(garbage, value(parse_error));
    for body in ["{\"id\":7,\"params\":{}}", "{\"jsonrpc\":\"2.0\",\"id\":7,\"params\":[]}", "{\"jsonrpc\":\"1.0\",\"id\":7,\"params\":{}}"] {
        let refused = read_call(body.as_bytes()).err().unwrap();
        assert_eq!(refused["error"]["code"], -32600);
        assert_eq!(refused["id"], 7);
    }
    assert_eq!(read_call(b"{\"jsonrpc\":\"2.0\",\"params\":{}}").err().unwrap()["id"], Value::Null);
    assert_eq!(respond(value("1"), Ok(value("true"))), value("{\"jsonrpc\":\"2.0\",\"id\":1,\"result\":true}"));
    let inner = internal("words".into());
    assert_eq!(inner, (-32603, "internal", "words".to_string()));
    assert_eq!(respond(value("1"), Err(inner)), error(value("1"), -32603, "internal", "words"));
}

#[test]
fn metrics_and_state_show_the_ledger() {
    let mut store = Store::open(None).unwrap();
    store.ledger.records.push(record("pending"));
    store.ledger.records.push(record("pending"));
    store.ledger.records.push(record("failed"));
    store.ledger.tip = Some(Tip { height: 17, hash: "h".into() });
    store.ready = true;
    let expected = "preconf_ready 1\npreconf_chain_height 17\n\
        preconf_transactions{status=\"pending\"} 2\n\
        preconf_transactions{status=\"included\"} 0\n\
        preconf_transactions{status=\"failed\"} 1\n\
        preconf_payouts{status=\"waiting\"} 0\n\
        preconf_payouts{status=\"broadcast\"} 0\n\
        preconf_payouts{status=\"confirmed\"} 0\n\
        preconf_payouts{status=\"blocked\"} 0\n";
    assert_eq!(store.metrics(), expected);
    assert!(Store::open(None).unwrap().metrics().starts_with("preconf_ready 0\npreconf_chain_height 0\n"));
    let state = store.state();
    assert_eq!(state["ready"], true);
    assert_eq!(state["ledger"], value(&store.ledger.to_text().unwrap()));
}

#[test]
fn ledgers_are_read_leniently() {
    let ledger = Ledger::from_text("{\"records\":[],\"payouts\":[],\"more\":1}").unwrap();
    assert_eq!(ledger, Ledger::default());
    assert!(Ledger::from_text("{\"records\":[]}").is_err());
    assert!(Ledger::from_text("no").is_err());
    assert!(Ledger::from_text("{\"tip\":{\"height\":1,\"hash\":\"h\",\"x\":2},\"records\":[],\"payouts\":[]}").is_err());
    assert!(Store::open(Some("[]")).is_err());
}

#[test]
fn ledgers_are_reconciled_when_they_must_be() {
    let mut store = Store::open(None).unwrap();
    assert!(!store.must_reconcile(None, None));
    assert!(store.must_reconcile(Some("h"), Some(1)));
    store.ledger.tip = Some(Tip { height: 5, hash: "h".into() });
    assert!(!store.must_reconcile(Some("h"), Some(4)));
    assert!(!store.must_reconcile(Some("h"), None));
    assert!(store.must_reconcile(Some("h"), Some(5)));
    store.resume();
    assert!(!store.must_reconcile(Some("h"), Some(5)));
    assert!(store.must_reconcile(Some("other"), Some(5)));
}

#[test]
fn events_say_what_changed() {
    let block_hash = "b".to_string();
    let txid = "t".to_string();
    let cases = vec![
        (Event::Accepted { txid: txid.clone(), fee: 3 }, "accepted", "{\"txid\":\"t\",\"fee_zat\":3}"),
        (
            Event::Reconciled { tip: Tip { height: 1, hash: "h".into() } },
            "chain_reconciled",
            "{\"tip\":{\"height\":1,\"hash\":\"h\"}}",
        ),
        (
            Event::PayoutSigned { block_hash: block_hash.clone(), txid: txid.clone(), amount: 5 },
            "payout_signed",
            "{\"block_hash\":\"b\",\"txid\":\"t\",\"amount_zat\":5}",
        ),
        (Event::PayoutBlocked { block_hash: block_hash.clone() }, "payout_blocked", "{\"block_hash\":\"b\"}"),
        (Event::PayoutRecovered { block_hash: block_hash.clone() }, "payout_broadcast_recovered", "{\"block_hash\":\"b\"}"),
        (
            Event::PayoutBroadcast { block_hash, sent: None },
            "payout_broadcast",
            "{\"block_hash\":\"b\",\"txid\":null}",
        ),
    ];
    for (event, kind, data) in cases {
        assert_eq!(event.kind(), kind);
        assert_eq!(event.data(), value(data));
    }
}

#[test]
fn mempools_are_lists() {
    let waiting = read_mempool(&value("[\"a\",1]")).unwrap();
    assert_eq!(waiting, vec![Some("a".to_string()), None]);
    assert_eq!(read_mempool(&value("{}")), None);
}

#[test]
fn shares_round_down_and_must_fit() {
    assert_eq!(share(&vec![10000]), Ok(9800));
    assert_eq!(share(&vec![10000, 51]), Ok(9849));
    assert_eq!(share(&vec![1]), Ok(0));
    assert_eq!(share(&vec![u64::MAX, 1]), Err(ShareError::Fees));
    assert_eq!(ShareError::Fees.message(), "fee overflow");
    assert_eq!(share(&vec![u64::MAX]), Err(ShareError::Amount));
    assert_eq!(total(&vec![1, 2, 3]), Some(6));
    assert_eq!(total(&vec![u64::MAX, 1]), None);
}

#[test]
fn numbers_are_written_and_texts_compared() {
    assert_eq!(decimal_text(0), "0");
    assert_eq!(decimal_text(u64::MAX), "18446744073709551615");
    assert!(same_optional(None, None));
    assert!(!same_optional(Some("a"), None));
}

fn config_text(more: &str) -> String {
    format!("{{\"role\":\"miner\",\"node_config\":\"n\",\"chain_id\":\"c\",\"server_peer\":\"p\",\"node_rpc\":\"r\",\"api\":\"a\",\"database\":\"d\",\"seed\":\"s\",\"miners\":[\"m\"]{more}}}")
}

#[test]
fn configurations_are_read_strictly() {
    let config = Config::read(config_text("").as_bytes()).unwrap();
    assert_eq!(config.min_fee_zat, 10000);
    assert_eq!(min_fee(), 10000);
    assert_eq!(config.miners, vec!["m"]);
    assert_eq!(config.role(), Some(Role::Miner));
    assert_eq!(Config::read(config_text(",\"min_fee_zat\":5").as_bytes()).unwrap().min_fee_zat, 5);
    assert!(Config::read(config_text(",\"more\":5").as_bytes()).is_err());
    assert!(Config::read(config_text(",\"min_fee_zat\":null").as_bytes()).is_err());
    assert!(Config::read(b"{}").is_err());
    let listed = Config::read(b"[\"server\",\"n\",\"c\",\"p\",\"r\",\"a\",\"d\",\"s\",[],7]").unwrap();
    assert_eq!((listed.role(), listed.min_fee_zat), (Some(Role::Server), 7));
    let mut odd = config;
    odd.role = "other".into();
    assert_eq!(odd.role(), None);
}

#[test]
fn orders_are_read_from_requests() {
    let request = value("{\"seed\":\"s\",\"outputs\":[[\"a\",5]],\"conflict\":true}");
    let order = Order::read(&request).unwrap();
    assert_eq!(order, Order { seed: "s".into(), outputs: vec![("a".into(), 5)], fee: 20000, input: None });
    let rival = order.conflicting(&request, "ab").unwrap();
    assert_eq!(rival.fee, 120000);
    assert_eq!(rival.input.as_deref(), Some("nf:ab"));
    assert_eq!(rival.outputs, order.outputs);
    let plain = value("{\"seed\":\"s\",\"outputs\":[],\"fee\":7,\"conflict\":1}");
    let order = Order::read(&plain).unwrap();
    assert_eq!(order.fee, 7);
    assert_eq!(order.conflicting(&plain, "ab"), None);
    assert_eq!(Order::read(&value("{}")), Err(OrderError::Seed));
    let absent = Order::read(&value("{\"seed\":\"s\"}")).unwrap_err();
    assert_eq!(absent.message(), "invalid type: null, expected a sequence");
    let negative = Order::read(&value("{\"seed\":\"s\",\"outputs\":[[\"a\",-5]]}"));
    assert!(matches!(negative, Err(OrderError::Outputs(_))));
    assert_eq!(read_outputs("[[\"a\",1],[\"b\",2]]").unwrap().len(), 2);
    assert!(read_outputs("[[\"a\",1,2]]").is_err());
    assert!(read_outputs("{\"$serde_json::private::RawValue\":\"[]\"}").is_err());
    assert_eq!(read_requests("[1,2]").unwrap(), vec![value("1"), value("2")]);
    assert!(read_requests("{}").unwrap_err().starts_with("invalid type: map, expected a sequence"));
}

#[test]
fn built_payments_are_written_back() {
    let built = Built { raw_tx: "r".into(), txid: "t".into(), input_txid: "i".into(), input_nf: "n".into() };
    let shown = value("{\"raw_tx\":\"r\",\"txid\":\"t\",\"input_txid\":\"i\",\"input_nf\":\"n\"}");
    assert_eq!(built.to_value(), shown);
    let alone = item(&built, &None);
    assert_eq!(alone["payment"], shown);
    assert!(alone.get("conflict").is_none());
    let both = item(&built, &Some(Built { raw_tx: "x".into(), txid: "t".into(), input_txid: "i".into(), input_nf: "n".into() }));
    assert_eq!(both["conflict"]["raw_tx"], "x");
    assert_eq!(reply(Ok(vec![value("1")])), value("{\"result\":[1]}"));
    assert_eq!(reply(Err("words".into())), value("{\"error\":\"words\"}"));
}
