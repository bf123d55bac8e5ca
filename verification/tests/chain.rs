use orchard::builder::{Builder, BundleType};
use orchard::bundle::{Authorized, BundleVersion, Flags};
use orchard::keys::{FullViewingKey, OutgoingViewingKey, Scope};
use orchard::primitives::redpallas::Signature;
use orchard::tree::MerkleHashOrchard;
use orchard::value::NoteValue;
use orchard::{Anchor, Proof};
use preconf::chain::{advance, ask, rpc, rpc_request, ChainError, RpcError, Stage};
use preconf::config::{network, Config};
use preconf::event::Event;
use preconf::ledger::{Ledger, Store, Tip};
use preconf::miner::select;
use preconf::p2p::{verify, VerifyError};
use preconf::payout::{Need, PayoutError, Reply};
use preconf::reconcile::{chain_tip, ReconcileError};
use preconf::server::{dispatch, pending, Answer, ApiError, Service, Submission};
use preconf::transaction::{raw_block, raw_tx, Block, RawTxError};
use preconf::wallet::keys::{address, key, receiver, KeyError, ReceiverError};
use preconf::wallet::payment::{create, CreateError};
use preconf::wallet::scan::{attribute, coinbase_receivers, received, CoinbaseError, ReceivedError};
use preconf::wallet::state::{SyncError, WalletState};
use preconf::worker::{inspect, reserve, unreserved, Built, InspectError};
use rand::rngs::StdRng;
use rand::SeedableRng;
use serde_json::Value;
use zcash_primitives::transaction::fees::fixed::FeeRule;
use zcash_primitives::transaction::TransactionData;
use zcash_protocol::consensus::BranchId;
use zcash_protocol::value::{ZatBalance, Zatoshis};

fn service_seed() -> String {
    "01".repeat(32)
}

fn miner_seed() -> String {
    "02".repeat(32)
}

fn payer_seed() -> String {
    "03".repeat(32)
}

/// A transaction with Ironwood outputs only. Its proof and signatures are blank.
fn transaction(outputs: &[(String, u64)], coinbase: bool, expiry: u32, salt: u64) -> Vec<u8> {
    let version = BundleVersion::ironwood_v3();
    let (kind, flags) = if coinbase {
        (BundleType::Coinbase, Flags::SPENDS_DISABLED)
    } else {
        (BundleType::Transactional { bundle_required: true, pad_to_minimum: None }, version.default_flags())
    };
    let anchor = Anchor::from(MerkleHashOrchard::from_bytes(&[0u8; 32]).unwrap());
    let mut builder = Builder::new(kind, version, flags, anchor).unwrap();
    for (seed, value) in outputs {
        let fvk = FullViewingKey::from(&key(seed).unwrap());
        let to = fvk.address_at(0u32, Scope::External);
        let ovk = OutgoingViewingKey::from([0u8; 32]);
        builder.add_output(Some(ovk), to, NoteValue::from_raw(*value), [0u8; 512]).unwrap();
    }
    let mut rng = StdRng::seed_from_u64(salt);
    let (bundle, _) = builder.build::<ZatBalance>(&mut rng).unwrap().unwrap();
    let proof = Proof::new(vec![0u8; Proof::expected_proof_size(bundle.actions().len())]);
    let bundle = bundle.map_authorization(
        &mut (),
        |_, _, _| Signature::from([0u8; 64]),
        |_, _| Authorized::from_parts(proof, Signature::from([0u8; 64])),
    );
    let data = TransactionData::<zcash_primitives::transaction::Authorized>::from_parts_v6(
        BranchId::Nu6_3,
        0,
        expiry.into(),
        None,
        None,
        None,
        Some(bundle),
    );
    let mut bytes = Vec::new();
    data.freeze().unwrap().write(&mut bytes).unwrap();
    bytes
}

fn payment(outputs: &[(String, u64)], salt: u64) -> String {
    hex::encode(transaction(outputs, false, 40, salt))
}

/// A block at a height from one to sixteen that pays a seed and includes payments.
fn block_hex(height: u8, to: &str, value: u64, payments: &[String], previous: u8) -> String {
    let plain = transaction(&[(to.to_string(), value)], true, 0, 1000 + height as u64);
    let mut coinbase = plain[..20].to_vec();
    coinbase.push(1);
    coinbase.extend([0u8; 32]);
    coinbase.extend([0xffu8; 4]);
    coinbase.extend([2, 0x50 + height, 0]);
    coinbase.extend([0xffu8; 4]);
    coinbase.extend(&plain[21..]);
    let mut bytes = vec![4, 0, 0, 0];
    bytes.extend([previous; 32]);
    bytes.extend([0u8; 32]);
    bytes.extend([0u8; 32]);
    bytes.extend([0u8; 4]);
    bytes.extend([0u8; 4]);
    bytes.extend([0u8; 32]);
    bytes.extend([0xfd, 0x40, 0x05]);
    bytes.extend(vec![0u8; 1344]);
    bytes.push(1 + payments.len() as u8);
    bytes.extend(coinbase);
    for raw in payments {
        bytes.extend(hex::decode(raw).unwrap());
    }
    hex::encode(bytes)
}

fn block(height: u8, to: &str, value: u64, payments: &[String], previous: u8) -> Block {
    raw_block(&block_hex(height, to, value, payments, previous)).unwrap()
}

fn config() -> Config {
    Config {
        role: "server".into(),
        node_config: "node.toml".into(),
        chain_id: "aa".repeat(32),
        server_peer: "peer".into(),
        node_rpc: "http://127.0.0.1:1".into(),
        api: "127.0.0.1:2".into(),
        database: "service.sqlite".into(),
        seed: service_seed(),
        miners: vec![address(&miner_seed(), &network()).unwrap()],
        min_fee_zat: 10000,
    }
}

fn service() -> Service {
    Service::new(&config()).unwrap_or_else(|e| panic!("{}", e.message()))
}

fn ready_store(tip: Tip) -> Store {
    let ledger = Ledger { tip: Some(tip), records: vec![], payouts: vec![] };
    Store { ledger, ready: true, recovering: false }
}

fn params(key: &str, text: &str) -> Value {
    serde_json::from_str(&format!("{{\"{key}\":\"{text}\"}}")).unwrap()
}

fn submission(store: &Store, raw: &str, best: Option<&str>) -> Submission {
    match dispatch(&service(), store, "preconf_submit", &params("raw_tx", raw), best) {
        Ok(Answer::Verify(submission)) => submission,
        Ok(Answer::Done(_)) => panic!("answered at once"),
        Err(e) => panic!("refused: {}", e.2),
    }
}

fn refusal(store: &Store, method: &str, params: &Value, best: Option<&str>) -> ApiError {
    match dispatch(&service(), store, method, params, best) {
        Err(e) => e,
        Ok(_) => panic!("not refused"),
    }
}

fn done(store: &Store, method: &str, params: &Value, best: Option<&str>) -> Value {
    match dispatch(&service(), store, method, params, best) {
        Ok(Answer::Done(value)) => value,
        _ => panic!("not answered"),
    }
}

#[test]
fn transactions_are_read_from_their_hexadecimal_text() {
    let bytes = transaction(&[(service_seed(), 12000)], false, 40, 1);
    let tx = raw_tx(&hex::encode(&bytes)).unwrap();
    let other = zcash_primitives::transaction::Transaction::read(&bytes[..], BranchId::Nu6_3).unwrap();
    assert_eq!(tx.txid, other.txid().to_string());
    assert_eq!(tx.bytes, bytes);
    assert_eq!(tx.expiry, Some(40));
    assert_eq!(tx.nullifiers.len(), 2);
    let first = other.ironwood_bundle().unwrap().actions()[0].nullifier().to_bytes();
    assert_eq!(tx.nullifiers[0], hex::encode(first));
    assert!(tx.is_ironwood_only());
    assert_eq!(tx.pools.version, 6);
    assert_eq!(hex::decode(&tx.txid).unwrap().len(), 32);
    assert_eq!(tx.pools.inputs, 0);
}

#[test]
fn texts_that_are_no_transaction_are_rejected() {
    let raw = payment(&[(service_seed(), 12000)], 1);
    assert_eq!(raw_tx(&format!("{raw}00")), Err(RawTxError::Trailing));
    assert_eq!(RawTxError::Trailing.message(), "trailing transaction bytes");
    assert!(matches!(raw_tx("zz"), Err(RawTxError::Hex(_))));
    assert!(matches!(raw_tx("00"), Err(RawTxError::Malformed(_))));
    for more in ["ff", "0600008077777777", raw.as_str()] {
        assert_eq!(raw_tx(&format!("{raw}{more}")), Err(RawTxError::Trailing));
    }
    assert!(matches!(raw_tx(&format!("{raw}0")), Err(RawTxError::Hex(_))));
}

#[test]
fn verification_needs_an_ironwood_payment_and_a_chain() {
    let raw = payment(&[(service_seed(), 12000)], 1);
    let request = verify(&raw, Some(7)).unwrap_or_else(|e| panic!("{}", e.message()));
    assert_eq!(request.height, 8);
    assert_eq!(request.tx.txid, raw_tx(&raw).unwrap().txid);
    assert!(matches!(verify(&raw, None), Err(VerifyError::NotReady)));
    assert!(matches!(verify(&raw, Some(2147483647)), Err(VerifyError::Height)));
    assert!(matches!(verify("zz", Some(7)), Err(VerifyError::Raw(RawTxError::Hex(_)))));
    assert!(matches!(verify("00", Some(7)), Err(VerifyError::Raw(RawTxError::Malformed(_)))));
    assert!(matches!(verify(&format!("{raw}00"), None), Err(VerifyError::Raw(RawTxError::Trailing))));
    let mined = block(3, &miner_seed(), 500, &[], 0);
    let coinbase = hex::encode(&mined.transactions[0].bytes);
    assert!(matches!(verify(&coinbase, Some(7)), Err(VerifyError::NotIronwood)));
    assert_eq!(VerifyError::NotIronwood.message(), "Ironwood-only v6 transaction required");
    assert_eq!(VerifyError::NotReady.message(), "chain not ready");
}

#[test]
fn only_the_receiver_sees_what_it_is_paid() {
    let raw = payment(&[(service_seed(), 12000), (service_seed(), 345), (payer_seed(), 7)], 2);
    let tx = raw_tx(&raw).unwrap();
    assert_eq!(received(&tx, &service_seed(), &network(), 1), Ok(12345));
    assert_eq!(received(&tx, &payer_seed(), &network(), 1), Ok(7));
    assert_eq!(received(&tx, &miner_seed(), &network(), 1), Ok(0));
    assert_eq!(received(&tx, "00", &network(), 1), Err(ReceivedError::Key(KeyError::Length)));
}

#[test]
fn inspection_tells_the_payment() {
    let raw = payment(&[(service_seed(), 12000)], 3);
    let value = inspect(&raw, &service_seed(), &network()).unwrap();
    assert_eq!(value["received_zat"], 12000);
    assert_eq!(value["txid"], raw_tx(&raw).unwrap().txid);
    assert_eq!(inspect(&format!("{raw}00"), &service_seed(), &network()), Err(InspectError::Raw(RawTxError::Trailing)));
    assert_eq!(
        inspect(&raw, "00", &network()),
        Err(InspectError::Received(ReceivedError::Key(KeyError::Length)))
    );
}

#[test]
fn seeds_have_keys_and_addresses() {
    assert!(key(&service_seed()).is_ok());
    assert!(matches!(key("xy"), Err(KeyError::Hex(_))));
    assert!(matches!(key("0102"), Err(KeyError::Length)));
    let text = address(&service_seed(), &network()).unwrap();
    let fvk = FullViewingKey::from(&key(&service_seed()).unwrap());
    let own = fvk.address_at(0u32, Scope::External);
    let read = receiver(&text, &network()).unwrap_or_else(|e| panic!("{}", e.message()));
    assert_eq!(read.to_raw_address_bytes(), own.to_raw_address_bytes());
    assert!(matches!(receiver("nonsense", &network()), Err(ReceiverError::NotUnified)));
    assert_ne!(text, address(&miner_seed(), &network()).unwrap());
}

#[test]
fn blocks_are_attributed_to_the_one_miner_they_pay() {
    let mined = block(3, &miner_seed(), 500, &[], 0);
    assert_eq!(mined.height, Some(3));
    assert_eq!(mined.transactions.len(), 1);
    let net = network();
    let recipients = coinbase_receivers(&mined, &net).unwrap();
    let miner = address(&miner_seed(), &net).unwrap();
    let other = address(&payer_seed(), &net).unwrap();
    assert_eq!(attribute(&vec![other.clone(), miner.clone()], &recipients, &net), Some(miner.clone()));
    assert_eq!(attribute(&vec![other], &recipients, &net), None);
    assert_eq!(attribute(&vec![miner.clone(), miner], &recipients, &net), None);
    let headless = Block { height: None, hash: "h".into(), transactions: vec![] };
    assert!(matches!(coinbase_receivers(&headless, &net), Err(CoinbaseError::Height)));
    let empty = block(3, &miner_seed(), 0, &[], 0);
    let nobody = coinbase_receivers(&empty, &net).unwrap();
    assert_eq!(attribute(&vec![address(&miner_seed(), &net).unwrap()], &nobody, &net), None);
}

#[test]
fn accepted_payments_get_a_receipt_and_are_answered_again() {
    let tip = Tip { height: 2, hash: "tip".into() };
    let mut store = ready_store(tip);
    let raw = payment(&[(service_seed(), 12000)], 4);
    let txid = raw_tx(&raw).unwrap().txid;
    let submitted = submission(&store, &raw, Some("tip"));
    let accepted = match store.accept(&service(), &submitted, Ok(()), Some("tip")) {
        Ok(accepted) => accepted,
        Err(e) => panic!("refused: {}", e.2),
    };
    assert_eq!(accepted.event, Event::Accepted { txid: txid.clone(), fee: 12000 });
    assert_eq!(accepted.response["status"], "pending");
    assert_eq!(accepted.response["txid"], txid);
    assert!(accepted.response["inclusion"].is_null());
    assert_eq!(store.ledger.records.len(), 1);
    assert_eq!(store.ledger.records[0].fee, 12000);
    let again = done(&store, "preconf_submit", &params("raw_tx", &raw), None);
    assert_eq!(again, accepted.response);
    assert_eq!(done(&store, "preconf_get", &params("txid", &txid), None), accepted.response);
    let info = done(&store, "preconf_info", &serde_json::from_str("{}").unwrap(), None);
    assert_eq!(info["min_fee_zat"], "10000");
    assert_eq!(info["protocol_version"], 1);
    assert_eq!(info["ready"], true);
    assert_eq!(info["tip"]["height"], 2);
    assert_eq!(info["fee_address"], address(&service_seed(), &network()).unwrap());
    let receipt = accepted.response["receipt"].to_string();
    let service_key = info["service_pubkey"].as_str().unwrap();
    let payload = preconf::receipt::verify_receipt(service_key, &receipt).unwrap();
    let payload: Value = serde_json::from_str(&payload).unwrap();
    assert_eq!(payload["txid"], txid);
    assert_eq!(payload["service_fee_zat"], "12000");
    assert_eq!(payload["chain_id"], "aa".repeat(32));
    let waiting = pending("chain", &store.ledger).unwrap();
    assert_eq!(waiting.transactions, vec![raw]);
    store.withdraw();
    assert!(store.ledger.records.is_empty());
    assert!(!store.ready);
}

#[test]
fn submissions_are_refused_for_a_reason() {
    let tip = Tip { height: 2, hash: "tip".into() };
    let mut store = ready_store(tip);
    let raw = payment(&[(service_seed(), 12000)], 5);
    let first = submission(&store, &raw, Some("tip"));
    assert!(store.accept(&service(), &first, Ok(()), Some("tip")).is_ok());
    let before = store.ledger.to_text().unwrap();

    let none = serde_json::from_str("{}").unwrap();
    assert_eq!(refusal(&store, "preconf_submit", &none, Some("tip")).1, "invalid_params");
    assert_eq!(refusal(&store, "preconf_get", &none, Some("tip")).0, -32602);
    assert_eq!(refusal(&store, "preconf_info", &params("a", "b"), Some("tip")).2, "no parameters expected");
    assert_eq!(refusal(&store, "preconf_get", &params("txid", "none"), None), (-32006, "not_found", "unknown txid".into()));
    assert_eq!(refusal(&store, "other", &none, None), (-32601, "method_not_found", "unknown method".into()));
    let trailing = refusal(&store, "preconf_submit", &params("raw_tx", &format!("{raw}00")), Some("tip"));
    assert_eq!(trailing, (-32002, "invalid_tx", "trailing transaction bytes".into()));

    let next = payment(&[(service_seed(), 12000)], 6);
    let late = refusal(&store, "preconf_submit", &params("raw_tx", &next), Some("other"));
    assert_eq!(late, (-32001, "not_ready", "chain reconciliation pending".into()));

    let mut clashing = hex::decode(&raw).unwrap();
    clashing[16] = 41;
    let clash = refusal(&store, "preconf_submit", &params("raw_tx", &hex::encode(clashing)), Some("tip"));
    assert_eq!(clash, (-32004, "conflict", "spend already reserved".into()));

    let new = submission(&store, &next, Some("tip"));
    let invalid = store.accept(&service(), &new, Err("bad proof".into()), Some("tip"));
    assert!(matches!(invalid, Err((-32002, "invalid_tx", words)) if words == "bad proof"));
    let moved = store.accept(&service(), &new, Ok(()), Some("other"));
    assert!(matches!(moved, Err((-32001, "not_ready", words)) if words == "tip changed during validation"));
    let poor = submission(&store, &payment(&[(service_seed(), 9999)], 7), Some("tip"));
    let unpaid = store.accept(&service(), &poor, Ok(()), Some("tip"));
    assert!(matches!(unpaid, Err((-32003, "fee_too_low", _))));
    let mut broke = service();
    broke.seed = "00".into();
    let keyless = store.accept(&broke, &new, Ok(()), Some("tip"));
    assert!(matches!(keyless, Err((-32603, "internal", words)) if words == "seed must be 32 bytes"));
    let unknown = dispatch(&broke, &store, "preconf_info", &none, Some("tip"));
    assert!(matches!(unknown, Err((-32603, "internal", words)) if words == "seed must be 32 bytes"));
    let large = Submission { raw: "0".repeat(2097152), tx: new.tx, tip: new.tip };
    let full = store.accept(&service(), &large, Ok(()), Some("tip"));
    assert!(matches!(full, Err((-32005, "pending_full", _))));
    assert_eq!(store.ledger.to_text().unwrap(), before);

    store.ledger.tip = None;
    let orphan = Submission { raw: "00".into(), tx: large.tx, tip: large.tip };
    let missing = store.accept(&service(), &orphan, Ok(()), Some("tip"));
    assert!(matches!(missing, Err((-32603, "internal", words)) if words == "missing tip"));
    let unready = refusal(&store, "preconf_submit", &params("raw_tx", &next), None);
    assert_eq!(unready, (-32001, "not_ready", "chain not ready".into()));
    store.ledger.records[0].raw_tx = "zz".into();
    store.ledger.tip = Some(Tip { height: 2, hash: "tip".into() });
    assert_eq!(refusal(&store, "preconf_submit", &params("raw_tx", &next), Some("tip")).1, "internal");
    store.ledger.records[0].raw_tx = format!("{raw}00");
    let unreadable = refusal(&store, "preconf_submit", &params("raw_tx", &next), Some("tip"));
    assert_eq!(unreadable, (-32603, "internal", "trailing transaction bytes".into()));
}

fn store_with(raws: &[String]) -> Store {
    let mut store = ready_store(Tip { height: 0, hash: "old".into() });
    for raw in raws {
        let submitted = submission(&store, raw, Some("old"));
        assert!(store.accept(&service(), &submitted, Ok(()), Some("old")).is_ok());
    }
    store
}

#[test]
fn reconciliation_pays_the_miner_of_each_block_once() {
    let a = payment(&[(service_seed(), 10000)], 10);
    let b = payment(&[(service_seed(), 10051)], 11);
    let c = payment(&[(service_seed(), 20000)], 12);
    let mut store = store_with(&[a.clone(), b.clone(), c.clone()]);
    let blocks = vec![
        block(1, &miner_seed(), 500, &[], 0),
        block(2, &miner_seed(), 500, &[a.clone(), b.clone()], 1),
    ];
    let best = blocks[1].hash.clone();
    assert_eq!(store.questions(&blocks), Some(vec![false, false, true]));
    let miners = config().miners;
    let event = store.reconcile(&blocks, Some(best.as_str()), &vec![false, false, true], &miners, &network()).unwrap();
    assert_eq!(event, Event::Reconciled { tip: Tip { height: 2, hash: best.clone() } });
    assert!(!store.ready);
    store.resume();
    assert!(store.ready && !store.recovering);
    assert_eq!(store.ledger.records[0].status, "included");
    assert_eq!(store.ledger.records[0].inclusion, Some(Tip { height: 2, hash: best.clone() }));
    assert_eq!(store.ledger.records[2].status, "pending");
    assert_eq!(store.ledger.payouts.len(), 1);
    let payout = &store.ledger.payouts[0];
    assert_eq!(payout.amount, 19649);
    assert_eq!(payout.address, miners[0]);
    assert_eq!(payout.txids, vec![raw_tx(&a).unwrap().txid, raw_tx(&b).unwrap().txid]);
    assert_eq!(payout.status, "waiting");
    assert_eq!(payout.first_need(2), Need::Nothing);
    assert_eq!(payout.first_need(3), Need::Build);
    assert_eq!(store.must_reconcile(Some(best.as_str()), Some(2)), true);

    let before = store.ledger.to_text().unwrap();
    store.reconcile(&blocks, Some(best.as_str()), &vec![false, false, true], &miners, &network()).unwrap();
    assert_eq!(store.ledger.to_text().unwrap(), before);

    let unknown = vec![address(&payer_seed(), &network()).unwrap()];
    let mut other = store_with(&[a.clone(), b]);
    other.reconcile(&blocks, Some(best.as_str()), &vec![true, true], &unknown, &network()).unwrap();
    assert!(other.ledger.payouts.is_empty());
    assert_eq!(other.ledger.records[0].status, "included");
}

#[test]
fn payments_fail_when_the_chain_spends_their_notes() {
    let raw = payment(&[(service_seed(), 10000)], 13);
    let mut rival = hex::decode(&raw).unwrap();
    rival[16] = 41;
    let gone = payment(&[(service_seed(), 10000)], 14);
    let late = hex::encode(transaction(&[(service_seed(), 10000)], false, 2, 15));
    let mut store = store_with(&[raw.clone(), gone, late]);
    let blocks = vec![
        block(1, &miner_seed(), 500, &[], 0),
        block(2, &miner_seed(), 500, &[hex::encode(rival)], 1),
    ];
    let best = blocks[1].hash.clone();
    let verdicts = vec![true, false, false];
    store.reconcile(&blocks, Some(best.as_str()), &verdicts, &vec![], &network()).unwrap();
    let reasons: Vec<_> = store.ledger.records.iter().map(|r| r.failure_reason.as_deref()).collect();
    assert_eq!(reasons, vec![Some("conflict"), Some("invalidated"), Some("expired")]);
    assert!(store.ledger.records.iter().all(|r| r.status == "failed"));
    let other = vec![block(1, &miner_seed(), 500, &[], 0), block(2, &miner_seed(), 500, &[], 1)];
    let best = other[1].hash.clone();
    store.reconcile(&other, Some(best.as_str()), &vec![true, true, true], &vec![], &network()).unwrap();
    assert!(store.ledger.records.iter().all(|r| r.status == "pending" && r.failure_reason.is_none()));
}

#[test]
fn reconciliation_stops_with_an_error() {
    let raw = payment(&[(service_seed(), 10000)], 16);
    let mut store = store_with(&[raw]);
    let blocks = vec![block(1, &miner_seed(), 500, &[], 0)];
    let best = blocks[0].hash.clone();
    let verdicts = vec![true];
    let none: Vec<String> = vec![];
    let net = network();
    assert_eq!(store.reconcile(&vec![], None, &verdicts, &none, &net), Err(ReconcileError::EmptyChain));
    assert_eq!(chain_tip(&blocks, Some("x")), Err(ReconcileError::TipChanged));
    assert_eq!(store.reconcile(&blocks, Some("x"), &verdicts, &none, &net), Err(ReconcileError::TipChanged));
    assert_eq!(ReconcileError::TipChanged.message(), "tip changed before reconciliation");
    assert!(store.ready);
    let headless = vec![Block { height: None, hash: "h".into(), transactions: vec![] }];
    assert_eq!(chain_tip(&headless, Some("h")), Err(ReconcileError::Height));
    let mut partly = headless;
    partly.push(block(1, &miner_seed(), 500, &[], 0));
    assert_eq!(store.reconcile(&partly, Some(best.as_str()), &verdicts, &none, &net), Err(ReconcileError::Height));
    assert!(!store.ready);
    store.ledger.records[0].raw_tx = "zz".into();
    let unreadable = store.reconcile(&blocks, Some(best.as_str()), &verdicts, &none, &net);
    assert!(matches!(unreadable, Err(ReconcileError::Record(RawTxError::Hex(_)))));
    assert_eq!(store.ledger.tip.as_ref().map(|t| t.height), Some(0));
}

fn store_with_payout() -> (Store, Vec<Block>) {
    let raw = payment(&[(service_seed(), 10000)], 17);
    let mut store = store_with(&[raw.clone()]);
    let blocks = vec![
        block(1, &miner_seed(), 500, &[], 0),
        block(2, &miner_seed(), 500, &[raw], 1),
        block(3, &miner_seed(), 500, &[], 2),
    ];
    let best = blocks[2].hash.clone();
    store.reconcile(&blocks, Some(best.as_str()), &vec![true], &config().miners, &network()).unwrap();
    store.resume();
    (store, blocks)
}

#[test]
fn payouts_are_signed_checked_and_sent_once() {
    let (mut store, blocks) = store_with_payout();
    let block_hash = blocks[1].hash.clone();
    assert_eq!(store.ledger.payouts[0].first_need(3), Need::Build);
    assert_eq!(store.ledger.payouts[0].outputs(), vec![(config().miners[0].clone(), 9800)]);
    let failed = store.step_payout(0, 3, Reply::NotBuilt { words: "no note".into() });
    assert_eq!(failed, Ok((Need::Nothing, None)));
    assert_eq!(store.ledger.payouts[0].reason.as_deref(), Some("no note"));
    assert_eq!(store.step_payout(0, 3, Reply::BlockHash { found: Some(block_hash.clone()) }), Err(PayoutError::Unsigned));

    let signed = payment(&[(miner_seed(), 9800)], 18);
    let txid = raw_tx(&signed).unwrap().txid;
    let built = Reply::Built { raw_tx: signed.clone(), payout_txid: txid.clone() };
    let event = Event::PayoutSigned { block_hash: block_hash.clone(), txid: txid.clone(), amount: 9800 };
    assert_eq!(store.step_payout(0, 3, built), Ok((Need::BlockHash, Some(event))));
    assert_eq!(store.ledger.payouts[0].reason, None);
    assert_eq!(store.ledger.payouts[0].first_need(3), Need::BlockHash);
    let reserved = store.reserved_nullifiers().unwrap();
    assert!(raw_tx(&signed).unwrap().nullifiers.iter().all(|nf| reserved.contains(nf)));
    assert!(!reserved.contains("other"));
    let checked = store.step_payout(0, 3, Reply::BlockHash { found: Some(block_hash.clone()) });
    assert_eq!(checked, Ok((Need::Mempool, None)));
    let absent = store.step_payout(0, 3, Reply::Mempool { waiting: vec![Some("x".into()), None] });
    assert_eq!(absent, Ok((Need::Broadcast, None)));
    assert_eq!(store.step_payout(0, 3, Reply::NotSent), Ok((Need::Nothing, None)));
    let present = store.step_payout(0, 3, Reply::Mempool { waiting: vec![Some(txid.clone())] });
    let recovered = Event::PayoutRecovered { block_hash: block_hash.clone() };
    assert_eq!(present, Ok((Need::Nothing, Some(recovered))));
    let again = store.step_payout(0, 3, Reply::Mempool { waiting: vec![Some(txid.clone())] });
    assert_eq!(again, Ok((Need::Nothing, None)));
    let sent = Event::PayoutBroadcast { block_hash, sent: Some(txid) };
    assert_eq!(store.step_payout(0, 3, Reply::Sent), Ok((Need::Nothing, Some(sent))));
    assert_eq!(store.ledger.payouts[0].status, "broadcast");
    store.ledger.payouts[0].raw_tx = Some("zz".into());
    assert!(matches!(store.reserved_nullifiers(), Err(RawTxError::Hex(_))));
    let found = Some(store.ledger.payouts[0].block.hash.clone());
    assert!(matches!(store.step_payout(0, 3, Reply::BlockHash { found }), Err(PayoutError::Raw(RawTxError::Hex(_)))));
}

#[test]
fn payouts_are_blocked_when_the_chain_changes() {
    let (mut store, blocks) = store_with_payout();
    let signed = payment(&[(miner_seed(), 9800)], 19);
    let txid = raw_tx(&signed).unwrap().txid;
    let block_hash = blocks[1].hash.clone();
    store.step_payout(0, 3, Reply::Built { raw_tx: signed.clone(), payout_txid: txid }).unwrap();

    let late = store.ledger.payouts[0].clone().step(40, Reply::BlockHash { found: Some(block_hash.clone()) });
    assert_eq!(late, Ok((Need::Nothing, Some(Event::PayoutBlocked { block_hash: block_hash.clone() }))));
    let mut lost = store.ledger.payouts[0].clone();
    let moved = lost.step(3, Reply::BlockHash { found: Some("other".into()) });
    assert_eq!(moved, Ok((Need::Nothing, Some(Event::PayoutBlocked { block_hash }))));
    assert_eq!(lost.status, "blocked");
    assert_eq!(lost.first_need(3), Need::Nothing);

    let best = blocks[2].hash.clone();
    let mut mined = blocks;
    mined[2] = block(3, &miner_seed(), 500, &[signed], 2);
    let tip = mined[2].hash.clone();
    assert_eq!(tip, best);
    store.reconcile(&mined, Some(tip.as_str()), &vec![true], &config().miners, &network()).unwrap();
    assert_eq!(store.ledger.payouts[0].status, "confirmed");
    mined[2] = block(3, &miner_seed(), 500, &[], 9);
    let tip = mined[2].hash.clone();
    store.reconcile(&mined, Some(tip.as_str()), &vec![true], &config().miners, &network()).unwrap();
    assert_eq!(store.ledger.payouts[0].status, "blocked");
    assert_eq!(store.ledger.payouts[0].reason.as_deref(), Some("payout confirmation orphaned; inspect before retry"));

    store.ledger.payouts[0].status = "waiting".into();
    let other = vec![block(1, &miner_seed(), 500, &[], 7)];
    let tip = other[0].hash.clone();
    store.reconcile(&other, Some(tip.as_str()), &vec![true], &config().miners, &network()).unwrap();
    assert_eq!(store.ledger.payouts[0].status, "blocked");
    let reason = "inclusion block orphaned after signing; inspect before retry";
    assert_eq!(store.ledger.payouts[0].reason.as_deref(), Some(reason));
    store.ledger.payouts[0].raw_tx = None;
    store.reconcile(&other, Some(tip.as_str()), &vec![true], &config().miners, &network()).unwrap();
    assert!(store.ledger.payouts.is_empty());
}

#[test]
fn wallets_find_their_notes_and_plan_payments() {
    let net = network();
    let blocks = vec![block(1, &payer_seed(), 100000, &[], 0), block(2, &miner_seed(), 500, &[], 1)];
    let free = ready_store(Tip { height: 1, hash: "x".into() }).reserved_nullifiers().unwrap();
    let to = address(&miner_seed(), &net).unwrap();
    let mut wallet = WalletState::default();
    let outputs = vec![(to.clone(), 30000)];
    let planned = create(&mut wallet, &blocks, &payer_seed(), &outputs, 20000, None, &free, &net);
    let planned = planned.unwrap_or_else(|e| panic!("{}", e.message()));
    assert_eq!(planned.input_txid, blocks[0].transactions[0].txid);
    assert_eq!(planned.input_nf.len(), 64);
    assert_eq!(u64::from(planned.fee), 20000);
    assert_eq!(wallet.hashes, vec![blocks[0].hash.clone(), blocks[1].hash.clone()]);
    assert_eq!(wallet.notes.len(), 1);
    assert_eq!(wallet.min_value, 20001);

    let by_nullifier = format!("nf:{}", planned.input_nf);
    assert!(create(&mut wallet, &blocks, &payer_seed(), &outputs, 20000, Some(&by_nullifier), &free, &net).is_ok());
    let by_other = create(&mut wallet, &blocks, &payer_seed(), &outputs, 20000, Some("none"), &free, &net);
    assert!(matches!(by_other, Err(CreateError::NoNote)));
    let too_much = create(&mut wallet, &blocks, &payer_seed(), &vec![(to.clone(), 80001)], 20000, None, &free, &net);
    assert!(matches!(too_much, Err(CreateError::NoNote)));
    let overflow = create(&mut wallet, &blocks, &payer_seed(), &vec![(to.clone(), 1)], u64::MAX, None, &free, &net);
    assert!(matches!(overflow, Err(CreateError::Overflow)));
    let nobody = create(&mut wallet, &blocks, &payer_seed(), &vec![("x".into(), 1)], 20000, None, &free, &net);
    assert!(matches!(nobody, Err(CreateError::Receiver(ReceiverError::NotUnified))));
    let short = create(&mut wallet, &blocks, "00", &outputs, 1, None, &free, &net);
    assert!(matches!(short, Err(CreateError::Key(KeyError::Length))));
    let garbled = create(&mut wallet, &blocks, "xy", &outputs, 1, None, &free, &net);
    assert!(matches!(garbled, Err(CreateError::Key(KeyError::Hex(_)))));
    let second = vec![(to.clone(), 1), ("x".into(), 1), ("y".into(), 1)];
    let unreachable = create(&mut wallet, &blocks, &payer_seed(), &second, 20000, None, &free, &net);
    assert!(matches!(unreachable, Err(CreateError::Receiver(ReceiverError::NotUnified))));
    let not_owned = create(&mut wallet, &blocks, &miner_seed(), &outputs, 20000, None, &free, &net);
    assert!(matches!(not_owned, Err(CreateError::Refused(_))));
    let mut broken = blocks.clone();
    broken.push(Block { height: None, hash: "h".into(), transactions: vec![] });
    let mut fresh = WalletState::default();
    let stopped = create(&mut fresh, &broken, &payer_seed(), &outputs, 20000, None, &free, &net);
    assert!(matches!(stopped, Err(CreateError::Sync(SyncError::Height))));
    assert_eq!(fresh.notes.len(), 1);

    let spent = Built { raw_tx: "".into(), txid: "".into(), input_txid: "".into(), input_nf: planned.input_nf.clone() };
    let mut reserved = unreserved();
    reserve(&mut reserved, &spent);
    let taken = create(&mut wallet, &blocks, &payer_seed(), &outputs, 20000, None, &reserved, &net);
    assert!(matches!(taken, Err(CreateError::NoNote)));
}

#[test]
fn planned_payments_balance() {
    let net = network();
    let blocks = vec![block(1, &payer_seed(), 100000, &[], 0)];
    let outputs = vec![(address(&miner_seed(), &net).unwrap(), 30000)];
    for fee in [20000u64, 70000] {
        let mut wallet = WalletState::default();
        let planned = create(&mut wallet, &blocks, &payer_seed(), &outputs, fee, None, &unreserved(), &net);
        let planned = planned.unwrap_or_else(|e| panic!("{}", e.message()));
        let rule = FeeRule::non_standard(planned.fee);
        assert!(planned.builder.build_for_pczt(rand::rngs::OsRng, &rule).is_ok());
        let again = create(&mut wallet, &blocks, &payer_seed(), &outputs, fee, None, &unreserved(), &net);
        let again = again.unwrap_or_else(|e| panic!("{}", e.message()));
        let other = FeeRule::non_standard(Zatoshis::const_from_u64(fee + 1));
        assert!(again.builder.build_for_pczt(rand::rngs::OsRng, &other).is_err());
    }
}

#[test]
fn recipients_are_paid_and_the_payer_gets_the_change() {
    let net = network();
    let blocks = vec![block(1, &payer_seed(), 100000, &[], 0)];
    let to = address(&miner_seed(), &net).unwrap();
    let outputs = vec![(to.clone(), 30000), (address(&service_seed(), &net).unwrap(), 5)];
    for (fee, change) in [(20000u64, Some(49995u64)), (69995, None)] {
        let mut wallet = WalletState::default();
        let planned = create(&mut wallet, &blocks, &payer_seed(), &outputs, fee, None, &unreserved(), &net);
        let planned = planned.unwrap_or_else(|e| panic!("{}", e.message()));
        let rule = FeeRule::non_standard(planned.fee);
        let parts = planned.builder.build_for_pczt(rand::rngs::OsRng, &rule).unwrap().pczt_parts;
        let bundle = parts.ironwood.unwrap();
        let mut paid: Vec<(u64, [u8; 43])> = Vec::new();
        for action in bundle.actions() {
            let value = action.output().value().unwrap().inner();
            if value > 0 {
                paid.push((value, action.output().recipient().unwrap().to_raw_address_bytes()));
            }
        }
        let mut expected = Vec::new();
        for (seed, value) in [(miner_seed(), Some(30000)), (service_seed(), Some(5)), (payer_seed(), change)] {
            let own = FullViewingKey::from(&key(&seed).unwrap()).address_at(0u32, Scope::External);
            if let Some(value) = value {
                expected.push((value, own.to_raw_address_bytes()));
            }
        }
        paid.sort();
        expected.sort();
        assert_eq!(paid, expected);
    }
}

#[test]
fn payments_for_a_nullifier_spend_its_note() {
    let net = network();
    let blocks = vec![block(1, &payer_seed(), 100000, &[], 0), block(2, &payer_seed(), 100000, &[], 1)];
    let outputs = vec![(address(&miner_seed(), &net).unwrap(), 30000)];
    let mut wallet = WalletState::default();
    let mut plan = |input: Option<&str>, reserved: &preconf::worker::Reserved| {
        let planned = create(&mut wallet, &blocks, &payer_seed(), &outputs, 20000, input, reserved, &net);
        let planned = planned.unwrap_or_else(|e| panic!("{}", e.message()));
        (planned.input_txid, planned.input_nf)
    };
    let first = plan(None, &unreserved());
    let mut reserved = unreserved();
    let (input_txid, input_nf) = first.clone();
    reserve(&mut reserved, &Built { raw_tx: "".into(), txid: "".into(), input_txid, input_nf });
    let second = plan(None, &reserved);
    assert_ne!(first, second);
    assert_eq!(plan(Some(&format!("nf:{}", second.1)), &unreserved()), second);
    assert_eq!(plan(Some(&format!("nf:{}", first.1)), &unreserved()), first);
}

#[test]
fn only_missing_blocks_are_loaded() {
    let texts: Vec<String> = (1..5).map(|h| block_hex(h, &miner_seed(), 1, &[], h)).collect();
    let node: Vec<Block> = texts.iter().map(|t| raw_block(t).unwrap()).collect();
    for shared in 0..5usize {
        let mut blocks: Vec<Block> = node[..shared].to_vec();
        blocks.push(block(6, &miner_seed(), 1, &[], 40));
        blocks.push(block(7, &miner_seed(), 1, &[], 41));
        let mut stage = Stage::Height;
        let mut loaded = Vec::new();
        while let Some((method, params)) = ask(&blocks, &stage) {
            let reply = match method {
                "getblockcount" => answer("3"),
                "getblockhash" => Value::from(node[params[0].as_u64().unwrap() as usize].hash.clone()),
                "getblock" => {
                    let height = node.iter().position(|b| params[0] == b.hash.as_str()).unwrap();
                    loaded.push(height);
                    Value::from(texts[height].clone())
                }
                _ => Value::from(node[3].hash.clone()),
            };
            stage = advance(&mut blocks, stage, &reply).unwrap_or_else(|e| panic!("{}", e.message()));
        }
        assert_eq!(blocks, node);
        assert_eq!(loaded, (shared..4).collect::<Vec<usize>>());
        let mut asked = Vec::new();
        let mut stage = Stage::Height;
        while let Some((method, _)) = ask(&blocks, &stage) {
            asked.push(method);
            let reply = if method == "getblockcount" { answer("3") } else { Value::from(node[3].hash.clone()) };
            stage = advance(&mut blocks, stage, &reply).unwrap_or_else(|e| panic!("{}", e.message()));
        }
        assert_eq!(asked, vec!["getblockcount", "getblockhash", "getbestblockhash"]);
        assert_eq!(blocks, node);
    }
}

#[test]
fn wallets_synced_step_by_step_agree_with_those_synced_at_once() {
    let net = network();
    let fvk = FullViewingKey::from(&key(&payer_seed()).unwrap());
    let extra = payment(&[(payer_seed(), 40), (miner_seed(), 5)], 23);
    let blocks = vec![
        block(1, &payer_seed(), 100000, &[], 0),
        block(2, &miner_seed(), 500, &[extra], 1),
        block(3, &payer_seed(), 77, &[], 2),
    ];
    let mut at_once = WalletState::default();
    assert!(at_once.sync(&blocks, &fvk, &net, 10).is_ok());
    let mut stepwise = WalletState::default();
    for n in 1..=3 {
        assert!(stepwise.sync(&blocks[..n].to_vec(), &fvk, &net, 10).is_ok());
    }
    assert_eq!(stepwise.hashes, at_once.hashes);
    assert_eq!(stepwise.tree.root(), at_once.tree.root());
    assert_eq!(stepwise.notes.len(), 3);
    for (a, b) in stepwise.notes.iter().zip(&at_once.notes) {
        assert_eq!(a.txid, b.txid);
        assert_eq!(a.witness.root(), at_once.tree.root());
        assert_eq!(b.witness.root(), at_once.tree.root());
        assert_eq!(a.note.nullifier(&fvk).to_bytes(), b.note.nullifier(&fvk).to_bytes());
    }
}

#[test]
fn wallets_rescan_after_a_reorganisation() {
    let net = network();
    let fvk = FullViewingKey::from(&key(&payer_seed()).unwrap());
    let first = vec![block(1, &payer_seed(), 100000, &[], 0)];
    let mut wallet = WalletState::default();
    assert!(wallet.sync(&first, &fvk, &net, 10).is_ok());
    assert_eq!(wallet.notes.len(), 1);
    let other = vec![block(1, &miner_seed(), 100000, &[], 5), block(2, &payer_seed(), 7, &[], 6)];
    assert!(wallet.sync(&other, &fvk, &net, 10).is_ok());
    assert_eq!(wallet.notes.len(), 0);
    assert_eq!(wallet.hashes, vec![other[0].hash.clone(), other[1].hash.clone()]);
    assert!(wallet.sync(&other, &fvk, &net, 5).is_ok());
    assert_eq!(wallet.notes.len(), 1);
    assert_eq!(wallet.notes[0].txid, other[1].transactions[0].txid);
    let headless = vec![Block { height: None, hash: "h".into(), transactions: vec![] }];
    let mut fresh = WalletState::default();
    assert!(fresh.sync(&headless, &fvk, &net, 0).is_err());
}

#[test]
fn selected_payments_share_no_note() {
    let a = raw_tx(&payment(&[(service_seed(), 10000)], 21)).unwrap().nullifiers;
    let b = raw_tx(&payment(&[(service_seed(), 10000)], 22)).unwrap().nullifiers;
    let mixed = vec![a[0].clone(), b[0].clone()];
    let offers = vec![Some(a.clone()), None, Some(mixed), Some(b), Some(a)];
    assert_eq!(select(&offers), vec![0, 3]);
    assert_eq!(select(&vec![]), Vec::<usize>::new());
}

fn answer(text: &str) -> Value {
    serde_json::from_str(text).unwrap()
}

#[test]
fn nodes_are_followed_through_a_reorganisation() {
    let kept = block(1, &miner_seed(), 1, &[], 0);
    let stale = block(2, &miner_seed(), 1, &[], 1);
    let fresh = block_hex(2, &miner_seed(), 1, &[], 8);
    let fresh_hash = raw_block(&fresh).unwrap().hash;
    let first_hash = kept.hash.clone();
    let mut blocks = vec![kept, stale, block(3, &miner_seed(), 1, &[], 2)];
    let mut stage = Stage::Height;
    let mut asked = Vec::new();
    while let Some((method, params)) = ask(&blocks, &stage) {
        asked.push(format!("{method} {params}"));
        let reply = match (method, params.to_string().as_str()) {
            ("getblockcount", _) => answer("1"),
            ("getblockhash", "[0]") => answer(&format!("\"{first_hash}\"")),
            ("getblockhash", "[1]") => answer(&format!("\"{fresh_hash}\"")),
            ("getblock", _) => answer(&format!("\"{fresh}\"")),
            ("getbestblockhash", _) => answer(&format!("\"{fresh_hash}\"")),
            _ => panic!("unexpected question"),
        };
        stage = advance(&mut blocks, stage, &reply).unwrap_or_else(|e| panic!("{}", e.message()));
    }
    let hashes: Vec<_> = blocks.iter().map(|b| b.hash.clone()).collect();
    assert_eq!(hashes, vec![first_hash.clone(), fresh_hash.clone()]);
    let load = format!("getblock [\"{fresh_hash}\",0]");
    let expected =
        vec!["getblockcount []", "getblockhash [1]", "getblockhash [0]", "getblockhash [1]", &load, "getbestblockhash []"];
    assert_eq!(asked, expected);
}

#[test]
fn answers_that_make_no_sense_are_errors() {
    let mut blocks: Vec<Block> = vec![];
    assert!(matches!(advance(&mut blocks, Stage::Height, &answer("\"x\"")), Err(ChainError::Height)));
    let load = |hash: &str| Stage::Load { height: 0, hash: answer(hash) };
    assert!(matches!(advance(&mut blocks, load("1"), &answer("1")), Err(ChainError::NoBlock)));
    assert!(matches!(advance(&mut blocks, load("1"), &answer("\"zz\"")), Err(ChainError::Block(RawTxError::Hex(_)))));
    blocks.push(block(1, &miner_seed(), 1, &[], 0));
    let best = Stage::Best { height: 0 };
    assert!(matches!(advance(&mut blocks, best, &answer("\"x\"")), Err(ChainError::Changed)));
    assert_eq!(ChainError::Changed.message(), "chain changed while syncing wallet");
    assert_eq!(ChainError::NoBlock.message(), "block hex");
}

#[test]
fn responses_of_a_node_are_taken_apart() {
    let request = rpc_request("getblockhash", answer("[7]"));
    assert_eq!(request, answer("{\"jsonrpc\":\"2.0\",\"id\":1,\"method\":\"getblockhash\",\"params\":[7]}"));
    assert_eq!(rpc("m", &answer("{\"result\":5,\"error\":null}")), Ok(answer("5")));
    let failed = rpc("m", &answer("{\"error\":{\"code\":-1}}"));
    assert_eq!(failed, Err(RpcError::Failed("m: {\"code\":-1}".into())));
    assert_eq!(rpc("m", &answer("{}")), Err(RpcError::Missing));
    assert_eq!(RpcError::Missing.message(), "missing RPC result");
}
