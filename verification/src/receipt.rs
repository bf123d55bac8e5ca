//! Receipts: what the service signs for each payment that it accepts, and how anyone
//! checks it.

use crate::encoding::{
    base64_decode, base64_encode, base64_text, hex_bytes, hex_decode, hex_encode, hex_text, law_base64_is_injective,
    law_hex_reads_back,
};
use crate::json::{
    entries, entry_views, fields, get_text, is_plain, json, json_read, json_written, object, put, read_json, text, text_field,
    write_json, Json,
};
use crate::p2p::bytes_of;
use crate::text::{decimal, decimal_text};
use crate::wallet::keys::thirty_two;
use ed25519_dalek::{Signature, Signer, SigningKey, VerifyingKey};
use serde_json::Value;
use vstd::prelude::*;
use vstd::utf8::{decode_utf8, encode_utf8, encode_utf8_decode_utf8, encode_utf8_valid_utf8, valid_utf8};

verus! {

/// `ed25519_dalek`'s public key.
#[verifier::external_type_specification]
#[verifier::external_body]
pub struct ExVerifyingKey(VerifyingKey);

/// The public key that 32 bytes encode, if they encode one.
pub uninterp spec fn verifying_key(bytes: Seq<u8>) -> Option<VerifyingKey>;

/// Calls `VerifyingKey::from_bytes` of `ed25519_dalek`. No claim is made of the words
/// in which it rejects a key.
#[verifier::external_body]
fn read_verifying_key(bytes: [u8; 32]) -> (key: Result<VerifyingKey, String>)
    ensures
        match key {
            Ok(key) => verifying_key(bytes@) == Some(key),
            Err(_) => verifying_key(bytes@) is None,
        },
{
    VerifyingKey::from_bytes(&bytes).map_err(|e| e.to_string())
}

/// Whether a signature of 64 bytes on a message is valid under a public key.
pub uninterp spec fn is_signature(key: VerifyingKey, message: Seq<u8>, signature: Seq<u8>) -> bool;

/// Calls `verify_strict` of `ed25519_dalek`. No claim is made of the words in which
/// it rejects a signature.
#[verifier::external_body]
fn check_signature(key: &VerifyingKey, message: &[u8], signature: [u8; 64]) -> (checked: Result<(), String>)
    ensures
        checked is Ok == is_signature(*key, message@, signature@),
{
    key.verify_strict(message, &Signature::from_bytes(&signature)).map_err(|e| e.to_string())
}

/// The bytes of the public key of a seed.
pub uninterp spec fn public_key_of(seed: Seq<u8>) -> Seq<u8>;

/// Calls `verifying_key` of the `SigningKey` of `ed25519_dalek` that is made from the
/// seed. The bytes of a public key are those of a point of the curve, and so are read
/// back as a public key.
#[verifier::external_body]
fn public_key(seed: &[u8; 32]) -> (key: [u8; 32])
    ensures
        key@ == public_key_of(seed@),
        verifying_key(key@) is Some,
{
    SigningKey::from_bytes(seed).verifying_key().to_bytes()
}

/// The signature of a seed on a message.
pub uninterp spec fn signature_of(seed: Seq<u8>, message: Seq<u8>) -> Seq<u8>;

/// Whether a signature commits to the neutral point of the curve, which strict
/// verification rejects. No message with such a signature is known.
pub open spec fn is_degenerate(signature: Seq<u8>) -> bool {
    signature.take(32) == Seq::new(32, |i: int| if i == 0 { 1u8 } else { 0u8 })
}

/// Calls `sign` of the `SigningKey` of `ed25519_dalek` that is made from the seed.
/// Signing uses no randomness. The public key of a seed is never of small order, and
/// a commitment is of small order only if it is the neutral point, so strict
/// verification under the public key of the seed accepts every signature but a
/// degenerate one.
#[verifier::external_body]
fn sign(seed: &[u8; 32], message: &[u8]) -> (signature: [u8; 64])
    ensures
        signature@ == signature_of(seed@, message@),
        !is_degenerate(signature@) ==> {
            &&& public_key_of(seed@).len() == 32
            &&& verifying_key(public_key_of(seed@)) is Some
            &&& is_signature(verifying_key(public_key_of(seed@))->0, message@, signature@)
        },
{
    SigningKey::from_bytes(seed).sign(message).to_bytes()
}

/// Calls `std::str::from_utf8`, which accepts exactly the byte strings that are valid
/// UTF-8. No claim is made of the words in which it rejects one.
#[verifier::external_body]
fn utf8_text(bytes: &[u8]) -> (text: Result<&str, String>)
    ensures
        match text {
            Ok(text) => valid_utf8(bytes@) && text@ == decode_utf8(bytes@),
            Err(_) => !valid_utf8(bytes@),
        },
{
    std::str::from_utf8(bytes).map_err(|e| e.to_string())
}

/// The bytes as an array, where there are 64 of them.
fn sixty_four(bytes: &Vec<u8>) -> (array: Option<[u8; 64]>)
    ensures
        match array {
            Some(a) => a@ == bytes@,
            None => bytes@.len() != 64,
        },
{
    if bytes.len() != 64 {
        return None;
    }
    let mut array: [u8; 64] = [0u8; 64];
    let mut i: usize = 0;
    while i < 64
        invariant
            i <= 64,
            bytes@.len() == 64,
            forall|k: int| 0 <= k < i ==> array@[k] == bytes@[k],
        decreases 64 - i,
    {
        array[i] = bytes[i];
        i += 1;
    }
    assert(array@ =~= bytes@);
    Some(array)
}

/// Why a seed cannot sign.
#[derive(Debug, PartialEq)]
pub enum SeedError {
    /// It is not hexadecimal.
    Hex(String),
    /// It does not have 32 bytes.
    Length,
}

impl SeedError {
    /// The error in words.
    pub fn message(&self) -> (text: String)
        ensures
            match *self {
                SeedError::Hex(words) => text@ == words@,
                SeedError::Length => text@ == "seed length"@,
            },
    {
        match self {
            SeedError::Hex(words) => words.clone(),
            SeedError::Length => "seed length".to_string(),
        }
    }
}

/// Reads the seed of the signing key.
pub fn signing_seed(seed: &str) -> (bytes: Result<[u8; 32], SeedError>)
    ensures
        match bytes {
            Ok(bytes) => hex_bytes(seed@) == Some(bytes@),
            Err(SeedError::Hex(_)) => hex_bytes(seed@) is None,
            Err(SeedError::Length) => hex_bytes(seed@) is Some && hex_bytes(seed@)->0.len() != 32,
        },
{
    match hex_decode(seed) {
        Ok(bytes) => match thirty_two(&bytes) {
            Some(array) => Ok(array),
            None => Err(SeedError::Length),
        },
        Err(words) => Err(SeedError::Hex(words)),
    }
}

/// The public key of the service, in hexadecimal.
pub fn service_key(seed: &[u8; 32]) -> (text: String)
    ensures
        text@ == hex_text(public_key_of(seed@)),
        verifying_key(public_key_of(seed@)) is Some,
{
    hex_encode(public_key(seed).as_slice())
}

/// What a receipt says: that the service accepted a payment on a chain, and the
/// service fee that it found in it.
pub open spec fn payload_json(chain_id: Seq<char>, txid: Seq<char>, fee: u64) -> Json {
    Json::Object(
        fields(
            seq![
                ("chain_id"@, Json::Text(chain_id)),
                ("txid"@, Json::Text(txid)),
                ("service_fee_zat"@, Json::Text(decimal(fee as nat))),
            ],
        ),
    )
}

/// The bytes of what a receipt says.
pub open spec fn payload_bytes(chain_id: Seq<char>, txid: Seq<char>, fee: u64) -> Seq<u8> {
    json_written(payload_json(chain_id, txid, fee))
}

/// What is signed for a payload: a line that names the purpose, then the payload.
pub open spec fn signed_message(payload: Seq<u8>) -> Seq<u8> {
    encode_utf8("zcash-preconf-demo/v1\n"@) + payload
}

/// The receipt of a payload and a signature: base64 and hexadecimal.
pub open spec fn receipt_json(payload: Seq<u8>, signature: Seq<u8>) -> Json {
    Json::Object(
        fields(
            seq![("payload"@, Json::Text(base64_text(payload))), ("signature"@, Json::Text(hex_text(signature)))],
        ),
    )
}

/// The receipt that the service gives for a payment.
pub open spec fn issued_json(seed: Seq<u8>, chain_id: Seq<char>, txid: Seq<char>, fee: u64) -> Json {
    let payload = payload_bytes(chain_id, txid, fee);
    receipt_json(payload, signature_of(seed, signed_message(payload)))
}

fn message_of(payload: &Vec<u8>) -> (message: Vec<u8>)
    ensures
        message@ == signed_message(payload@),
{
    let mut message = bytes_of("zcash-preconf-demo/v1\n");
    message.extend_from_slice(payload.as_slice());
    assert(message@ =~= signed_message(payload@));
    message
}

/// The bytes that a base64 text stands for.
pub open spec fn base64_bytes(text: Seq<char>) -> Option<Seq<u8>> {
    if exists|b: Seq<u8>| #[trigger] base64_text(b) == text {
        Some(choose|b: Seq<u8>| #[trigger] base64_text(b) == text)
    } else {
        None
    }
}

proof fn lemma_base64_bytes(bytes: Seq<u8>)
    ensures
        base64_bytes(base64_text(bytes)) == Some(bytes),
{
    let text = base64_text(bytes);
    let found = choose|b: Seq<u8>| #[trigger] base64_text(b) == text;
    law_base64_is_injective(found, bytes);
}

/// The public key that a hexadecimal text stands for.
pub open spec fn key_of(text: Seq<char>) -> Option<VerifyingKey> {
    match hex_bytes(text) {
        Some(bytes) => if bytes.len() == 32 {
            verifying_key(bytes)
        } else {
            None
        },
        None => None,
    }
}

/// The payload of a receipt and its signature, where it has both.
pub open spec fn receipt_parts(receipt: Json) -> Option<(Seq<u8>, Seq<u8>)> {
    match (text_field(receipt, "payload"@), text_field(receipt, "signature"@)) {
        (Some(payload), Some(signature)) => match (base64_bytes(payload), hex_bytes(signature)) {
            (Some(payload), Some(signature)) => if signature.len() == 64 {
                Some((payload, signature))
            } else {
                None
            },
            _ => None,
        },
        _ => None,
    }
}

/// What a receipt says to someone who knows the public key of the service: its
/// payload, where that is a text and the signature on it is valid.
pub open spec fn verified(key: Seq<char>, receipt: Json) -> Option<Seq<char>> {
    match (key_of(key), receipt_parts(receipt)) {
        (Some(key), Some((payload, signature))) => if is_signature(key, signed_message(payload), signature) && valid_utf8(
            payload,
        ) {
            Some(decode_utf8(payload))
        } else {
            None
        },
        _ => None,
    }
}

pub proof fn lemma_receipt_fields(payload: Seq<u8>, signature: Seq<u8>)
    ensures
        text_field(receipt_json(payload, signature), "payload"@) == Some(base64_text(payload)),
        text_field(receipt_json(payload, signature), "signature"@) == Some(hex_text(signature)),
        is_plain(receipt_json(payload, signature), 1),
{
    crate::json::lemma_raw_key();
    reveal_strlit("payload");
    reveal_strlit("signature");
    assert("payload"@.len() != "signature"@.len());
    let a = ("payload"@, Json::Text(base64_text(payload)));
    let b = ("signature"@, Json::Text(hex_text(signature)));
    assert(seq![a, b].drop_last() =~= seq![a]);
    assert(seq![a].drop_last() =~= Seq::<(Seq<char>, Json)>::empty());
    reveal_with_fuel(fields, 3);
    assert(fields(seq![a, b]) =~= Map::<Seq<char>, Json>::empty().insert(a.0, a.1).insert(b.0, b.1));
    reveal_with_fuel(is_plain, 2);
}

proof fn lemma_payload_is_plain(chain_id: Seq<char>, txid: Seq<char>, fee: u64)
    ensures
        is_plain(payload_json(chain_id, txid, fee), 100),
        text_field(payload_json(chain_id, txid, fee), "chain_id"@) == Some(chain_id),
        text_field(payload_json(chain_id, txid, fee), "txid"@) == Some(txid),
        text_field(payload_json(chain_id, txid, fee), "service_fee_zat"@) == Some(decimal(fee as nat)),
{
    crate::json::lemma_raw_key();
    reveal_strlit("chain_id");
    reveal_strlit("txid");
    reveal_strlit("service_fee_zat");
    assert("chain_id"@.len() == 8 && "txid"@.len() == 4 && "service_fee_zat"@.len() == 15);
    let a = ("chain_id"@, Json::Text(chain_id));
    let b = ("txid"@, Json::Text(txid));
    let c = ("service_fee_zat"@, Json::Text(decimal(fee as nat)));
    assert(seq![a, b, c].drop_last() =~= seq![a, b]);
    assert(seq![a, b].drop_last() =~= seq![a]);
    assert(seq![a].drop_last() =~= Seq::<(Seq<char>, Json)>::empty());
    reveal_with_fuel(fields, 4);
    assert(fields(seq![a, b, c]) =~= Map::<Seq<char>, Json>::empty().insert(a.0, a.1).insert(b.0, b.1).insert(c.0, c.1));
    reveal_with_fuel(is_plain, 2);
}

/// Makes the receipt for a payment. Its payload reads back as the chain, the payment
/// and the fee, and anyone with the public key of the service finds them in it, as long
/// as the signature is not degenerate.
pub fn issue_receipt(seed: &[u8; 32], chain_id: &str, txid: &str, fee: u64) -> (receipt: Result<Value, String>)
    ensures
        receipt is Ok,
        json(receipt->Ok_0) == issued_json(seed@, chain_id@, txid@, fee),
        json_read(payload_bytes(chain_id@, txid@, fee)) == Some(payload_json(chain_id@, txid@, fee)),
        !is_degenerate(signature_of(seed@, signed_message(payload_bytes(chain_id@, txid@, fee)))) ==> {
            &&& verified(hex_text(public_key_of(seed@)), json(receipt->Ok_0)) is Some
            &&& json_read(encode_utf8(verified(hex_text(public_key_of(seed@)), json(receipt->Ok_0))->0)) == Some(
                payload_json(chain_id@, txid@, fee),
            )
        },
        is_plain(json(receipt->Ok_0), 1),
{
    let mut list = entries();
    put(&mut list, "chain_id", text(chain_id.to_string()));
    put(&mut list, "txid", text(txid.to_string()));
    put(&mut list, "service_fee_zat", text(decimal_text(fee)));
    assert(entry_views(list@) =~= seq![
        ("chain_id"@, Json::Text(chain_id@)),
        ("txid"@, Json::Text(txid@)),
        ("service_fee_zat"@, Json::Text(decimal(fee as nat))),
    ]);
    proof {
        lemma_payload_is_plain(chain_id@, txid@, fee);
    }
    let written = match write_json(&object(list)) {
        Ok(written) => written,
        Err(words) => {
            return Err(words);
        },
    };
    let payload = bytes_of(written.as_str());
    let message = message_of(&payload);
    let signature = sign(seed, message.as_slice());
    let mut parts = entries();
    put(&mut parts, "payload", text(base64_encode(payload.as_slice())));
    put(&mut parts, "signature", text(hex_encode(signature.as_slice())));
    assert(entry_views(parts@) =~= seq![
        ("payload"@, Json::Text(base64_text(payload@))),
        ("signature"@, Json::Text(hex_text(signature@))),
    ]);
    proof {
        lemma_receipt_fields(payload@, signature@);
        lemma_base64_bytes(payload@);
        law_hex_reads_back(signature@);
        let bytes = public_key_of(seed@);
        law_hex_reads_back(bytes);
        encode_utf8_valid_utf8(written@);
        encode_utf8_decode_utf8(written@);
    }
    Ok(object(parts))
}

/// Why a receipt is rejected.
#[derive(Debug, PartialEq)]
pub enum ReceiptError {
    /// It is no JSON.
    Json(String),
    /// It has no payload.
    Payload,
    /// Its payload is not base64.
    Base64(String),
    /// It has no signature.
    Signature,
    /// Its signature is not hexadecimal.
    SignatureHex(String),
    /// Its signature does not have 64 bytes.
    SignatureLength,
    /// The key is not hexadecimal.
    KeyHex(String),
    /// The key does not have 32 bytes.
    KeyLength,
    /// The key is no public key.
    Key(String),
    /// The signature is not valid.
    Invalid(String),
    /// The payload is no text.
    Utf8(String),
}

impl ReceiptError {
    /// The error in words.
    pub fn message(&self) -> (text: String)
        ensures
            match *self {
                ReceiptError::Payload => text@ == "payload"@,
                ReceiptError::Signature => text@ == "signature"@,
                ReceiptError::SignatureLength => text@ == "signature error"@,
                ReceiptError::KeyLength => text@ == "key length"@,
                ReceiptError::Json(words) => text@ == words@,
                ReceiptError::Base64(words) => text@ == words@,
                ReceiptError::SignatureHex(words) => text@ == words@,
                ReceiptError::KeyHex(words) => text@ == words@,
                ReceiptError::Key(words) => text@ == words@,
                ReceiptError::Invalid(words) => text@ == words@,
                ReceiptError::Utf8(words) => text@ == words@,
            },
    {
        match self {
            ReceiptError::Payload => "payload".to_string(),
            ReceiptError::Signature => "signature".to_string(),
            ReceiptError::SignatureLength => "signature error".to_string(),
            ReceiptError::KeyLength => "key length".to_string(),
            ReceiptError::Json(words) => words.clone(),
            ReceiptError::Base64(words) => words.clone(),
            ReceiptError::SignatureHex(words) => words.clone(),
            ReceiptError::KeyHex(words) => words.clone(),
            ReceiptError::Key(words) => words.clone(),
            ReceiptError::Invalid(words) => words.clone(),
            ReceiptError::Utf8(words) => words.clone(),
        }
    }
}

/// Whether a receipt that was read as JSON is rejected with an error: each says how
/// far the receipt is in order.
pub open spec fn is_rejection(e: ReceiptError, key: Seq<char>, receipt: Json) -> bool {
    let payload = text_field(receipt, "payload"@);
    let signature = text_field(receipt, "signature"@);
    match e {
        ReceiptError::Json(_) => false,
        ReceiptError::Payload => payload is None,
        ReceiptError::Base64(_) => payload is Some && base64_bytes(payload->0) is None,
        ReceiptError::Signature => payload is Some && base64_bytes(payload->0) is Some && signature is None,
        ReceiptError::SignatureHex(_) => {
            &&& payload is Some && base64_bytes(payload->0) is Some
            &&& signature is Some && hex_bytes(signature->0) is None
        },
        ReceiptError::SignatureLength => {
            &&& payload is Some && base64_bytes(payload->0) is Some
            &&& signature is Some && hex_bytes(signature->0) is Some && hex_bytes(signature->0)->0.len() != 64
        },
        ReceiptError::KeyHex(_) => receipt_parts(receipt) is Some && hex_bytes(key) is None,
        ReceiptError::KeyLength => {
            &&& receipt_parts(receipt) is Some
            &&& hex_bytes(key) is Some && hex_bytes(key)->0.len() != 32
        },
        ReceiptError::Key(_) => {
            &&& receipt_parts(receipt) is Some
            &&& hex_bytes(key) is Some && hex_bytes(key)->0.len() == 32 && verifying_key(hex_bytes(key)->0) is None
        },
        ReceiptError::Invalid(_) => {
            &&& receipt_parts(receipt) is Some && key_of(key) is Some
            &&& !is_signature(
                key_of(key)->0,
                signed_message((receipt_parts(receipt)->0).0),
                (receipt_parts(receipt)->0).1,
            )
        },
        ReceiptError::Utf8(_) => {
            &&& receipt_parts(receipt) is Some && key_of(key) is Some
            &&& is_signature(
                key_of(key)->0,
                signed_message((receipt_parts(receipt)->0).0),
                (receipt_parts(receipt)->0).1,
            )
            &&& !valid_utf8((receipt_parts(receipt)->0).0)
        },
    }
}

/// Checks a receipt that was read as JSON against the public key of the service.
fn verify_value(key: &str, receipt: &Value) -> (payload: Result<String, ReceiptError>)
    ensures
        match payload {
            Ok(payload) => verified(key@, json(*receipt)) == Some(payload@),
            Err(e) => verified(key@, json(*receipt)) is None && is_rejection(e, key@, json(*receipt)),
        },
{
    let payload = match get_text(receipt, "payload") {
        Some(text) => match base64_decode(text) {
            Ok(payload) => {
                proof {
                    lemma_base64_bytes(payload@);
                }
                payload
            },
            Err(words) => {
                return Err(ReceiptError::Base64(words));
            },
        },
        None => {
            return Err(ReceiptError::Payload);
        },
    };
    let signature = match get_text(receipt, "signature") {
        Some(text) => match hex_decode(text) {
            Ok(bytes) => match sixty_four(&bytes) {
                Some(signature) => signature,
                None => {
                    return Err(ReceiptError::SignatureLength);
                },
            },
            Err(words) => {
                return Err(ReceiptError::SignatureHex(words));
            },
        },
        None => {
            return Err(ReceiptError::Signature);
        },
    };
    let key_bytes = match hex_decode(key) {
        Ok(bytes) => match thirty_two(&bytes) {
            Some(array) => array,
            None => {
                return Err(ReceiptError::KeyLength);
            },
        },
        Err(words) => {
            return Err(ReceiptError::KeyHex(words));
        },
    };
    let verifier = match read_verifying_key(key_bytes) {
        Ok(verifier) => verifier,
        Err(words) => {
            return Err(ReceiptError::Key(words));
        },
    };
    if let Err(words) = check_signature(&verifier, message_of(&payload).as_slice(), signature) {
        return Err(ReceiptError::Invalid(words));
    }
    match utf8_text(payload.as_slice()) {
        Ok(text) => Ok(text.to_string()),
        Err(words) => Err(ReceiptError::Utf8(words)),
    }
}

/// Checks the JSON text of a receipt against the public key of the service, in
/// hexadecimal, and returns what the receipt says.
pub fn verify_receipt(key: &str, receipt: &str) -> (payload: Result<String, ReceiptError>)
    ensures
        match payload {
            Ok(payload) => {
                &&& json_read(encode_utf8(receipt@)) is Some
                &&& verified(key@, json_read(encode_utf8(receipt@))->0) == Some(payload@)
            },
            Err(e) => {
                &&& e is Json <==> json_read(encode_utf8(receipt@)) is None
                &&& json_read(encode_utf8(receipt@)) is Some ==> verified(
                    key@,
                    json_read(encode_utf8(receipt@))->0,
                ) is None && is_rejection(e, key@, json_read(encode_utf8(receipt@))->0)
            },
        },
{
    match read_json(receipt.as_bytes()) {
        Ok(value) => verify_value(key, &value),
        Err(words) => Err(ReceiptError::Json(words)),
    }
}

/// Two receipts of the service that say the same are for the same payment, on the
/// same chain, with the same fee.
pub proof fn law_payload_tells_payments_apart(
    chain_id: Seq<char>,
    txid: Seq<char>,
    fee: u64,
    other_chain_id: Seq<char>,
    other_txid: Seq<char>,
    other_fee: u64,
)
    requires
        payload_json(chain_id, txid, fee) == payload_json(other_chain_id, other_txid, other_fee),
    ensures
        chain_id == other_chain_id,
        txid == other_txid,
        fee == other_fee,
{
    lemma_payload_is_plain(chain_id, txid, fee);
    lemma_payload_is_plain(other_chain_id, other_txid, other_fee);
    crate::text::law_decimal_is_injective(fee as nat, other_fee as nat);
}

} // verus!
