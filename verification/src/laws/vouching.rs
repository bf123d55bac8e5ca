//! Vouching: what a receipt proves to someone who knows the key of the service.

use crate::encoding::{base64_text, hex_bytes, law_base64_is_injective, law_hex_reads_back};
use crate::json::{json_written, Json};
use crate::laws::deciding::bears;
use crate::laws::telling::part;
use crate::receipt::{
    base64_bytes, is_degenerate, is_rejection, is_signature, issued_json, lemma_receipt_fields, payload_json,
    receipt_parts, signature_of, verified, verifying_key, ReceiptError,
};
use vstd::prelude::*;
use vstd::utf8::{decode_utf8, encode_utf8, valid_utf8};

verus! {

/// What is signed for a payload: a line that names the purpose, and then the payload.
pub open spec fn signed_for(payload: Seq<u8>) -> Seq<u8> {
    encode_utf8("zcash-preconf-demo/v1\n"@) + payload
}

/// Whether a receipt holds a payload, in base64, and a signature of sixty-four bytes, in
/// hexadecimal.
pub open spec fn holds_both(receipt: Json, payload: Seq<u8>, signature: Seq<u8>) -> bool {
    &&& bears(receipt, "payload"@) && part(receipt, "payload"@) == Json::Text(base64_text(payload))
    &&& bears(receipt, "signature"@) && part(receipt, "signature"@) is Text
    &&& hex_bytes(part(receipt, "signature"@)->Text_0) == Some(signature)
    &&& signature.len() == 64
}

/// Whether a text is a public key, thirty-two bytes in hexadecimal.
pub open spec fn is_public_key(text: Seq<char>) -> bool {
    hex_bytes(text) is Some && hex_bytes(text)->0.len() == 32 && verifying_key(hex_bytes(text)->0) is Some
}

proof fn lemma_base64_reads_back(bytes: Seq<u8>)
    ensures
        base64_bytes(base64_text(bytes)) == Some(bytes),
{
    let text = base64_text(bytes);
    let found = choose|b: Seq<u8>| #[trigger] base64_text(b) == text;
    law_base64_is_injective(found, bytes);
}

/// A receipt says its payload, if that is a text and the signature beside it is one on
/// the purpose and the payload under the key; else it says nothing.
pub proof fn law_receipts_say_what_was_signed(key: Seq<char>, receipt: Json, payload: Seq<u8>, signature: Seq<u8>)
    requires
        is_public_key(key),
        holds_both(receipt, payload, signature),
    ensures
        ({
            let genuine = is_signature(verifying_key(hex_bytes(key)->0)->0, signed_for(payload), signature);
            &&& genuine && valid_utf8(payload) ==> verified(key, receipt) == Some(decode_utf8(payload))
            &&& !genuine || !valid_utf8(payload) ==> verified(key, receipt) is None
        }),
{
    lemma_base64_reads_back(payload);
}

/// What a receipt says was signed: there is a key, a payload and a signature on it.
pub proof fn law_only_signed_receipts_say_something(key: Seq<char>, receipt: Json)
    requires
        verified(key, receipt) is Some,
    ensures
        is_public_key(key),
        exists|payload: Seq<u8>, signature: Seq<u8>|
            {
                &&& #[trigger] holds_both(receipt, payload, signature)
                &&& is_signature(verifying_key(hex_bytes(key)->0)->0, signed_for(payload), signature)
                &&& valid_utf8(payload) && verified(key, receipt) == Some(decode_utf8(payload))
            },
{
    let (payload, signature) = receipt_parts(receipt)->0;
    let text = part(receipt, "payload"@)->Text_0;
    let found = choose|b: Seq<u8>| #[trigger] base64_text(b) == text;
    assert(base64_text(found) == text);
    assert(holds_both(receipt, payload, signature));
}

/// Whether a text is base64 of some bytes.
pub open spec fn is_base64(text: Seq<char>) -> bool {
    exists|bytes: Seq<u8>| #[trigger] base64_text(bytes) == text
}

/// A receipt is rejected for the first thing that is wrong with it: the payload, the
/// signature, the key, whether the one is a signature on the other, and whether the
/// payload is a text.
pub proof fn law_receipts_are_rejected_for_a_reason(e: ReceiptError, key: Seq<char>, receipt: Json)
    requires
        is_rejection(e, key, receipt),
    ensures
        ({
            let paid = bears(receipt, "payload"@) && part(receipt, "payload"@) is Text;
            let payload = part(receipt, "payload"@)->Text_0;
            let sealed = bears(receipt, "signature"@) && part(receipt, "signature"@) is Text;
            let seal = hex_bytes(part(receipt, "signature"@)->Text_0);
            let whole = paid && is_base64(payload) && sealed && seal is Some && seal->0.len() == 64;
            let bytes = hex_bytes(key);
            &&& !(e is Json)
            &&& e is Payload <==> !paid
            &&& e is Base64 <==> paid && !is_base64(payload)
            &&& e is Signature <==> paid && is_base64(payload) && !sealed
            &&& e is SignatureHex <==> paid && is_base64(payload) && sealed && seal is None
            &&& e is SignatureLength <==> paid && is_base64(payload) && sealed && seal is Some && seal->0.len() != 64
            &&& e is KeyHex <==> whole && bytes is None
            &&& e is KeyLength <==> whole && bytes is Some && bytes->0.len() != 32
            &&& e is Key <==> whole && bytes is Some && bytes->0.len() == 32 && verifying_key(bytes->0) is None
            &&& e is Invalid ==> whole && is_public_key(key) && forall|p: Seq<u8>| #[trigger]
                base64_text(p) == payload ==> !is_signature(verifying_key(bytes->0)->0, signed_for(p), seal->0)
            &&& e is Utf8 ==> whole && is_public_key(key) && forall|p: Seq<u8>| #[trigger]
                base64_text(p) == payload ==> is_signature(verifying_key(bytes->0)->0, signed_for(p), seal->0)
                    && !valid_utf8(p)
        }),
{
    let payload = part(receipt, "payload"@)->Text_0;
    assert(is_base64(payload) == (base64_bytes(payload) is Some));
    if e is Invalid || e is Utf8 {
        assert forall|p: Seq<u8>| #[trigger] base64_text(p) == payload implies base64_bytes(payload) == Some(p) by {
            lemma_base64_reads_back(p);
        }
    }
}

/// The receipt for a payment holds the payload that names the chain, the payment and
/// the fee, and the signature of the service on it.
pub proof fn law_issued_receipts_hold_payload_and_signature(seed: Seq<u8>, chain_id: Seq<char>, txid: Seq<char>, fee: u64)
    requires
        signature_of(seed, signed_for(json_written(payload_json(chain_id, txid, fee)))).len() == 64,
    ensures
        ({
            let payload = json_written(payload_json(chain_id, txid, fee));
            holds_both(issued_json(seed, chain_id, txid, fee), payload, signature_of(seed, signed_for(payload)))
        }),
{
    let payload = json_written(payload_json(chain_id, txid, fee));
    let signature = signature_of(seed, signed_for(payload));
    lemma_receipt_fields(payload, signature);
    law_hex_reads_back(signature);
}

/// A signature is degenerate if its first half is the number one, in thirty-two bytes,
/// the lowest first.
pub proof fn law_degenerate_signatures_start_with_one(signature: Seq<u8>)
    requires
        signature.len() == 64,
    ensures
        is_degenerate(signature) <==> signature[0] == 1 && forall|i: int| 1 <= i < 32 ==> #[trigger] signature[i] == 0,
{
    let one = Seq::new(32, |i: int| if i == 0 { 1u8 } else { 0u8 });
    if is_degenerate(signature) {
        assert forall|i: int| 0 <= i < 32 implies #[trigger] signature[i] == one[i] by {
            assert(signature.take(32)[i] == signature[i]);
        }
    }
    if signature[0] == 1 && forall|i: int| 1 <= i < 32 ==> #[trigger] signature[i] == 0 {
        assert(signature.take(32) =~= one);
    }
}

} // verus!
