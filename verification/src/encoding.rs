//! Byte encodings: hexadecimal and base64.

use base64::Engine;
use vstd::prelude::*;

verus! {

/// The lower-case hexadecimal digit of a number below sixteen.
pub open spec fn hex_digit(n: int) -> char {
    if n < 10 {
        (48 + n) as char
    } else {
        (87 + n) as char
    }
}

/// Two lower-case hexadecimal digits for each byte, the high half first.
pub open spec fn hex_text(bytes: Seq<u8>) -> Seq<char> {
    Seq::new(
        2 * bytes.len(),
        |i: int| if i % 2 == 0 { hex_digit(bytes[i / 2] as int / 16) } else { hex_digit(bytes[i / 2] as int % 16) },
    )
}

/// The value of a hexadecimal digit of either case.
pub open spec fn hex_value(c: char) -> Option<int> {
    if '0' <= c && c <= '9' {
        Some(c as int - 48)
    } else if 'a' <= c && c <= 'f' {
        Some(c as int - 87)
    } else if 'A' <= c && c <= 'F' {
        Some(c as int - 55)
    } else {
        None
    }
}

/// The bytes that a hexadecimal text stands for: none unless it has an even number
/// of characters, each a hexadecimal digit.
pub open spec fn hex_bytes(text: Seq<char>) -> Option<Seq<u8>> {
    if text.len() % 2 == 0 && forall|i: int| 0 <= i < text.len() ==> hex_value(#[trigger] text[i]) is Some {
        Some(Seq::new(text.len() / 2, |i: int| (hex_value(text[2 * i])->0 * 16 + hex_value(text[2 * i + 1])->0) as u8))
    } else {
        None
    }
}

/// Calls `hex::encode`, which writes each byte as two lower-case hexadecimal digits.
#[verifier::external_body]
pub(crate) fn hex_encode(bytes: &[u8]) -> (text: String)
    ensures
        text@ == hex_text(bytes@),
{
    hex::encode(bytes)
}

/// Calls `hex::decode`, which reads pairs of hexadecimal digits of either case and
/// fails on an odd length or on any other character. The failure is handed on in
/// the words of `hex`, of which nothing is claimed.
#[verifier::external_body]
pub(crate) fn hex_decode(text: &str) -> (bytes: Result<Vec<u8>, String>)
    ensures
        match bytes {
            Ok(b) => hex_bytes(text@) == Some(b@),
            Err(_) => hex_bytes(text@) is None,
        },
{
    hex::decode(text).map_err(|e| e.to_string())
}

/// Reading back a hexadecimal text gives the bytes that were written.
pub proof fn law_hex_reads_back(bytes: Seq<u8>)
    ensures
        hex_bytes(hex_text(bytes)) == Some(bytes),
{
    let text = hex_text(bytes);
    assert forall|i: int| 0 <= i < text.len() implies hex_value(#[trigger] text[i]) is Some by {}
    assert(hex_bytes(text)->0 =~= bytes) by {
        assert forall|i: int| 0 <= i < bytes.len() implies hex_bytes(text)->0[i] == bytes[i] by {
            assert(text[2 * i] == hex_digit(bytes[i] as int / 16));
            assert(text[2 * i + 1] == hex_digit(bytes[i] as int % 16));
        }
    }
}

/// Two byte strings with the same hexadecimal text are equal.
pub proof fn law_hex_is_injective(a: Seq<u8>, b: Seq<u8>)
    requires
        hex_text(a) == hex_text(b),
    ensures
        a == b,
{
    law_hex_reads_back(a);
    law_hex_reads_back(b);
}

/// The character that stands for six bits in the standard base64 alphabet.
pub open spec fn base64_digit(n: int) -> char {
    if n < 26 {
        (65 + n) as char
    } else if n < 52 {
        (71 + n) as char
    } else if n < 62 {
        (n - 4) as char
    } else if n == 62 {
        '+'
    } else {
        '/'
    }
}

/// The standard base64 text of a byte string: four characters for every three
/// bytes, the last group filled up with `=`.
pub open spec fn base64_text(bytes: Seq<u8>) -> Seq<char>
    decreases bytes.len(),
{
    if bytes.len() == 0 {
        Seq::empty()
    } else {
        let a = bytes[0] as int;
        let b = if bytes.len() > 1 { bytes[1] as int } else { 0 };
        let c = if bytes.len() > 2 { bytes[2] as int } else { 0 };
        let group = seq![
            base64_digit(a / 4),
            base64_digit(a % 4 * 16 + b / 16),
            if bytes.len() > 1 { base64_digit(b % 16 * 4 + c / 64) } else { '=' },
            if bytes.len() > 2 { base64_digit(c % 64) } else { '=' },
        ];
        if bytes.len() > 3 {
            group + base64_text(bytes.skip(3))
        } else {
            group
        }
    }
}

/// Calls `encode` of `base64::engine::general_purpose::STANDARD`: the standard
/// alphabet, with padding.
#[verifier::external_body]
pub(crate) fn base64_encode(bytes: &[u8]) -> (text: String)
    ensures
        text@ == base64_text(bytes@),
{
    base64::engine::general_purpose::STANDARD.encode(bytes)
}

/// Calls `decode` of `base64::engine::general_purpose::STANDARD`, which accepts
/// exactly the texts that `encode` of the same engine writes: the padding must be
/// canonical and the unused bits of the last character zero. The failure is handed
/// on in the words of `base64`, of which nothing is claimed.
#[verifier::external_body]
pub(crate) fn base64_decode(text: &str) -> (bytes: Result<Vec<u8>, String>)
    ensures
        match bytes {
            Ok(b) => base64_text(b@) == text@,
            Err(_) => forall|b: Seq<u8>| #[trigger] base64_text(b) != text@,
        },
{
    base64::engine::general_purpose::STANDARD.decode(text).map_err(|e| e.to_string())
}

proof fn lemma_base64_digit_is_injective(m: int, n: int)
    requires
        0 <= m < 64,
        0 <= n < 64,
        base64_digit(m) == base64_digit(n),
    ensures
        m == n,
        base64_digit(m) != '=',
{
}

proof fn lemma_base64_len(bytes: Seq<u8>)
    ensures
        base64_text(bytes).len() == (bytes.len() + 2) / 3 * 4,
    decreases bytes.len(),
{
    if bytes.len() > 3 {
        lemma_base64_len(bytes.skip(3));
    }
}

/// Two byte strings with the same base64 text are equal, so a text is read back as
/// the bytes that were written.
pub proof fn law_base64_is_injective(x: Seq<u8>, y: Seq<u8>)
    requires
        base64_text(x) == base64_text(y),
    ensures
        x == y,
    decreases x.len(),
{
    lemma_base64_len(x);
    lemma_base64_len(y);
    if x.len() > 0 {
        assert(y.len() > 0);
        let s = base64_text(x);
        let t = base64_text(y);
        let xb = if x.len() > 1 { x[1] as int } else { 0 };
        let xc = if x.len() > 2 { x[2] as int } else { 0 };
        let yb = if y.len() > 1 { y[1] as int } else { 0 };
        let yc = if y.len() > 2 { y[2] as int } else { 0 };
        assert(s[0] == base64_digit(x[0] as int / 4) && t[0] == base64_digit(y[0] as int / 4));
        assert(s[1] == base64_digit(x[0] as int % 4 * 16 + xb / 16));
        assert(t[1] == base64_digit(y[0] as int % 4 * 16 + yb / 16));
        assert(s[2] == t[2] && s[3] == t[3]);
        lemma_base64_digit_is_injective(x[0] as int / 4, y[0] as int / 4);
        lemma_base64_digit_is_injective(x[0] as int % 4 * 16 + xb / 16, y[0] as int % 4 * 16 + yb / 16);
        lemma_base64_third(xb, xc, yb, yc);
        assert(x[0] == y[0]);
        if x.len() > 3 || y.len() > 3 {
            assert(x.len() > 3 && y.len() > 3);
            assert(base64_text(x.skip(3)) =~= s.skip(4));
            assert(base64_text(y.skip(3)) =~= t.skip(4));
            law_base64_is_injective(x.skip(3), y.skip(3));
            assert(x =~= x.take(3) + x.skip(3));
            assert(y =~= y.take(3) + y.skip(3));
            assert(x.take(3) =~= y.take(3));
        } else {
            assert(x =~= y);
        }
    }
}

proof fn lemma_base64_third(xb: int, xc: int, yb: int, yc: int)
    requires
        0 <= xb < 256,
        0 <= xc < 256,
        0 <= yb < 256,
        0 <= yc < 256,
    ensures
        base64_digit(xb % 16 * 4 + xc / 64) != '=',
        base64_digit(xc % 64) != '=',
        base64_digit(yb % 16 * 4 + yc / 64) != '=',
        base64_digit(yc % 64) != '=',
        base64_digit(xb % 16 * 4 + xc / 64) == base64_digit(yb % 16 * 4 + yc / 64)
            ==> xb % 16 == yb % 16 && xc / 64 == yc / 64,
        base64_digit(xc % 64) == base64_digit(yc % 64) ==> xc % 64 == yc % 64,
{
}

} // verus!
