//! Reading: what is taken from texts, files, messages and transactions.

use crate::amount::sum;
use crate::config::{demo_network, json_config, known_role, regtest_network, ConfigView, Role};
use crate::encoding::{base64_digit, base64_text, hex_bytes, hex_digit, hex_text, hex_value};
use crate::json::{json_read, json_texts, Json};
use crate::laws::deciding::bears;
use crate::laws::telling::part;
use crate::ledger::{LedgerView, PayoutView, RecordView, TipView};
use crate::p2p::{json_pending, json_tip, pending_read, request_read, PendingView};
use crate::snapshot::{json_ledger, json_payout, json_payouts, json_record, json_records, recovered};
use crate::text::{decimal, digit};
use crate::transaction::{
    all_described, block_decoded, block_hash, block_height, block_transactions, decoded, described, encoded,
    has_ironwood, has_orchard, hex_block, is_block_error, is_raw_error, is_txid, raw_message, raw_transaction,
    sapling_outputs, sapling_spends, transaction_coinbase, transaction_expiry, transaction_id, transaction_nullifiers,
    transaction_version, transparent_inputs, transparent_outputs, RawTxError, TxView,
};
use crate::wallet::keys::{
    first_address, is_key_error, key_message, receiver_spec, seed_address, seed_key, spending_key, unified_receiver,
    viewing_key, KeyError, ReceiverError,
};
use crate::wallet::scan::{is_received_error, parsed_transaction, payments_to, received_message, ReceivedError};
use vstd::arithmetic::div_mod::lemma_fundamental_div_mod_converse;
use vstd::prelude::*;
use vstd::utf8::encode_utf8;
use zakura_chain::parameters::Network;
use zakura_chain::transaction::Transaction;

verus! {

/// The number that a text of decimal digits stands for.
pub open spec fn value_of(text: Seq<char>) -> nat
    decreases text.len(),
{
    if text.len() == 0 {
        0
    } else {
        (10 * value_of(text.drop_last()) + (text.last() as int - '0' as int)) as nat
    }
}

/// A number is written with decimal digits that stand for it, and without a zero that
/// it does not need.
pub proof fn law_numbers_are_written_in_decimal(n: nat)
    ensures
        decimal(n).len() > 0,
        forall|i: int| 0 <= i < decimal(n).len() ==> '0' <= #[trigger] decimal(n)[i] <= '9',
        value_of(decimal(n)) == n,
        n > 0 ==> decimal(n)[0] != '0',
        n == 0 ==> decimal(n).len() == 1,
    decreases n,
{
    reveal_with_fuel(value_of, 2);
    if n >= 10 {
        law_numbers_are_written_in_decimal(n / 10);
        let before = decimal(n / 10);
        assert(decimal(n) == before.push(digit(n % 10)));
        assert(decimal(n).drop_last() =~= before);
        assert(decimal(n)[0] == before[0]);
    } else {
        assert(seq![digit(n)].drop_last() =~= Seq::<char>::empty());
    }
}

/// Whether a character is the hexadecimal digit of a number, in either case.
pub open spec fn stands_for(c: char, n: int) -> bool {
    0 <= n < 16 && (c == "0123456789abcdef"@[n] || c == "0123456789ABCDEF"@[n])
}

proof fn lemma_hex_digits(n: int)
    requires
        0 <= n < 16,
    ensures
        hex_digit(n) == "0123456789abcdef"@[n],
        forall|c: char| stands_for(c, n) <==> #[trigger] hex_value(c) == Some(n),
{
    reveal_strlit("0123456789abcdef");
    reveal_strlit("0123456789ABCDEF");
    if n == 0 {
        assert("0123456789abcdef"@[0] == '0' && "0123456789ABCDEF"@[0] == '0');
    } else if n == 1 {
        assert("0123456789abcdef"@[1] == '1' && "0123456789ABCDEF"@[1] == '1');
    } else if n == 2 {
        assert("0123456789abcdef"@[2] == '2' && "0123456789ABCDEF"@[2] == '2');
    } else if n == 3 {
        assert("0123456789abcdef"@[3] == '3' && "0123456789ABCDEF"@[3] == '3');
    } else if n == 4 {
        assert("0123456789abcdef"@[4] == '4' && "0123456789ABCDEF"@[4] == '4');
    } else if n == 5 {
        assert("0123456789abcdef"@[5] == '5' && "0123456789ABCDEF"@[5] == '5');
    } else if n == 6 {
        assert("0123456789abcdef"@[6] == '6' && "0123456789ABCDEF"@[6] == '6');
    } else if n == 7 {
        assert("0123456789abcdef"@[7] == '7' && "0123456789ABCDEF"@[7] == '7');
    } else if n == 8 {
        assert("0123456789abcdef"@[8] == '8' && "0123456789ABCDEF"@[8] == '8');
    } else if n == 9 {
        assert("0123456789abcdef"@[9] == '9' && "0123456789ABCDEF"@[9] == '9');
    } else if n == 10 {
        assert("0123456789abcdef"@[10] == 'a' && "0123456789ABCDEF"@[10] == 'A');
    } else if n == 11 {
        assert("0123456789abcdef"@[11] == 'b' && "0123456789ABCDEF"@[11] == 'B');
    } else if n == 12 {
        assert("0123456789abcdef"@[12] == 'c' && "0123456789ABCDEF"@[12] == 'C');
    } else if n == 13 {
        assert("0123456789abcdef"@[13] == 'd' && "0123456789ABCDEF"@[13] == 'D');
    } else if n == 14 {
        assert("0123456789abcdef"@[14] == 'e' && "0123456789ABCDEF"@[14] == 'E');
    } else if n == 15 {
        assert("0123456789abcdef"@[15] == 'f' && "0123456789ABCDEF"@[15] == 'F');
    }
}

/// Bytes are written with two hexadecimal digits each, in lower case, the higher first.
pub proof fn law_bytes_are_written_in_hexadecimal(bytes: Seq<u8>, i: int)
    requires
        0 <= i < bytes.len(),
    ensures
        hex_text(bytes).len() == 2 * bytes.len(),
        hex_text(bytes)[2 * i] == "0123456789abcdef"@[bytes[i] as int / 16],
        hex_text(bytes)[2 * i + 1] == "0123456789abcdef"@[bytes[i] as int % 16],
{
    lemma_hex_digits(bytes[i] as int / 16);
    lemma_hex_digits(bytes[i] as int % 16);
    assert((2 * i) / 2 == i && (2 * i + 1) / 2 == i);
}

/// Whether bytes are those of a text of hexadecimal digits in either case.
pub open spec fn spells(text: Seq<char>, bytes: Seq<u8>) -> bool {
    &&& text.len() == 2 * bytes.len()
    &&& forall|i: int|
        0 <= i < bytes.len() ==> stands_for(text[2 * i], (#[trigger] bytes[i]) as int / 16) && stands_for(
            text[2 * i + 1],
            bytes[i] as int % 16,
        )
}

/// A text of hexadecimal digits, in either case and in pairs, is read as the bytes that
/// it spells; any other text is refused.
pub proof fn law_hexadecimal_is_read_in_pairs(text: Seq<char>, bytes: Seq<u8>)
    ensures
        hex_bytes(text) is Some ==> spells(text, hex_bytes(text)->0),
        spells(text, bytes) ==> hex_bytes(text) == Some(bytes),
{
    if hex_bytes(text) is Some {
        let read = hex_bytes(text)->0;
        assert forall|i: int| 0 <= i < read.len() implies stands_for(text[2 * i], (#[trigger] read[i]) as int / 16)
            && stands_for(text[2 * i + 1], read[i] as int % 16) by {
            let a = hex_value(text[2 * i])->0;
            let b = hex_value(text[2 * i + 1])->0;
            lemma_hex_digits(a);
            lemma_hex_digits(b);
            assert(read[i] as int == a * 16 + b);
        }
    }
    if spells(text, bytes) {
        assert forall|j: int| 0 <= j < text.len() implies hex_value(#[trigger] text[j]) is Some by {
            let i = j / 2;
            assert(0 <= bytes[i] as int / 16 < 16);
            lemma_hex_digits(bytes[i] as int / 16);
            lemma_hex_digits(bytes[i] as int % 16);
            assert(j == 2 * i || j == 2 * i + 1);
        }
        let read = hex_bytes(text)->0;
        assert forall|i: int| 0 <= i < bytes.len() implies #[trigger] read[i] == bytes[i] by {
            lemma_hex_digits(bytes[i] as int / 16);
            lemma_hex_digits(bytes[i] as int % 16);
            assert(hex_value(text[2 * i]) == Some(bytes[i] as int / 16));
            assert(hex_value(text[2 * i + 1]) == Some(bytes[i] as int % 16));
        }
        assert(read =~= bytes);
    }
}

/// The digits of base64.
pub open spec fn alphabet() -> Seq<char> {
    "ABCDEFGHIJKLMNOPQRSTUVWXYZabcdefghijklmnopqrstuvwxyz0123456789+/"@
}

proof fn lemma_alphabet(n: int)
    requires
        0 <= n < 64,
    ensures
        base64_digit(n) == alphabet()[n],
{
    reveal_strlit("ABCDEFGHIJKLMNOPQRSTUVWXYZabcdefghijklmnopqrstuvwxyz0123456789+/");
    if n == 0 {
        assert(alphabet()[0] == 'A');
    } else if n == 1 {
        assert(alphabet()[1] == 'B');
    } else if n == 2 {
        assert(alphabet()[2] == 'C');
    } else if n == 3 {
        assert(alphabet()[3] == 'D');
    } else if n == 4 {
        assert(alphabet()[4] == 'E');
    } else if n == 5 {
        assert(alphabet()[5] == 'F');
    } else if n == 6 {
        assert(alphabet()[6] == 'G');
    } else if n == 7 {
        assert(alphabet()[7] == 'H');
    } else if n == 8 {
        assert(alphabet()[8] == 'I');
    } else if n == 9 {
        assert(alphabet()[9] == 'J');
    } else if n == 10 {
        assert(alphabet()[10] == 'K');
    } else if n == 11 {
        assert(alphabet()[11] == 'L');
    } else if n == 12 {
        assert(alphabet()[12] == 'M');
    } else if n == 13 {
        assert(alphabet()[13] == 'N');
    } else if n == 14 {
        assert(alphabet()[14] == 'O');
    } else if n == 15 {
        assert(alphabet()[15] == 'P');
    } else if n == 16 {
        assert(alphabet()[16] == 'Q');
    } else if n == 17 {
        assert(alphabet()[17] == 'R');
    } else if n == 18 {
        assert(alphabet()[18] == 'S');
    } else if n == 19 {
        assert(alphabet()[19] == 'T');
    } else if n == 20 {
        assert(alphabet()[20] == 'U');
    } else if n == 21 {
        assert(alphabet()[21] == 'V');
    } else if n == 22 {
        assert(alphabet()[22] == 'W');
    } else if n == 23 {
        assert(alphabet()[23] == 'X');
    } else if n == 24 {
        assert(alphabet()[24] == 'Y');
    } else if n == 25 {
        assert(alphabet()[25] == 'Z');
    } else if n == 26 {
        assert(alphabet()[26] == 'a');
    } else if n == 27 {
        assert(alphabet()[27] == 'b');
    } else if n == 28 {
        assert(alphabet()[28] == 'c');
    } else if n == 29 {
        assert(alphabet()[29] == 'd');
    } else if n == 30 {
        assert(alphabet()[30] == 'e');
    } else if n == 31 {
        assert(alphabet()[31] == 'f');
    } else if n == 32 {
        assert(alphabet()[32] == 'g');
    } else if n == 33 {
        assert(alphabet()[33] == 'h');
    } else if n == 34 {
        assert(alphabet()[34] == 'i');
    } else if n == 35 {
        assert(alphabet()[35] == 'j');
    } else if n == 36 {
        assert(alphabet()[36] == 'k');
    } else if n == 37 {
        assert(alphabet()[37] == 'l');
    } else if n == 38 {
        assert(alphabet()[38] == 'm');
    } else if n == 39 {
        assert(alphabet()[39] == 'n');
    } else if n == 40 {
        assert(alphabet()[40] == 'o');
    } else if n == 41 {
        assert(alphabet()[41] == 'p');
    } else if n == 42 {
        assert(alphabet()[42] == 'q');
    } else if n == 43 {
        assert(alphabet()[43] == 'r');
    } else if n == 44 {
        assert(alphabet()[44] == 's');
    } else if n == 45 {
        assert(alphabet()[45] == 't');
    } else if n == 46 {
        assert(alphabet()[46] == 'u');
    } else if n == 47 {
        assert(alphabet()[47] == 'v');
    } else if n == 48 {
        assert(alphabet()[48] == 'w');
    } else if n == 49 {
        assert(alphabet()[49] == 'x');
    } else if n == 50 {
        assert(alphabet()[50] == 'y');
    } else if n == 51 {
        assert(alphabet()[51] == 'z');
    } else if n == 52 {
        assert(alphabet()[52] == '0');
    } else if n == 53 {
        assert(alphabet()[53] == '1');
    } else if n == 54 {
        assert(alphabet()[54] == '2');
    } else if n == 55 {
        assert(alphabet()[55] == '3');
    } else if n == 56 {
        assert(alphabet()[56] == '4');
    } else if n == 57 {
        assert(alphabet()[57] == '5');
    } else if n == 58 {
        assert(alphabet()[58] == '6');
    } else if n == 59 {
        assert(alphabet()[59] == '7');
    } else if n == 60 {
        assert(alphabet()[60] == '8');
    } else if n == 61 {
        assert(alphabet()[61] == '9');
    } else if n == 62 {
        assert(alphabet()[62] == '+');
    } else if n == 63 {
        assert(alphabet()[63] == '/');
    }
}

/// The byte at a place, or zero behind the end.
pub open spec fn padded(bytes: Seq<u8>, i: int) -> int {
    if i < bytes.len() {
        bytes[i] as int
    } else {
        0
    }
}

proof fn lemma_bits(a: int, b: int, c: int)
    requires
        0 <= a < 256,
        0 <= b < 256,
        0 <= c < 256,
    ensures
        (a * 65536 + b * 256 + c) / 262144 == a / 4,
        (a * 65536 + b * 256 + c) / 4096 % 64 == a % 4 * 16 + b / 16,
        (a * 65536 + b * 256 + c) / 64 % 64 == b % 16 * 4 + c / 64,
        (a * 65536 + b * 256 + c) % 64 == c % 64,
{
    let bits = a * 65536 + b * 256 + c;
    let w = a / 4;
    let x = a % 4 * 16 + b / 16;
    let y = b % 16 * 4 + c / 64;
    let z = c % 64;
    assert(a == 4 * (a / 4) + a % 4 && b == 16 * (b / 16) + b % 16 && c == 64 * (c / 64) + c % 64);
    assert(0 <= x < 64 && 0 <= y < 64 && 0 <= z < 64);
    assert(bits == 262144 * w + 4096 * x + 64 * y + z);
    lemma_fundamental_div_mod_converse(bits, 262144, w, 4096 * x + 64 * y + z);
    lemma_fundamental_div_mod_converse(bits, 4096, 64 * w + x, 64 * y + z);
    lemma_fundamental_div_mod_converse(64 * w + x, 64, w, x);
    lemma_fundamental_div_mod_converse(bits, 64, 4096 * w + 64 * x + y, z);
    lemma_fundamental_div_mod_converse(4096 * w + 64 * x + y, 64, 64 * w + x, y);
}

/// Whether four characters stand for the three bytes from a place on.
pub open spec fn is_group(text: Seq<char>, bytes: Seq<u8>, g: int) -> bool {
    let a = padded(bytes, 3 * g);
    let b = padded(bytes, 3 * g + 1);
    let c = padded(bytes, 3 * g + 2);
    let bits = a * 65536 + b * 256 + c;
    &&& text[4 * g] == alphabet()[bits / 262144]
    &&& text[4 * g + 1] == alphabet()[bits / 4096 % 64]
    &&& text[4 * g + 2] == if 3 * g + 1 < bytes.len() {
        alphabet()[bits / 64 % 64]
    } else {
        '='
    }
    &&& text[4 * g + 3] == if 3 * g + 2 < bytes.len() {
        alphabet()[bits % 64]
    } else {
        '='
    }
}

proof fn lemma_first_group(bytes: Seq<u8>)
    requires
        bytes.len() > 0,
    ensures
        is_group(base64_text(bytes), bytes, 0),
{
    let a = padded(bytes, 0);
    let b = padded(bytes, 1);
    let c = padded(bytes, 2);
    lemma_bits(a, b, c);
    lemma_alphabet(a / 4);
    lemma_alphabet(a % 4 * 16 + b / 16);
    lemma_alphabet(b % 16 * 4 + c / 64);
    lemma_alphabet(c % 64);
}

proof fn lemma_base64_length(bytes: Seq<u8>)
    ensures
        base64_text(bytes).len() == (bytes.len() + 2) / 3 * 4,
    decreases bytes.len(),
{
    if bytes.len() > 3 {
        lemma_base64_length(bytes.skip(3));
    }
}

/// Three bytes are written as four base64 digits of six bits each; where the last group
/// is short, an equals sign stands for each digit that no byte reaches.
pub proof fn law_bytes_are_written_in_base64(bytes: Seq<u8>, g: int)
    requires
        0 <= 3 * g < bytes.len(),
    ensures
        base64_text(bytes).len() == (bytes.len() + 2) / 3 * 4,
        is_group(base64_text(bytes), bytes, g),
    decreases bytes.len(),
{
    lemma_base64_length(bytes);
    if g == 0 {
        lemma_first_group(bytes);
    } else {
        let rest = bytes.skip(3);
        law_bytes_are_written_in_base64(rest, g - 1);
        assert(padded(rest, 3 * (g - 1)) == padded(bytes, 3 * g));
        assert(padded(rest, 3 * (g - 1) + 1) == padded(bytes, 3 * g + 1));
        assert(padded(rest, 3 * (g - 1) + 2) == padded(bytes, 3 * g + 2));
        let text = base64_text(bytes);
        let after = base64_text(rest);
        lemma_base64_length(rest);
        assert(text[4 * g] == after[4 * (g - 1)]);
        assert(text[4 * g + 1] == after[4 * (g - 1) + 1]);
        assert(text[4 * g + 2] == after[4 * (g - 1) + 2]);
        assert(text[4 * g + 3] == after[4 * (g - 1) + 3]);
    }
}

/// A transaction is read from hexadecimal digits if they spell one transaction and
/// nothing more. What is known of it is what the transaction says of itself.
pub proof fn law_transactions_are_read_whole(raw: Seq<char>)
    ensures
        ({
            let bytes = hex_bytes(raw)->0;
            let tx = (decoded(bytes)->0).0;
            let used = (decoded(bytes)->0).1;
            let read = raw_transaction(raw);
            let legible = hex_bytes(raw) is Some && decoded(bytes) is Some && encoded(tx) is Some;
            &&& read is Some <==> legible && used == bytes.len()
            &&& legible ==> raw_message(raw) == Some("trailing transaction bytes"@)
            &&& !legible ==> raw_message(raw) is None
            &&& read is Some ==> is_told(read->0, tx)
        }),
{
    let tx = (decoded(hex_bytes(raw)->0)->0).0;
    if described(tx) is Some {
        lemma_told(tx);
    }
}

/// Whether what is known of a transaction is what it says of itself.
pub open spec fn is_told(view: TxView, tx: Transaction) -> bool {
    &&& encoded(tx) == Some(view.bytes)
    &&& view.txid == transaction_id(tx)
    &&& view.expiry == transaction_expiry(tx)
    &&& view.pools.version == transaction_version(tx) && view.pools.coinbase == transaction_coinbase(tx)
    &&& view.pools.inputs == transparent_inputs(tx) && view.pools.outputs == transparent_outputs(tx)
    &&& view.pools.sapling_outputs == sapling_outputs(tx) && view.pools.sapling_spends == sapling_spends(tx)
    &&& view.pools.orchard == has_orchard(tx) && view.pools.ironwood == has_ironwood(tx)
    &&& view.nullifiers.len() == transaction_nullifiers(tx).len()
    &&& forall|i: int|
        0 <= i < view.nullifiers.len() ==> #[trigger] view.nullifiers[i] == hex_text(transaction_nullifiers(tx)[i])
}

proof fn lemma_told(tx: Transaction)
    ensures
        described(tx) is Some <==> encoded(tx) is Some,
        described(tx) is Some ==> is_told(described(tx)->0, tx),
{
}

/// A block is read from hexadecimal digits with its height, its hash and all of its
/// transactions, in order.
pub proof fn law_blocks_are_read_whole(raw: Seq<char>)
    ensures
        ({
            let block = block_decoded(hex_bytes(raw)->0)->0;
            let list = block_transactions(block);
            let read = hex_block(raw);
            &&& read is Some <==> hex_bytes(raw) is Some && block_decoded(hex_bytes(raw)->0) is Some && forall|i: int|
                0 <= i < list.len() ==> encoded(#[trigger] list[i]) is Some
            &&& read is Some ==> read->0.height == block_height(block) && read->0.hash == block_hash(block)
            &&& read is Some ==> read->0.transactions.len() == list.len()
            &&& read is Some ==> forall|i: int|
                0 <= i < list.len() ==> is_told(read->0.transactions[i], #[trigger] list[i])
        }),
{
    let list = block_transactions(block_decoded(hex_bytes(raw)->0)->0);
    assert forall|i: int| 0 <= i < list.len() implies (described(#[trigger] list[i]) is Some <==> encoded(list[i]) is Some)
        && (described(list[i]) is Some ==> is_told(described(list[i])->0, list[i])) by {
        lemma_told(list[i]);
    }
    if all_described(list) is Some {
        assert forall|i: int| 0 <= i < list.len() implies encoded(#[trigger] list[i]) is Some by {
            assert(described(list[i]) is Some);
        }
    }
}

/// Why a transaction cannot be read: its digits are at fault, its bytes are, or there
/// are too many of them.
pub proof fn law_unreadable_transactions_are_explained(e: RawTxError, raw: Seq<char>)
    requires
        is_raw_error(e, raw),
    ensures
        ({
            let bytes = hex_bytes(raw)->0;
            let legible = decoded(bytes) is Some && encoded((decoded(bytes)->0).0) is Some;
            &&& e is Hex <==> hex_bytes(raw) is None
            &&& e is Malformed <==> hex_bytes(raw) is Some && !legible
            &&& e is Trailing <==> hex_bytes(raw) is Some && legible && (decoded(bytes)->0).1 != bytes.len()
        }),
{
    law_transactions_are_read_whole(raw);
}

/// Why a block cannot be read: its digits are at fault, or its bytes are.
pub proof fn law_unreadable_blocks_are_explained(e: RawTxError, raw: Seq<char>)
    requires
        is_block_error(e, raw),
    ensures
        e is Hex <==> hex_bytes(raw) is None,
        e is Malformed <==> hex_bytes(raw) is Some,
        !(e is Trailing),
        hex_block(raw) is None,
{
}

/// Why a seed gives no key: its digits are at fault, it has another length, or its bytes
/// are no key.
pub proof fn law_useless_seeds_are_explained(e: KeyError, seed: Seq<char>)
    requires
        is_key_error(e, seed),
    ensures
        e is Hex <==> hex_bytes(seed) is None,
        e is Length <==> hex_bytes(seed) is Some && hex_bytes(seed)->0.len() != 32,
        e is Invalid <==> hex_bytes(seed) is Some && hex_bytes(seed)->0.len() == 32 && spending_key(
            hex_bytes(seed)->0,
        ) is None,
{
}

/// Why what a payment pays is unknown: the seed gives no key, the transaction cannot be
/// read at that height, or the amounts do not fit.
pub proof fn law_unknown_payments_are_explained(e: ReceivedError, bytes: Seq<u8>, seed: Seq<char>, net: Network, height: u32)
    requires
        is_received_error(e, bytes, seed, net, height),
    ensures
        e is Key <==> seed_key(seed) is None,
        e is Key ==> is_key_error(e->Key_0, seed),
        e is Malformed <==> seed_key(seed) is Some && parsed_transaction(bytes, net, height) is None,
        e is Overflow ==> seed_key(seed) is Some && parsed_transaction(bytes, net, height) is Some && sum(
            payments_to(bytes, seed, net, height)->0,
        ) > u64::MAX,
{
}

/// A seed of thirty-two bytes in hexadecimal digits gives the key of those bytes, and
/// the address is the first one of that key. Why there is no key is said, unless the
/// digits themselves are at fault.
pub proof fn law_seeds_are_thirty_two_bytes(seed: Seq<char>)
    ensures
        ({
            let bytes = hex_bytes(seed)->0;
            &&& hex_bytes(seed) is Some && bytes.len() == 32 ==> seed_key(seed) == spending_key(bytes)
            &&& seed_key(seed) is Some ==> hex_bytes(seed) is Some && bytes.len() == 32
            &&& hex_bytes(seed) is None ==> key_message(seed) is None
            &&& hex_bytes(seed) is Some && bytes.len() != 32 ==> key_message(seed) == Some("seed must be 32 bytes"@)
            &&& hex_bytes(seed) is Some && bytes.len() == 32 ==> key_message(seed) == Some("invalid spending key"@)
            &&& seed_address(seed) is Some <==> seed_key(seed) is Some
            &&& seed_key(seed) is Some ==> seed_address(seed) == Some(first_address(viewing_key(seed_key(seed)->0)))
        }),
{
}

/// Why what a payment pays is unknown is said: the seed gives no key, or the amounts do
/// not add up.
pub proof fn law_unknown_fees_are_explained(bytes: Seq<u8>, seed: Seq<char>, net: Network, height: u32)
    ensures
        seed_key(seed) is None ==> received_message(bytes, seed, net, height) == key_message(seed),
        seed_key(seed) is Some && parsed_transaction(bytes, net, height) is Some ==> received_message(
            bytes,
            seed,
            net,
            height,
        ) == Some("amount overflow"@),
        seed_key(seed) is Some && parsed_transaction(bytes, net, height) is None ==> received_message(
            bytes,
            seed,
            net,
            height,
        ) is None,
{
}

/// A payee is the shielded receiver of a unified address; a text that is none, and an
/// address without such a receiver, are refused.
pub proof fn law_payees_are_unified_addresses(text: Seq<char>, net: Network)
    ensures
        receiver_spec(text, net) is Ok <==> unified_receiver(text, net) is Some && unified_receiver(text, net)->0 is Some,
        receiver_spec(text, net) is Ok ==> unified_receiver(text, net) == Some(Some(receiver_spec(text, net)->Ok_0)),
        receiver_spec(text, net) == Err::<orchard::Address, ReceiverError>(ReceiverError::NotUnified) <==> unified_receiver(
            text,
            net,
        ) is None,
        receiver_spec(text, net) == Err::<orchard::Address, ReceiverError>(ReceiverError::NoReceiver) <==> unified_receiver(
            text,
            net,
        ) is Some && unified_receiver(text, net)->0 is None,
{
}

/// Whether a value is a list of texts, these.
pub open spec fn lists(value: Json, list: Seq<Seq<char>>) -> bool {
    &&& value is Array && value->Array_0.len() == list.len()
    &&& forall|i: int| 0 <= i < list.len() ==> #[trigger] value->Array_0[i] == Json::Text(list[i])
}

/// Lists of texts are read in order, and only if they hold nothing else.
pub proof fn law_lists_of_texts_are_read_in_order(value: Json)
    ensures
        json_texts(value) is Some ==> lists(value, json_texts(value)->0),
        json_texts(value) is Some <==> value is Array && forall|i: int|
            0 <= i < value->Array_0.len() ==> #[trigger] value->Array_0[i] is Text,
{
}

/// Whether what was read from a value is the block that it names.
pub open spec fn reads_tip(value: Json, read: Option<TipView>) -> bool {
    &&& value is Object ==> (read is Some <==> value->Object_0.len() == 2 && bears(value, "height"@)
        && part(value, "height"@) is Unsigned && part(value, "height"@)->Unsigned_0 <= u32::MAX
        && bears(value, "hash"@) && part(value, "hash"@) is Text)
    &&& value is Object && read is Some ==> part(value, "height"@) == Json::Unsigned(read->0.height as u64)
        && part(value, "hash"@) == Json::Text(read->0.hash)
    &&& value is Array ==> (read is Some <==> value->Array_0.len() == 2 && value->Array_0[0] is Unsigned
        && value->Array_0[0]->Unsigned_0 <= u32::MAX && value->Array_0[1] is Text)
    &&& value is Array && read is Some ==> value->Array_0[0] == Json::Unsigned(read->0.height as u64)
        && value->Array_0[1] == Json::Text(read->0.hash)
    &&& read is Some ==> value is Object || value is Array
}

/// A block is named by an object with a height and a hash, or by a list of the two.
pub proof fn law_blocks_are_named_by_height_and_hash(value: Json)
    ensures
        reads_tip(value, json_tip(value)),
{
}

/// Whether what was read from a value is the pending set in it.
pub open spec fn reads_pending(value: Json, read: Option<PendingView>) -> bool {
    &&& value is Object ==> (read is Some <==> value->Object_0.len() == 3 && bears(value, "chain_id"@)
        && part(value, "chain_id"@) is Text && bears(value, "tip"@) && json_tip(part(value, "tip"@)) is Some
        && bears(value, "transactions"@) && json_texts(part(value, "transactions"@)) is Some)
    &&& value is Object && read is Some ==> part(value, "chain_id"@) == Json::Text(read->0.chain_id)
        && json_tip(part(value, "tip"@)) == Some(read->0.tip)
        && lists(part(value, "transactions"@), read->0.transactions)
    &&& value is Array ==> (read is Some <==> value->Array_0.len() == 3 && value->Array_0[0] is Text
        && json_tip(value->Array_0[1]) is Some && json_texts(value->Array_0[2]) is Some)
    &&& value is Array && read is Some ==> value->Array_0[0] == Json::Text(read->0.chain_id)
        && json_tip(value->Array_0[1]) == Some(read->0.tip) && lists(value->Array_0[2], read->0.transactions)
    &&& read is Some ==> value is Object || value is Array
}

/// A pending set is read from an object with these three members, or from a list of the
/// three.
pub proof fn law_pending_sets_are_read_strictly(value: Json)
    ensures
        reads_pending(value, json_pending(value)),
{
}

/// Whether what was read from a value is the payment in it.
pub open spec fn reads_record(value: Json, read: Option<RecordView>) -> bool {
    &&& value is Object ==> (read is Some <==> bears(value, "txid"@) && part(value, "txid"@) is Text
        && bears(value, "raw_tx"@) && part(value, "raw_tx"@) is Text && bears(value, "fee"@)
        && part(value, "fee"@) is Unsigned && bears(value, "receipt"@) && true && bears(value, "status"@)
        && part(value, "status"@) is Text && (bears(value, "inclusion"@)
        ==> (part(value, "inclusion"@) is Null || json_tip(part(value, "inclusion"@)) is Some))
        && (bears(value, "failure_reason"@)
        ==> (part(value, "failure_reason"@) is Text || part(value, "failure_reason"@) is Null)))
    &&& value is Object && read is Some ==> part(value, "txid"@) == Json::Text(read->0.txid)
        && part(value, "raw_tx"@) == Json::Text(read->0.raw_tx) && part(value, "fee"@) == Json::Unsigned(read->0.fee)
        && part(value, "receipt"@) == read->0.receipt && part(value, "status"@) == Json::Text(read->0.status)
        && (bears(value, "inclusion"@) ==> (read->0.inclusion is Some
        ==> json_tip(part(value, "inclusion"@)) == read->0.inclusion) && (read->0.inclusion is None
        ==> part(value, "inclusion"@) is Null)) && (!bears(value, "inclusion"@) ==> read->0.inclusion is None)
        && (bears(value, "failure_reason"@) ==> (read->0.failure_reason is Some
        ==> part(value, "failure_reason"@) == Json::Text(read->0.failure_reason->0))
        && (read->0.failure_reason is None ==> part(value, "failure_reason"@) is Null))
        && (!bears(value, "failure_reason"@) ==> read->0.failure_reason is None)
    &&& value is Array ==> (read is Some <==> value->Array_0.len() == 7 && value->Array_0[0] is Text
        && value->Array_0[1] is Text && value->Array_0[2] is Unsigned && value->Array_0[4] is Text
        && (value->Array_0[5] is Null || json_tip(value->Array_0[5]) is Some)
        && (value->Array_0[6] is Text || value->Array_0[6] is Null))
    &&& value is Array && read is Some ==> value->Array_0[0] == Json::Text(read->0.txid)
        && value->Array_0[1] == Json::Text(read->0.raw_tx) && value->Array_0[2] == Json::Unsigned(read->0.fee)
        && value->Array_0[3] == read->0.receipt && value->Array_0[4] == Json::Text(read->0.status)
        && (read->0.inclusion is Some ==> json_tip(value->Array_0[5]) == read->0.inclusion)
        && (read->0.inclusion is None ==> value->Array_0[5] is Null) && (read->0.failure_reason is Some
        ==> value->Array_0[6] == Json::Text(read->0.failure_reason->0)) && (read->0.failure_reason is None
        ==> value->Array_0[6] is Null)
    &&& read is Some ==> value is Object || value is Array
}

/// A saved payment is read member by member; where it is included and why it failed may
/// be missing.
pub proof fn law_saved_payments_are_read(value: Json)
    ensures
        reads_record(value, json_record(value)),
{
}

/// Whether what was read from a value is the payout in it.
pub open spec fn reads_payout(value: Json, read: Option<PayoutView>) -> bool {
    &&& value is Object ==> (read is Some <==> bears(value, "block"@) && json_tip(part(value, "block"@)) is Some
        && bears(value, "address"@) && part(value, "address"@) is Text && bears(value, "amount"@)
        && part(value, "amount"@) is Unsigned && bears(value, "txids"@) && json_texts(part(value, "txids"@)) is Some
        && (bears(value, "raw_tx"@) ==> (part(value, "raw_tx"@) is Text || part(value, "raw_tx"@) is Null))
        && (bears(value, "txid"@) ==> (part(value, "txid"@) is Text || part(value, "txid"@) is Null))
        && bears(value, "status"@) && part(value, "status"@) is Text && (bears(value, "reason"@)
        ==> (part(value, "reason"@) is Text || part(value, "reason"@) is Null)))
    &&& value is Object && read is Some ==> json_tip(part(value, "block"@)) == Some(read->0.block)
        && part(value, "address"@) == Json::Text(read->0.address)
        && part(value, "amount"@) == Json::Unsigned(read->0.amount) && lists(part(value, "txids"@), read->0.txids)
        && (bears(value, "raw_tx"@) ==> (read->0.raw_tx is Some
        ==> part(value, "raw_tx"@) == Json::Text(read->0.raw_tx->0)) && (read->0.raw_tx is None
        ==> part(value, "raw_tx"@) is Null)) && (!bears(value, "raw_tx"@) ==> read->0.raw_tx is None)
        && (bears(value, "txid"@) ==> (read->0.txid is Some ==> part(value, "txid"@) == Json::Text(read->0.txid->0))
        && (read->0.txid is None ==> part(value, "txid"@) is Null)) && (!bears(value, "txid"@)
        ==> read->0.txid is None) && part(value, "status"@) == Json::Text(read->0.status) && (bears(value, "reason"@)
        ==> (read->0.reason is Some ==> part(value, "reason"@) == Json::Text(read->0.reason->0))
        && (read->0.reason is None ==> part(value, "reason"@) is Null)) && (!bears(value, "reason"@)
        ==> read->0.reason is None)
    &&& value is Array ==> (read is Some <==> value->Array_0.len() == 8 && json_tip(value->Array_0[0]) is Some
        && value->Array_0[1] is Text && value->Array_0[2] is Unsigned && json_texts(value->Array_0[3]) is Some
        && (value->Array_0[4] is Text || value->Array_0[4] is Null)
        && (value->Array_0[5] is Text || value->Array_0[5] is Null) && value->Array_0[6] is Text
        && (value->Array_0[7] is Text || value->Array_0[7] is Null))
    &&& value is Array && read is Some ==> json_tip(value->Array_0[0]) == Some(read->0.block)
        && value->Array_0[1] == Json::Text(read->0.address) && value->Array_0[2] == Json::Unsigned(read->0.amount)
        && lists(value->Array_0[3], read->0.txids) && (read->0.raw_tx is Some
        ==> value->Array_0[4] == Json::Text(read->0.raw_tx->0)) && (read->0.raw_tx is None
        ==> value->Array_0[4] is Null) && (read->0.txid is Some ==> value->Array_0[5] == Json::Text(read->0.txid->0))
        && (read->0.txid is None ==> value->Array_0[5] is Null) && value->Array_0[6] == Json::Text(read->0.status)
        && (read->0.reason is Some ==> value->Array_0[7] == Json::Text(read->0.reason->0)) && (read->0.reason is None
        ==> value->Array_0[7] is Null)
    &&& read is Some ==> value is Object || value is Array
}

/// A saved payout is read member by member; its transaction, its identifier and its reason
/// may be missing.
pub proof fn law_saved_payouts_are_read(value: Json)
    ensures
        reads_payout(value, json_payout(value)),
{
}

/// Whether what was read from a value is the ledger in it.
pub open spec fn reads_ledger(value: Json, read: Option<LedgerView>) -> bool {
    &&& value is Object ==> (read is Some <==> (bears(value, "tip"@)
        ==> (part(value, "tip"@) is Null || json_tip(part(value, "tip"@)) is Some)) && bears(value, "records"@)
        && json_records(part(value, "records"@)) is Some && bears(value, "payouts"@)
        && json_payouts(part(value, "payouts"@)) is Some)
    &&& value is Object && read is Some ==> (bears(value, "tip"@) ==> (read->0.tip is Some
        ==> json_tip(part(value, "tip"@)) == read->0.tip) && (read->0.tip is None ==> part(value, "tip"@) is Null))
        && (!bears(value, "tip"@) ==> read->0.tip is None)
        && json_records(part(value, "records"@)) == Some(read->0.records)
        && json_payouts(part(value, "payouts"@)) == Some(read->0.payouts)
    &&& value is Array ==> (read is Some <==> value->Array_0.len() == 3
        && (value->Array_0[0] is Null || json_tip(value->Array_0[0]) is Some)
        && json_records(value->Array_0[1]) is Some && json_payouts(value->Array_0[2]) is Some)
    &&& value is Array && read is Some ==> (read->0.tip is Some ==> json_tip(value->Array_0[0]) == read->0.tip)
        && (read->0.tip is None ==> value->Array_0[0] is Null)
        && json_records(value->Array_0[1]) == Some(read->0.records)
        && json_payouts(value->Array_0[2]) == Some(read->0.payouts)
    &&& read is Some ==> value is Object || value is Array
}

/// A saved ledger is read member by member; its tip may be missing.
pub proof fn law_saved_ledgers_are_read(value: Json)
    ensures
        reads_ledger(value, json_ledger(value)),
{
}

/// Saved payments and payouts are read in order, all or none.
pub proof fn law_saved_lists_are_read_in_order(value: Json)
    ensures
        json_records(value) is Some <==> value is Array && forall|i: int|
            0 <= i < value->Array_0.len() ==> json_record(#[trigger] value->Array_0[i]) is Some,
        json_records(value) is Some ==> json_records(value)->0.len() == value->Array_0.len(),
        json_records(value) is Some ==> forall|i: int|
            0 <= i < value->Array_0.len() ==> json_record(#[trigger] value->Array_0[i]) == Some(json_records(value)->0[i]),
        json_payouts(value) is Some <==> value is Array && forall|i: int|
            0 <= i < value->Array_0.len() ==> json_payout(#[trigger] value->Array_0[i]) is Some,
        json_payouts(value) is Some ==> json_payouts(value)->0.len() == value->Array_0.len(),
        json_payouts(value) is Some ==> forall|i: int|
            0 <= i < value->Array_0.len() ==> json_payout(#[trigger] value->Array_0[i]) == Some(json_payouts(value)->0[i]),
{
}

/// A ledger that was never saved is empty; one that was is what its text holds.
pub proof fn law_the_ledger_is_what_was_saved(saved: Seq<char>)
    ensures
        recovered(None) == Some(LedgerView { tip: None, records: Seq::empty(), payouts: Seq::empty() }),
        json_read(encode_utf8(saved)) is Some ==> recovered(Some(saved)) == json_ledger(json_read(encode_utf8(saved))->0),
        json_read(encode_utf8(saved)) is None ==> recovered(Some(saved)) is None,
{
}

/// Messages of miners are read from JSON: a pending set, and a request, which names a
/// chain and nothing else.
pub proof fn law_messages_are_read_strictly(bytes: Seq<u8>)
    ensures
        ({
            let value = json_read(bytes)->0;
            let asked = request_read(bytes);
            &&& json_read(bytes) is None ==> pending_read(bytes) is None && asked is None
            &&& json_read(bytes) is Some ==> pending_read(bytes) == json_pending(value)
            &&& json_read(bytes) is Some && value is Object ==> (asked is Some <==> value->Object_0.len() == 1 && bears(
                value,
                "chain_id"@,
            ) && part(value, "chain_id"@) is Text)
            &&& asked is Some && value is Object ==> part(value, "chain_id"@) == Json::Text(asked->0)
            &&& json_read(bytes) is Some && value is Array ==> (asked is Some <==> value->Array_0.len() == 1
                && value->Array_0[0] is Text)
            &&& asked is Some && value is Array ==> value->Array_0[0] == Json::Text(asked->0)
            &&& asked is Some ==> value is Object || value is Array
        }),
{
}

/// Whether what was read from a value is the configuration in it.
pub open spec fn reads_config(value: Json, read: Option<ConfigView>) -> bool {
    let told = bears(value, "min_fee_zat"@);
    let size: nat = if told {
        10
    } else {
        9
    };
    &&& value is Object ==> (read is Some <==> value->Object_0.len() == size && bears(value, "role"@)
        && part(value, "role"@) is Text && bears(value, "node_config"@) && part(value, "node_config"@) is Text
        && bears(value, "chain_id"@) && part(value, "chain_id"@) is Text && bears(value, "server_peer"@)
        && part(value, "server_peer"@) is Text && bears(value, "node_rpc"@) && part(value, "node_rpc"@) is Text
        && bears(value, "api"@) && part(value, "api"@) is Text && bears(value, "database"@)
        && part(value, "database"@) is Text && bears(value, "seed"@) && part(value, "seed"@) is Text
        && bears(value, "miners"@)
        && json_texts(part(value, "miners"@)) is Some && (told ==> part(value, "min_fee_zat"@) is Unsigned))
    &&& value is Object && read is Some ==> part(value, "role"@) == Json::Text(read->0.role)
        && part(value, "node_config"@) == Json::Text(read->0.node_config)
        && part(value, "chain_id"@) == Json::Text(read->0.chain_id)
        && part(value, "server_peer"@) == Json::Text(read->0.server_peer)
        && part(value, "node_rpc"@) == Json::Text(read->0.node_rpc) && part(value, "api"@) == Json::Text(read->0.api)
        && part(value, "database"@) == Json::Text(read->0.database)
        && part(value, "seed"@) == Json::Text(read->0.seed) && lists(part(value, "miners"@), read->0.miners)
    &&& value is Object && read is Some && told ==> part(value, "min_fee_zat"@) == Json::Unsigned(
        read->0.min_fee_zat,
    )
    &&& value is Object && read is Some && !told ==> read->0.min_fee_zat == 10000
    &&& value is Array ==> (read is Some <==> (value->Array_0.len() == 9 || value->Array_0.len() == 10
        && value->Array_0[9] is Unsigned) && value->Array_0[0] is Text && value->Array_0[1] is Text && value->Array_0[2] is Text && value->Array_0[3] is Text && value->Array_0[4] is Text && value->Array_0[5] is Text && value->Array_0[6] is Text && value->Array_0[7] is Text && json_texts(value->Array_0[8]) is Some)
    &&& value is Array && read is Some ==> value->Array_0[0] == Json::Text(read->0.role)
        && value->Array_0[1] == Json::Text(read->0.node_config) && value->Array_0[2] == Json::Text(read->0.chain_id)
        && value->Array_0[3] == Json::Text(read->0.server_peer) && value->Array_0[4] == Json::Text(read->0.node_rpc)
        && value->Array_0[5] == Json::Text(read->0.api) && value->Array_0[6] == Json::Text(read->0.database)
        && value->Array_0[7] == Json::Text(read->0.seed) && lists(value->Array_0[8], read->0.miners)
    &&& value is Array && read is Some && value->Array_0.len() == 10 ==> value->Array_0[9] == Json::Unsigned(
        read->0.min_fee_zat,
    )
    &&& value is Array && read is Some && value->Array_0.len() == 9 ==> read->0.min_fee_zat == 10000
    &&& read is Some ==> value is Object || value is Array
}

/// A configuration is read from an object with these members and no others, or from a
/// list of them; the least fee may be missing, and is then 10000.
pub proof fn law_configurations_are_read_strictly(value: Json)
    ensures
        reads_config(value, json_config(value)),
{
}

/// The network is the one of the demonstration.
pub proof fn law_the_network_is_fixed()
    ensures
        demo_network() == regtest_network(1, 1, 2001, 1, "t2RnBRiqrN1nW4ecZs1Fj3WWjNdnSs4kiX8"@, 6250000),
{
}

/// An identifier is sixty-four hexadecimal digits.
pub proof fn law_identifiers_have_sixty_four_digits(text: Seq<char>, bytes: Seq<u8>)
    ensures
        is_txid(text) ==> text.len() == 64 && spells(text, hex_bytes(text)->0),
        spells(text, bytes) && bytes.len() == 32 ==> is_txid(text),
{
    law_hexadecimal_is_read_in_pairs(text, bytes);
}

/// There are three roles, known by their names.
pub proof fn law_roles_are_known_by_name(name: Seq<char>)
    ensures
        known_role("server"@) == Some(Role::Server),
        known_role("miner"@) == Some(Role::Miner),
        known_role("plain"@) == Some(Role::Plain),
        known_role(name) is Some ==> name == "server"@ || name == "miner"@ || name == "plain"@,
{
    reveal_strlit("server");
    reveal_strlit("miner");
    reveal_strlit("plain");
    assert("server"@.len() == 6 && "miner"@.len() == 5 && "plain"@.len() == 5);
    assert("miner"@[0] == 'm' && "plain"@[0] == 'p');
}

} // verus!
