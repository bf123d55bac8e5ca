//! Text: comparing, converting and writing the strings that the service keeps.

use vstd::hash_set::StringHashSet;
use vstd::prelude::*;
use vstd::string::StringExecFns;

verus! {

/// The characters of each string of a list.
pub open spec fn texts(list: Seq<String>) -> Seq<Seq<char>> {
    list.map_values(|s: String| s@)
}

/// The characters of an optional string.
pub open spec fn optional_text(text: Option<String>) -> Option<Seq<char>> {
    match text {
        Some(s) => Some(s@),
        None => None,
    }
}

/// Calls `==` of `str`, which compares the two texts byte by byte. Two texts have
/// the same UTF-8 bytes exactly when they have the same characters.
#[verifier::external_body]
pub(crate) fn same_text(a: &str, b: &str) -> (same: bool)
    ensures
        same == (a@ == b@),
{
    a == b
}

/// Whether two optional texts are both absent, or both present and equal.
pub fn same_optional(a: Option<&str>, b: Option<&str>) -> (same: bool)
    ensures
        same == match (a, b) {
            (Some(x), Some(y)) => x@ == y@,
            (None, None) => true,
            _ => false,
        },
{
    match (a, b) {
        (Some(x), Some(y)) => same_text(x, y),
        (None, None) => true,
        _ => false,
    }
}

/// The optional string as an optional slice.
pub fn optional_str(text: &Option<String>) -> (slice: Option<&str>)
    ensures
        slice is Some == text is Some,
        slice is Some ==> slice->0@ == text->0@,
{
    match text {
        Some(s) => Some(s.as_str()),
        None => None,
    }
}

proof fn lemma_push_contains(list: Seq<Seq<char>>, last: Seq<char>, text: Seq<char>)
    ensures
        list.push(last).contains(text) <==> list.contains(text) || text == last,
{
    if list.contains(text) {
        let k = choose|k: int| 0 <= k < list.len() && list[k] == text;
        assert(list.push(last)[k] == text);
    }
    if text == last {
        assert(list.push(last)[list.len() as int] == text);
    }
}

/// Adds the texts of a list to a set.
pub fn insert_all(set: &mut StringHashSet, list: &Vec<String>)
    ensures
        forall|t: Seq<char>| #[trigger] final(set)@.contains(t) <==> old(set)@.contains(t) || texts(list@).contains(t),
{
    let ghost all = texts(list@);
    let mut i: usize = 0;
    while i < list.len()
        invariant
            i <= list.len(),
            all == texts(list@),
            forall|t: Seq<char>| #[trigger]
                set@.contains(t) <==> old(set)@.contains(t) || all.take(i as int).contains(t),
        decreases list.len() - i,
    {
        let ghost before = set@;
        set.insert(list[i].clone());
        proof {
            assert(all.take(i + 1) =~= all.take(i as int).push(all[i as int]));
            assert forall|t: Seq<char>| #[trigger]
                set@.contains(t) <==> old(set)@.contains(t) || all.take(i + 1).contains(t) by {
                lemma_push_contains(all.take(i as int), all[i as int], t);
                assert(before.contains(t) <==> old(set)@.contains(t) || all.take(i as int).contains(t));
            }
        }
        i += 1;
    }
    assert(all.take(all.len() as int) =~= all);
}

/// Whether one of the texts of a list is in a set.
pub fn any_in(list: &Vec<String>, set: &StringHashSet) -> (found: bool)
    ensures
        found == exists|t: Seq<char>| #[trigger] texts(list@).contains(t) && set@.contains(t),
{
    let mut i: usize = 0;
    while i < list.len()
        invariant
            i <= list.len(),
            forall|k: int| 0 <= k < i ==> !set@.contains(#[trigger] texts(list@)[k]),
        decreases list.len() - i,
    {
        if set.contains(list[i].as_str()) {
            assert(texts(list@)[i as int] == list@[i as int]@);
            assert(texts(list@).contains(list@[i as int]@));
            return true;
        }
        i += 1;
    }
    false
}

/// The decimal digit of a number below ten.
pub open spec fn digit(n: nat) -> char {
    (48 + n) as char
}

/// The decimal notation of a number, without leading zeros.
pub open spec fn decimal(n: nat) -> Seq<char>
    decreases n,
{
    if n < 10 {
        seq![digit(n)]
    } else {
        decimal(n / 10).push(digit(n % 10))
    }
}

fn digit_text(n: u64) -> (text: &'static str)
    requires
        n < 10,
    ensures
        text@ == seq![digit(n as nat)],
{
    proof {
        reveal_strlit("0");
        reveal_strlit("1");
        reveal_strlit("2");
        reveal_strlit("3");
        reveal_strlit("4");
        reveal_strlit("5");
        reveal_strlit("6");
        reveal_strlit("7");
        reveal_strlit("8");
        reveal_strlit("9");
    }
    if n == 0 {
        "0"
    } else if n == 1 {
        "1"
    } else if n == 2 {
        "2"
    } else if n == 3 {
        "3"
    } else if n == 4 {
        "4"
    } else if n == 5 {
        "5"
    } else if n == 6 {
        "6"
    } else if n == 7 {
        "7"
    } else if n == 8 {
        "8"
    } else {
        "9"
    }
}

/// Writes a number in decimal notation.
pub fn decimal_text(n: u64) -> (text: String)
    ensures
        text@ == decimal(n as nat),
    decreases n,
{
    if n < 10 {
        digit_text(n).to_string()
    } else {
        let mut text = decimal_text(n / 10);
        text.append(digit_text(n % 10));
        assert(text@ == decimal(n as nat));
        text
    }
}

/// Two numbers with the same decimal notation are equal.
pub proof fn law_decimal_is_injective(a: nat, b: nat)
    requires
        decimal(a) == decimal(b),
    ensures
        a == b,
    decreases a,
{
    let x = decimal(a);
    let y = decimal(b);
    assert(x.last() == digit(a % 10) && y.last() == digit(b % 10));
    assert(a % 10 == b % 10);
    lemma_decimal_len(a);
    lemma_decimal_len(b);
    if a >= 10 {
        assert(x.drop_last() == decimal(a / 10));
        assert(b >= 10);
        assert(y.drop_last() == decimal(b / 10));
        law_decimal_is_injective(a / 10, b / 10);
    } else {
        assert(b < 10);
    }
}

proof fn lemma_decimal_len(n: nat)
    ensures
        decimal(n).len() >= 1,
        decimal(n).len() == 1 <==> n < 10,
    decreases n,
{
    if n >= 10 {
        lemma_decimal_len(n / 10);
    }
}

} // verus!
