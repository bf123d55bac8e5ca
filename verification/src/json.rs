//! JSON values: reading, taking apart and building the messages of the service.

use serde_json::{Number, Value};
use vstd::prelude::*;
use vstd::utf8::encode_utf8;

verus! {

/// `serde_json`'s value.
#[verifier::external_type_specification]
#[verifier::external_body]
pub struct ExValue(Value);

/// `serde_json`'s number.
#[verifier::external_type_specification]
#[verifier::external_body]
pub struct ExNumber(Number);

/// What a JSON value holds. Integers are told apart by their sign; a number that is
/// no integer of 64 bits is kept as it is.
pub enum Json {
    Null,
    Bool(bool),
    Unsigned(u64),
    Negative(i64),
    Float(Number),
    Text(Seq<char>),
    Array(Seq<Json>),
    Object(Map<Seq<char>, Json>),
}

/// The contents of a value of `serde_json`.
pub uninterp spec fn json(value: Value) -> Json;

/// The contents of each value of a list.
pub open spec fn jsons(values: Seq<Value>) -> Seq<Json> {
    values.map_values(|v: Value| json(v))
}

/// What `serde_json` reads from a byte string, if it is JSON.
pub uninterp spec fn json_read(bytes: Seq<u8>) -> Option<Json>;

/// The text in which `serde_json` writes a value, as bytes.
pub uninterp spec fn json_written(value: Json) -> Seq<u8>;

/// The key with which `serde_json` marks a text that holds JSON: it reads an object
/// that starts with this key as the JSON in the text.
pub open spec fn raw_key() -> Seq<char> {
    "$serde_json::private::RawValue"@
}

pub proof fn lemma_raw_key()
    ensures
        raw_key().len() == 30,
{
    reveal_strlit("$serde_json::private::RawValue");
}

/// Whether a value holds no number but integers, has no object with the key that
/// `serde_json` keeps for itself, and is nested at most `depth` deep.
pub open spec fn is_plain(value: Json, depth: nat) -> bool
    decreases depth,
{
    match value {
        Json::Float(_) => false,
        Json::Negative(n) => n < 0,
        Json::Array(items) => depth > 0 && forall|i: int|
            0 <= i < items.len() ==> is_plain(#[trigger] items[i], (depth - 1) as nat),
        Json::Object(fields) => depth > 0 && !fields.contains_key(raw_key()) && forall|k: Seq<char>| #[trigger]
            fields.contains_key(k) ==> is_plain(fields[k], (depth - 1) as nat),
        _ => true,
    }
}

pub proof fn lemma_plain_deeper(value: Json, depth: nat, deeper: nat)
    requires
        depth <= deeper,
        is_plain(value, depth),
    ensures
        is_plain(value, deeper),
    decreases depth,
{
    match value {
        Json::Array(items) => {
            assert forall|i: int| 0 <= i < items.len() implies is_plain(#[trigger] items[i], (deeper - 1) as nat) by {
                lemma_plain_deeper(items[i], (depth - 1) as nat, (deeper - 1) as nat);
            }
        },
        Json::Object(fields) => {
            assert forall|k: Seq<char>| #[trigger] fields.contains_key(k) implies is_plain(
                fields[k],
                (deeper - 1) as nat,
            ) by {
                lemma_plain_deeper(fields[k], (depth - 1) as nat, (deeper - 1) as nat);
            }
        },
        _ => {},
    }
}

/// Calls `serde_json::from_slice`. Which value a byte string encodes depends on the
/// bytes alone; the failure is handed on in the words of `serde_json`, of which
/// nothing is claimed.
#[verifier::external_body]
pub(crate) fn read_json(bytes: &[u8]) -> (value: Result<Value, String>)
    ensures
        match value {
            Ok(v) => json_read(bytes@) == Some(json(v)),
            Err(_) => json_read(bytes@) is None,
        },
{
    serde_json::from_slice(bytes).map_err(|e| e.to_string())
}

/// Calls `serde_json::to_string`, which writes every value. The keys of an object
/// are written in their order as texts, so the result depends on the contents
/// alone. A value of integers, texts and the like, within the depth to which
/// `serde_json` reads and without the key that it keeps for itself, is read back as
/// it was.
#[verifier::external_body]
pub(crate) fn write_json(value: &Value) -> (text: Result<String, String>)
    ensures
        text is Ok,
        encode_utf8(text->Ok_0@) == json_written(json(*value)),
        is_plain(json(*value), 100) ==> json_read(encode_utf8(text->Ok_0@)) == Some(json(*value)),
{
    serde_json::to_string(value).map_err(|e| e.to_string())
}

/// The field of an object, if the value is an object and has it.
pub open spec fn field(value: Json, key: Seq<char>) -> Option<Json> {
    match value {
        Json::Object(fields) => if fields.contains_key(key) {
            Some(fields[key])
        } else {
            None
        },
        _ => None,
    }
}

/// Calls `get` of the value with a key.
#[verifier::external_body]
pub(crate) fn get<'a>(value: &'a Value, key: &str) -> (found: Option<&'a Value>)
    ensures
        match found {
            Some(v) => field(json(*value), key@) == Some(json(*v)),
            None => field(json(*value), key@) is None,
        },
{
    value.get(key)
}

/// Calls `as_str` of the value.
#[verifier::external_body]
pub(crate) fn as_text<'a>(value: &'a Value) -> (text: Option<&'a str>)
    ensures
        match text {
            Some(t) => json(*value) == Json::Text(t@),
            None => !(json(*value) is Text),
        },
{
    value.as_str()
}

/// Calls `as_u64` of the value.
#[verifier::external_body]
pub(crate) fn as_unsigned(value: &Value) -> (number: Option<u64>)
    ensures
        match number {
            Some(n) => json(*value) == Json::Unsigned(n),
            None => !(json(*value) is Unsigned),
        },
{
    value.as_u64()
}

/// Calls `as_bool` of the value.
#[verifier::external_body]
pub(crate) fn as_bool(value: &Value) -> (flag: Option<bool>)
    ensures
        match flag {
            Some(b) => json(*value) == Json::Bool(b),
            None => !(json(*value) is Bool),
        },
{
    value.as_bool()
}

/// Calls `is_null` of the value.
#[verifier::external_body]
pub(crate) fn is_null(value: &Value) -> (null: bool)
    ensures
        null == (json(*value) is Null),
{
    value.is_null()
}

/// Calls `as_array` of the value.
#[verifier::external_body]
pub(crate) fn as_items<'a>(value: &'a Value) -> (items: Option<&'a Vec<Value>>)
    ensures
        match items {
            Some(list) => json(*value) == Json::Array(jsons(list@)),
            None => !(json(*value) is Array),
        },
{
    value.as_array()
}

/// Calls `as_object` of the value and asks the object for its size.
#[verifier::external_body]
pub(crate) fn object_size(value: &Value) -> (size: Option<usize>)
    ensures
        match size {
            Some(n) => json(*value) is Object && json(*value)->Object_0.dom().finite() && json(*value)->Object_0.len() == n,
            None => !(json(*value) is Object),
        },
{
    value.as_object().map(|fields| fields.len())
}

/// Calls `clone` of the value.
#[verifier::external_body]
pub(crate) fn copy(value: &Value) -> (twin: Value)
    ensures
        json(twin) == json(*value),
{
    value.clone()
}

/// Makes `Value::Null`.
#[verifier::external_body]
pub(crate) fn null() -> (value: Value)
    ensures
        json(value) == Json::Null,
{
    Value::Null
}

/// Makes a `Value::String`.
#[verifier::external_body]
pub(crate) fn text(content: String) -> (value: Value)
    ensures
        json(value) == Json::Text(content@),
{
    Value::String(content)
}

/// Makes a `Value::Bool`.
#[verifier::external_body]
pub(crate) fn boolean(flag: bool) -> (value: Value)
    ensures
        json(value) == Json::Bool(flag),
{
    Value::Bool(flag)
}

/// Calls `Value::from` on an unsigned integer.
#[verifier::external_body]
pub(crate) fn unsigned(number: u64) -> (value: Value)
    ensures
        json(value) == Json::Unsigned(number),
{
    Value::from(number)
}

/// The value of a signed integer.
pub open spec fn signed_json(number: int) -> Json {
    if number < 0 {
        Json::Negative(number as i64)
    } else {
        Json::Unsigned(number as u64)
    }
}

/// Calls `Value::from` on a signed integer.
#[verifier::external_body]
pub(crate) fn signed(number: i32) -> (value: Value)
    ensures
        json(value) == signed_json(number as int),
{
    Value::from(number)
}

/// Makes a `Value::Array`.
#[verifier::external_body]
pub(crate) fn array(items: Vec<Value>) -> (value: Value)
    ensures
        json(value) == Json::Array(jsons(items@)),
{
    Value::Array(items)
}

/// The fields of a list of entries. The last entry with a key counts.
pub open spec fn fields(entries: Seq<(Seq<char>, Json)>) -> Map<Seq<char>, Json>
    decreases entries.len(),
{
    if entries.len() == 0 {
        Map::empty()
    } else {
        fields(entries.drop_last()).insert(entries.last().0, entries.last().1)
    }
}

/// Whether no key occurs twice.
pub open spec fn distinct_keys(entries: Seq<(Seq<char>, Json)>) -> bool {
    forall|i: int, j: int| 0 <= i < j < entries.len() ==> (#[trigger] entries[i]).0 != (#[trigger] entries[j]).0
}

/// An object whose keys are all distinct has each entry as a field, and no others.
pub proof fn lemma_fields(entries: Seq<(Seq<char>, Json)>)
    requires
        distinct_keys(entries),
    ensures
        forall|i: int|
            0 <= i < entries.len() ==> fields(entries).contains_key((#[trigger] entries[i]).0) && fields(
                entries,
            )[entries[i].0] == entries[i].1,
        forall|k: Seq<char>| #[trigger]
            fields(entries).contains_key(k) ==> exists|i: int| 0 <= i < entries.len() && (#[trigger] entries[i]).0 == k,
        fields(entries).dom().finite(),
        fields(entries).len() == entries.len(),
    decreases entries.len(),
{
    if entries.len() > 0 {
        let before = entries.drop_last();
        assert(distinct_keys(before)) by {
            assert forall|i: int, j: int| 0 <= i < j < before.len() implies (#[trigger] before[i]).0 != (
            #[trigger] before[j]).0 by {
                assert(before[i] == entries[i] && before[j] == entries[j]);
            }
        }
        lemma_fields(before);
        let last = entries.last();
        assert(!fields(before).contains_key(last.0)) by {
            if fields(before).contains_key(last.0) {
                let i = choose|i: int| 0 <= i < before.len() && (#[trigger] before[i]).0 == last.0;
                assert(entries[i].0 == entries[entries.len() - 1].0);
            }
        }
        assert forall|i: int| 0 <= i < entries.len() implies fields(entries).contains_key((#[trigger] entries[i]).0)
            && fields(entries)[entries[i].0] == entries[i].1 by {
            if i < before.len() {
                assert(before[i] == entries[i]);
                assert(entries[i].0 != entries[entries.len() - 1].0);
            }
        }
        assert forall|k: Seq<char>| #[trigger] fields(entries).contains_key(k) implies exists|i: int|
            0 <= i < entries.len() && (#[trigger] entries[i]).0 == k by {
            if k == last.0 {
                assert(entries[entries.len() - 1].0 == k);
            } else {
                let i = choose|i: int| 0 <= i < before.len() && (#[trigger] before[i]).0 == k;
                assert(entries[i].0 == k);
            }
        }
    }
}

/// An object of plain values is plain, if none of its keys is the reserved one.
pub proof fn lemma_fields_plain(entries: Seq<(Seq<char>, Json)>, depth: nat)
    requires
        forall|i: int|
            0 <= i < entries.len() ==> is_plain((#[trigger] entries[i]).1, depth) && entries[i].0 != raw_key(),
    ensures
        is_plain(Json::Object(fields(entries)), depth + 1),
    decreases entries.len(),
{
    if entries.len() > 0 {
        let before = entries.drop_last();
        assert forall|i: int| 0 <= i < before.len() implies is_plain((#[trigger] before[i]).1, depth) && before[i].0
            != raw_key() by {
            assert(before[i] == entries[i]);
        }
        lemma_fields_plain(before, depth);
        reveal_with_fuel(is_plain, 2);
        let last = entries[entries.len() - 1];
        assert(fields(entries) == fields(before).insert(last.0, last.1));
        assert forall|k: Seq<char>| #[trigger] fields(entries).contains_key(k) implies is_plain(fields(entries)[k], depth) by {
            if k == last.0 {
                assert(is_plain(last.1, depth));
            } else {
                assert(fields(before).contains_key(k));
                let object = Json::Object(fields(before));
                assert(is_plain(object, depth + 1) && object->Object_0.contains_key(k));
                assert(is_plain(object->Object_0[k], depth));
            }
        }
    }
}

/// The contents of a list of entries.
pub open spec fn entry_views(entries: Seq<(String, Value)>) -> Seq<(Seq<char>, Json)> {
    entries.map_values(|e: (String, Value)| (e.0@, json(e.1)))
}

/// Makes a `Value::Object` of the entries, collected into the map of `serde_json`.
#[verifier::external_body]
pub(crate) fn object(entries: Vec<(String, Value)>) -> (value: Value)
    ensures
        json(value) == Json::Object(fields(entry_views(entries@))),
{
    Value::Object(entries.into_iter().collect())
}

/// Adds an entry to a list.
pub(crate) fn put(entries: &mut Vec<(String, Value)>, key: &str, value: Value)
    ensures
        entry_views(final(entries)@) == entry_views(old(entries)@).push((key@, json(value))),
{
    let ghost before = entries@;
    entries.push((key.to_string(), value));
    assert(entry_views(entries@) =~= entry_views(before).push((key@, json(value))));
}

/// An empty list of entries.
pub(crate) fn entries() -> (list: Vec<(String, Value)>)
    ensures
        entry_views(list@) == Seq::<(Seq<char>, Json)>::empty(),
{
    let list: Vec<(String, Value)> = Vec::new();
    assert(entry_views(list@) =~= Seq::<(Seq<char>, Json)>::empty());
    list
}

/// The value of an optional text: null where there is none.
pub open spec fn optional_text_json(text: Option<Seq<char>>) -> Json {
    match text {
        Some(t) => Json::Text(t),
        None => Json::Null,
    }
}

/// Makes the value of an optional text.
pub(crate) fn optional_text_value(content: &Option<String>) -> (value: Value)
    ensures
        json(value) == optional_text_json(crate::text::optional_text(*content)),
{
    match content {
        Some(t) => text(t.clone()),
        None => null(),
    }
}

/// The value of a list of texts.
pub open spec fn texts_json(list: Seq<Seq<char>>) -> Json {
    Json::Array(list.map_values(|t: Seq<char>| Json::Text(t)))
}

/// Makes the value of a list of texts.
pub(crate) fn texts_value(list: &Vec<String>) -> (value: Value)
    ensures
        json(value) == texts_json(crate::text::texts(list@)),
{
    let ghost all = crate::text::texts(list@).map_values(|t: Seq<char>| Json::Text(t));
    let mut items: Vec<Value> = Vec::new();
    let mut i: usize = 0;
    while i < list.len()
        invariant
            i <= list.len(),
            all == crate::text::texts(list@).map_values(|t: Seq<char>| Json::Text(t)),
            jsons(items@) =~= all.take(i as int),
        decreases list.len() - i,
    {
        let ghost before = items@;
        items.push(text(list[i].clone()));
        assert(jsons(items@) =~= jsons(before).push(Json::Text(list@[i as int]@)));
        assert(all.take(i + 1) =~= all.take(i as int).push(all[i as int]));
        i += 1;
    }
    assert(all.take(i as int) =~= all);
    array(items)
}

/// The texts of an array of texts.
pub open spec fn json_texts(value: Json) -> Option<Seq<Seq<char>>> {
    match value {
        Json::Array(items) => if forall|i: int| 0 <= i < items.len() ==> #[trigger] items[i] is Text {
            Some(items.map_values(|j: Json| j->Text_0))
        } else {
            None
        },
        _ => None,
    }
}

/// Reads an array of texts.
pub(crate) fn read_texts(value: &Value) -> (list: Option<Vec<String>>)
    ensures
        match list {
            Some(list) => json_texts(json(*value)) == Some(crate::text::texts(list@)),
            None => json_texts(json(*value)) is None,
        },
{
    let items = match as_items(value) {
        Some(items) => items,
        None => {
            return None;
        },
    };
    let ghost all = jsons(items@);
    let mut list: Vec<String> = Vec::new();
    let mut i: usize = 0;
    while i < items.len()
        invariant
            i <= items.len(),
            all == jsons(items@),
            json(*value) == Json::Array(all),
            list@.len() == i,
            forall|k: int| 0 <= k < i ==> #[trigger] all[k] == Json::Text(list@[k]@),
        decreases items.len() - i,
    {
        assert(all[i as int] == json(items@[i as int]));
        match as_text(&items[i]) {
            Some(t) => {
                list.push(t.to_string());
            },
            None => {
                return None;
            },
        }
        i += 1;
    }
    assert(all.map_values(|j: Json| j->Text_0) =~= crate::text::texts(list@));
    Some(list)
}

/// The field of an object that must be a text.
pub open spec fn text_field(value: Json, key: Seq<char>) -> Option<Seq<char>> {
    match field(value, key) {
        Some(Json::Text(t)) => Some(t),
        _ => None,
    }
}

/// Reads a field that must be a text.
pub(crate) fn get_text<'a>(value: &'a Value, key: &str) -> (found: Option<&'a str>)
    ensures
        match found {
            Some(t) => text_field(json(*value), key@) == Some(t@),
            None => text_field(json(*value), key@) is None,
        },
{
    match get(value, key) {
        Some(v) => as_text(v),
        None => None,
    }
}

/// The field of an object that must be an unsigned integer of 64 bits.
pub open spec fn unsigned_field(value: Json, key: Seq<char>) -> Option<u64> {
    match field(value, key) {
        Some(Json::Unsigned(n)) => Some(n),
        _ => None,
    }
}

/// Reads a field that must be an unsigned integer of 64 bits.
pub(crate) fn get_unsigned(value: &Value, key: &str) -> (found: Option<u64>)
    ensures
        found == unsigned_field(json(*value), key@),
{
    match get(value, key) {
        Some(v) => as_unsigned(v),
        None => None,
    }
}

/// A member of a record: the field of an object, or the item of an array with one
/// item for each of its `count` members.
pub open spec fn member(value: Json, key: Seq<char>, index: int, count: nat) -> Option<Json> {
    match value {
        Json::Array(items) => if items.len() == count && 0 <= index < count {
            Some(items[index])
        } else {
            None
        },
        _ => field(value, key),
    }
}

/// Whether a value has the form of a record with `count` members.
pub open spec fn is_record(value: Json, count: nat) -> bool {
    match value {
        Json::Array(items) => items.len() == count,
        Json::Object(_) => true,
        _ => false,
    }
}

/// Whether a value has the form of a record with `count` members and no others.
pub open spec fn is_strict_record(value: Json, count: nat) -> bool {
    match value {
        Json::Array(items) => items.len() == count,
        Json::Object(fields) => fields.len() == count,
        _ => false,
    }
}

/// Reads a member of a record.
pub(crate) fn get_member<'a>(value: &'a Value, key: &str, index: usize, count: usize) -> (found: Option<&'a Value>)
    requires
        index < count,
    ensures
        match found {
            Some(v) => member(json(*value), key@, index as int, count as nat) == Some(json(*v)),
            None => member(json(*value), key@, index as int, count as nat) is None,
        },
{
    match as_items(value) {
        Some(items) => if items.len() == count {
            assert(jsons(items@)[index as int] == json(items@[index as int]));
            Some(&items[index])
        } else {
            None
        },
        None => get(value, key),
    }
}

/// Tests the form of a record.
pub(crate) fn has_members(value: &Value, count: usize) -> (form: bool)
    ensures
        form == is_record(json(*value), count as nat),
{
    match as_items(value) {
        Some(items) => items.len() == count,
        None => object_size(value).is_some(),
    }
}

/// Tests the form of a record without other members.
pub(crate) fn has_only_members(value: &Value, count: usize) -> (form: bool)
    ensures
        form == is_strict_record(json(*value), count as nat),
{
    match as_items(value) {
        Some(items) => items.len() == count,
        None => match object_size(value) {
            Some(size) => size == count,
            None => false,
        },
    }
}

/// The text that a value is, if it is one.
pub open spec fn json_text(value: Option<Json>) -> Option<Seq<char>> {
    match value {
        Some(Json::Text(t)) => Some(t),
        _ => None,
    }
}

/// The text that a value is, where nothing and null stand for none.
pub open spec fn json_optional_text(value: Option<Json>) -> Option<Option<Seq<char>>> {
    match value {
        None => Some(None),
        Some(Json::Null) => Some(None),
        Some(Json::Text(t)) => Some(Some(t)),
        _ => None,
    }
}

/// The unsigned integer that a value is, if it is one.
pub open spec fn json_unsigned(value: Option<Json>) -> Option<u64> {
    match value {
        Some(Json::Unsigned(n)) => Some(n),
        _ => None,
    }
}

/// The contents of an optional value.
pub open spec fn optional_json(value: Option<&Value>) -> Option<Json> {
    match value {
        Some(v) => Some(json(*v)),
        None => None,
    }
}

/// Reads a text.
pub(crate) fn read_text(value: Option<&Value>) -> (found: Option<String>)
    ensures
        crate::text::optional_text(found) == json_text(optional_json(value)),
{
    match value {
        Some(v) => match as_text(v) {
            Some(t) => Some(t.to_string()),
            None => None,
        },
        None => None,
    }
}

/// Reads a text, where nothing and null stand for none.
pub(crate) fn read_optional_text(value: Option<&Value>) -> (found: Option<Option<String>>)
    ensures
        match found {
            Some(t) => json_optional_text(optional_json(value)) == Some(crate::text::optional_text(t)),
            None => json_optional_text(optional_json(value)) is None,
        },
{
    match value {
        Some(v) => if is_null(v) {
            Some(None)
        } else {
            match as_text(v) {
                Some(t) => Some(Some(t.to_string())),
                None => None,
            }
        },
        None => Some(None),
    }
}

/// Reads an unsigned integer.
pub(crate) fn read_unsigned(value: Option<&Value>) -> (found: Option<u64>)
    ensures
        found == json_unsigned(optional_json(value)),
{
    match value {
        Some(v) => as_unsigned(v),
        None => None,
    }
}

} // verus!
