//! A parsed JSON document, as the Obsidian configuration files are read.
use vstd::prelude::*;

verus! {

/// A JSON value. A number keeps its value when it is an integer that fits in
/// an `i64` (what the configuration readers look at) and `None` otherwise.
/// An object keeps its members in the order the parser lists them (`serde_json`
/// lists them sorted by key, each key once).
#[derive(Debug)]
pub enum JsonValue {
    Null,
    Bool(bool),
    Number(Option<i64>),
    String(String),
    Array(Vec<JsonValue>),
    Object(Vec<(String, JsonValue)>),
}

/// The value stored under `key` among `members`: the first member with that key.
pub open spec fn member_lookup(members: Seq<(String, JsonValue)>, key: Seq<char>) -> Option<JsonValue>
    decreases members.len(),
{
    if members.len() == 0 {
        None
    } else if members[0].0@ == key {
        Some(members[0].1)
    } else {
        member_lookup(members.drop_first(), key)
    }
}

/// `value[key]` when `value` is an object holding `key`, as `Value::get` gives it.
pub open spec fn json_get(value: JsonValue, key: Seq<char>) -> Option<JsonValue> {
    match value {
        JsonValue::Object(members) => member_lookup(members@, key),
        _ => None,
    }
}

/// The text of a JSON string, as `Value::as_str` gives it.
pub open spec fn json_as_str(value: Option<JsonValue>) -> Option<Seq<char>> {
    match value {
        Some(JsonValue::String(s)) => Some(s@),
        _ => None,
    }
}

/// The value of a JSON boolean, as `Value::as_bool` gives it.
pub open spec fn json_as_bool(value: Option<JsonValue>) -> Option<bool> {
    match value {
        Some(JsonValue::Bool(b)) => Some(b),
        _ => None,
    }
}

/// The value of a JSON integer that fits in an `i64`, as `Value::as_i64` gives it.
pub open spec fn json_as_i64(value: Option<JsonValue>) -> Option<i64> {
    match value {
        Some(JsonValue::Number(n)) => n,
        _ => None,
    }
}

/// The members of a JSON object, as `Value::as_object` gives them.
pub open spec fn json_as_object(value: Option<JsonValue>) -> Option<Seq<(String, JsonValue)>> {
    match value {
        Some(JsonValue::Object(m)) => Some(m@),
        _ => None,
    }
}

proof fn lemma_member_lookup_skip(members: Seq<(String, JsonValue)>, key: Seq<char>, i: int)
    requires
        0 <= i <= members.len(),
        forall|k: int| 0 <= k < i ==> (#[trigger] members[k]).0@ != key,
    ensures
        member_lookup(members, key) == member_lookup(members.skip(i), key),
    decreases i,
{
    if i > 0 {
        assert(members.drop_first().skip(i - 1) =~= members.skip(i));
        lemma_member_lookup_skip(members.drop_first(), key, i - 1);
    } else {
        assert(members.skip(0) =~= members);
    }
}

/// The value stored under `key` among `members`.
pub fn lookup_member<'a>(members: &'a Vec<(String, JsonValue)>, key: &str) -> (r: Option<&'a JsonValue>)
    ensures
        member_lookup(members@, key@) == match r {
            Some(v) => Some(*v),
            None => None::<JsonValue>,
        },
{
    let k = key.to_owned();
    let mut i: usize = 0;
    while i < members.len()
        invariant
            0 <= i <= members@.len(),
            k@ == key@,
            forall|j: int| 0 <= j < i ==> (#[trigger] members@[j]).0@ != key@,
        decreases members@.len() - i,
    {
        if members[i].0 == k {
            proof {
                lemma_member_lookup_skip(members@, key@, i as int);
            }
            return Some(&members[i].1);
        }
        i = i + 1;
    }
    proof {
        lemma_member_lookup_skip(members@, key@, i as int);
    }
    None
}

/// `value[key]` when `value` is an object holding `key`.
pub fn get<'a>(value: &'a JsonValue, key: &str) -> (r: Option<&'a JsonValue>)
    ensures
        json_get(*value, key@) == match r {
            Some(v) => Some(*v),
            None => None::<JsonValue>,
        },
{
    match value {
        JsonValue::Object(members) => lookup_member(members, key),
        _ => None,
    }
}

/// The text of `value[key]` when it is a JSON string.
pub fn get_str<'a>(value: &'a JsonValue, key: &str) -> (r: Option<&'a String>)
    ensures
        json_as_str(json_get(*value, key@)) == match r {
            Some(s) => Some(s@),
            None => None::<Seq<char>>,
        },
{
    match get(value, key) {
        Some(JsonValue::String(s)) => Some(s),
        _ => None,
    }
}

/// The value of `value[key]` when it is a JSON boolean.
pub fn get_bool(value: &JsonValue, key: &str) -> (r: Option<bool>)
    ensures
        r == json_as_bool(json_get(*value, key@)),
{
    match get(value, key) {
        Some(JsonValue::Bool(b)) => Some(*b),
        _ => None,
    }
}

/// The value of `value[key]` when it is a JSON integer that fits in an `i64`.
pub fn get_i64(value: &JsonValue, key: &str) -> (r: Option<i64>)
    ensures
        r == json_as_i64(json_get(*value, key@)),
{
    match get(value, key) {
        Some(JsonValue::Number(n)) => *n,
        _ => None,
    }
}

/// `serde_json`'s dynamically typed value, carried only inside the parse.
#[verifier::external_type_specification]
#[verifier::external_body]
pub struct ExSerdeJsonValue(serde_json::Value);

/// What parsing `text` as JSON with `serde_json::from_str` into a
/// `serde_json::Value` gives, as a `JsonValue` (member for member, numbers as
/// their `as_i64`), or the text of the parser's error.
pub uninterp spec fn json_text_value(text: Seq<char>) -> Result<JsonValue, Seq<char>>;

/// The library's copy of a `serde_json::Value`, member for member: objects
/// keep the order `serde_json` lists their members in, numbers become their
/// `as_i64`. Only a part of `parse_json_text`, whose contract speaks for both.
#[verifier::external_body]
fn json_of_value(v: serde_json::Value) -> JsonValue {
    match v {
        serde_json::Value::Null => JsonValue::Null,
        serde_json::Value::Bool(b) => JsonValue::Bool(b),
        serde_json::Value::Number(n) => JsonValue::Number(n.as_i64()),
        serde_json::Value::String(s) => JsonValue::String(s),
        serde_json::Value::Array(items) => JsonValue::Array(items.into_iter().map(json_of_value).collect()),
        serde_json::Value::Object(m) => JsonValue::Object(m.into_iter().map(|(k, x)| (k, json_of_value(x))).collect()),
    }
}

/// `serde_json::from_str` into a `serde_json::Value`, copied into a
/// `JsonValue`; on a parse error, the error's text. The result is named by
/// `json_text_value`: it depends on the text alone.
#[verifier::external_body]
pub(crate) fn parse_json_text(text: &str) -> (r: Result<JsonValue, String>)
    ensures
        match r {
            Ok(v) => json_text_value(text@) == Ok::<JsonValue, Seq<char>>(v),
            Err(m) => json_text_value(text@) == Err::<JsonValue, Seq<char>>(m@),
        },
{
    match serde_json::from_str::<serde_json::Value>(text) {
        Ok(v) => Ok(json_of_value(v)),
        Err(e) => Err(e.to_string()),
    }
}

} // verus!
