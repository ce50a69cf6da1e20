//! A JSON value as the event decoder reads it, and the parse that produces one.
use vstd::prelude::*;

verus! {

#[verifier::external_type_specification]
#[verifier::external_body]
pub struct ExValue(serde_json::Value);

/// A parsed JSON value. An object keeps its members, each key once, in the order the parser
/// gave them.
#[derive(Debug, PartialEq)]
pub enum JsonValue {
    Null,
    Bool(bool),
    Number(String),
    Str(String),
    Array(Vec<JsonValue>),
    Object(Vec<(String, JsonValue)>),
}

/// What serde_json makes of a byte string: the value it denotes, or nothing if it is no JSON text.
pub uninterp spec fn json_of(bytes: Seq<u8>) -> Option<JsonValue>;

/// Relies on `serde_json::from_slice` into a `serde_json::Value`: the value that the bytes
/// denote, or an error if they are not one JSON text; it depends on the bytes alone.
#[verifier::external_body]
pub(crate) fn parse_json(bytes: &[u8]) -> (r: Option<JsonValue>)
    ensures
        r == json_of(bytes@),
{
    serde_json::from_slice::<serde_json::Value>(bytes).ok().map(from_outside)
}

/// Moves a `serde_json::Value` into the library's own type, variant for variant.
#[verifier::external_body]
fn from_outside(v: serde_json::Value) -> JsonValue {
    match v {
        serde_json::Value::Null => JsonValue::Null,
        serde_json::Value::Bool(b) => JsonValue::Bool(b),
        serde_json::Value::Number(n) => JsonValue::Number(n.to_string()),
        serde_json::Value::String(s) => JsonValue::Str(s),
        serde_json::Value::Array(a) => JsonValue::Array(a.into_iter().map(from_outside).collect()),
        serde_json::Value::Object(m) => JsonValue::Object(
            m.into_iter().map(|(k, x)| (k, from_outside(x))).collect(),
        ),
    }
}

/// The value of the first member of `fields` whose key is `key`.
pub open spec fn member(fields: Seq<(String, JsonValue)>, key: Seq<char>) -> Option<JsonValue>
    decreases fields.len(),
{
    if fields.len() == 0 {
        None
    } else if fields[0].0@ == key {
        Some(fields[0].1)
    } else {
        member(fields.drop_first(), key)
    }
}

/// The member `key` of `fields`, if it is a string.
pub open spec fn str_at(fields: Seq<(String, JsonValue)>, key: Seq<char>) -> Option<String> {
    match member(fields, key) {
        Some(JsonValue::Str(s)) => Some(s),
        _ => None,
    }
}

/// The member `key` of `fields`, if it is a boolean.
pub open spec fn bool_at(fields: Seq<(String, JsonValue)>, key: Seq<char>) -> Option<bool> {
    match member(fields, key) {
        Some(JsonValue::Bool(b)) => Some(b),
        _ => None,
    }
}

/// The position of the first member of `fields` whose key is `key`.
pub fn find_member(fields: &Vec<(String, JsonValue)>, key: &str) -> (r: Option<usize>)
    ensures
        match r {
            Some(i) => i < fields@.len() && member(fields@, key@) == Some(fields@[i as int].1),
            None => member(fields@, key@) == None::<JsonValue>,
        },
{
    let k: String = key.to_owned();
    let mut i: usize = 0;
    assert(fields@.subrange(0, fields@.len() as int) == fields@);
    while i < fields.len()
        invariant
            0 <= i <= fields@.len(),
            k@ == key@,
            member(fields@, key@) == member(fields@.subrange(i as int, fields@.len() as int), key@),
        decreases fields@.len() - i,
    {
        let ghost rest = fields@.subrange(i as int, fields@.len() as int);
        assert(rest.drop_first() == fields@.subrange(i + 1, fields@.len() as int));
        assert(rest[0] == fields@[i as int]);
        if fields[i].0.eq(&k) {
            return Some(i);
        }
        i = i + 1;
    }
    None
}

/// The member `key` of `fields`, if it is a string.
pub fn get_str(fields: &Vec<(String, JsonValue)>, key: &str) -> (r: Option<String>)
    ensures
        r == str_at(fields@, key@),
{
    match find_member(fields, key) {
        Some(i) => match &fields[i].1 {
            JsonValue::Str(s) => Some(s.clone()),
            _ => None,
        },
        None => None,
    }
}

/// The member `key` of `fields`, if it is a boolean.
pub fn get_bool(fields: &Vec<(String, JsonValue)>, key: &str) -> (r: Option<bool>)
    ensures
        r == bool_at(fields@, key@),
{
    match find_member(fields, key) {
        Some(i) => match &fields[i].1 {
            JsonValue::Bool(b) => Some(*b),
            _ => None,
        },
        None => None,
    }
}

} // verus!
