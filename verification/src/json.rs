//! JSON documents as plain values, the reading of JSON text (done by
//! `serde_json`), and the accessors the save-summary logic uses.
use vstd::prelude::*;
use crate::keyed::{find_key, lemma_key_index, lookup};

verus! {

/// A JSON value. Numbers are held by what the logic reads of them: the value
/// as a `u64` when the number is a non-negative integer that fits, else `None`.
/// Object members keep the order in which the parser hands them out; their
/// names are unique.
#[derive(Debug)]
pub enum JsonValue {
    Null,
    Bool(bool),
    Number(Option<u64>),
    String(String),
    Array(Vec<JsonValue>),
    Object(Vec<(String, JsonValue)>),
}

/// `serde_json::Value`, carried as an opaque value.
#[verifier::external_type_specification]
#[verifier::external_body]
pub struct ExSerdeJsonValue(serde_json::Value);

/// What `serde_json` makes of a JSON text: the document, or the text of its error.
pub uninterp spec fn json_document(text: Seq<char>) -> Result<JsonValue, Seq<char>>;

/// A `serde_json::Value` as a `JsonValue`, variant for variant: numbers by
/// `serde_json::Number::as_u64`, object members in the order the map yields them.
/// This is the conversion of `parse_json`'s result (recursive, hence a function
/// of its own); nothing else calls it and nothing is claimed of it.
#[verifier::external_body]
fn json_from_serde(v: serde_json::Value) -> JsonValue {
    match v {
        serde_json::Value::Null => JsonValue::Null,
        serde_json::Value::Bool(b) => JsonValue::Bool(b),
        serde_json::Value::Number(n) => JsonValue::Number(n.as_u64()),
        serde_json::Value::String(s) => JsonValue::String(s),
        serde_json::Value::Array(a) => JsonValue::Array(a.into_iter().map(json_from_serde).collect()),
        serde_json::Value::Object(m) => JsonValue::Object(m.into_iter().map(|(k, x)| (k, json_from_serde(x))).collect()),
    }
}

/// Reads JSON text with `serde_json::from_str` into a `serde_json::Value`; on
/// failure, the error's `Display` text. The outcome, a function of the text
/// alone, is named `json_document`.
#[verifier::external_body]
pub(crate) fn parse_json(text: &str) -> (r: Result<JsonValue, String>)
    ensures
        json_document(text@) == match r {
            Ok(v) => Result::<JsonValue, Seq<char>>::Ok(v),
            Err(e) => Result::<JsonValue, Seq<char>>::Err(e@),
        },
{
    serde_json::from_str::<serde_json::Value>(text).map(json_from_serde).map_err(|e| e.to_string())
}

// ---------------------------------------------------------------------------
// Accessors
// ---------------------------------------------------------------------------

/// The member `key` of an object; nothing for other values.
pub open spec fn json_get(v: JsonValue, key: Seq<char>) -> Option<JsonValue> {
    match v {
        JsonValue::Object(members) => lookup(members@, key),
        _ => None,
    }
}

/// The member `key` of a value that may be absent.
pub open spec fn json_get_in(v: Option<JsonValue>, key: Seq<char>) -> Option<JsonValue> {
    match v {
        Some(x) => json_get(x, key),
        None => None,
    }
}

/// The text of a string value.
pub open spec fn json_str(v: Option<JsonValue>) -> Option<Seq<char>> {
    match v {
        Some(JsonValue::String(s)) => Some(s@),
        _ => None,
    }
}

/// The value of a number that is a non-negative integer fitting in `u64`.
pub open spec fn json_u64(v: Option<JsonValue>) -> Option<u64> {
    match v {
        Some(JsonValue::Number(n)) => n,
        _ => None,
    }
}

/// The elements of an array value.
pub open spec fn json_array(v: Option<JsonValue>) -> Option<Seq<JsonValue>> {
    match v {
        Some(JsonValue::Array(a)) => Some(a@),
        _ => None,
    }
}

/// A reference that may be absent, as the value it refers to.
pub open spec fn deref_json(v: Option<&JsonValue>) -> Option<JsonValue> {
    match v {
        Some(x) => Some(*x),
        None => None,
    }
}

impl JsonValue {
    /// The member `key` of an object (`serde_json::Value::get` with a name).
    pub fn get(&self, key: &str) -> (r: Option<&JsonValue>)
        ensures
            deref_json(r) == json_get(*self, key@),
    {
        match self {
            JsonValue::Object(members) => {
                proof {
                    lemma_key_index(members@, key@, 0);
                }
                match find_key(members, key) {
                    Some(i) => Some(&members[i].1),
                    None => None,
                }
            },
            _ => None,
        }
    }

    /// The text of a string value.
    pub fn as_str(&self) -> (r: Option<&String>)
        ensures
            match r {
                Some(s) => json_str(Some(*self)) == Some(s@),
                None => json_str(Some(*self)) is None,
            },
    {
        match self {
            JsonValue::String(s) => Some(s),
            _ => None,
        }
    }

    /// The value of a number that is a non-negative integer fitting in `u64`.
    pub fn as_u64(&self) -> (r: Option<u64>)
        ensures
            r == json_u64(Some(*self)),
    {
        match self {
            JsonValue::Number(n) => *n,
            _ => None,
        }
    }

    /// The elements of an array value.
    pub fn as_array(&self) -> (r: Option<&Vec<JsonValue>>)
        ensures
            match r {
                Some(a) => json_array(Some(*self)) == Some(a@),
                None => json_array(Some(*self)) is None,
            },
    {
        match self {
            JsonValue::Array(a) => Some(a),
            _ => None,
        }
    }
}

/// The member `key` of a value that may be absent.
pub fn get_in<'a>(v: Option<&'a JsonValue>, key: &str) -> (r: Option<&'a JsonValue>)
    ensures
        deref_json(r) == json_get_in(deref_json(v), key@),
{
    match v {
        Some(x) => x.get(key),
        None => None,
    }
}

/// The text of a string value that may be absent.
pub fn str_in(v: Option<&JsonValue>) -> (r: Option<&String>)
    ensures
        match r {
            Some(s) => json_str(deref_json(v)) == Some(s@),
            None => json_str(deref_json(v)) is None,
        },
{
    match v {
        Some(x) => x.as_str(),
        None => None,
    }
}

/// The `u64` value of a number that may be absent.
pub fn u64_in(v: Option<&JsonValue>) -> (r: Option<u64>)
    ensures
        r == json_u64(deref_json(v)),
{
    match v {
        Some(x) => x.as_u64(),
        None => None,
    }
}

/// The elements of an array value that may be absent.
pub fn array_in(v: Option<&JsonValue>) -> (r: Option<&Vec<JsonValue>>)
    ensures
        match r {
            Some(a) => json_array(deref_json(v)) == Some(a@),
            None => json_array(deref_json(v)) is None,
        },
{
    match v {
        Some(x) => x.as_array(),
        None => None,
    }
}

} // verus!
