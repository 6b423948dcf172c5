//! What a JSON document holds, and how it is read.

use serde_json::Value;
use vstd::prelude::*;

verus! {

/// A JSON number: an integer that is not negative, a negative integer, or a
/// float, given by the bits of its representation.
pub enum JsonNumber {
    PosInt(u64),
    NegInt(i64),
    Float(u64),
}

/// The contents of a JSON document.
pub enum JsonTree {
    Null,
    Bool(bool),
    Number(JsonNumber),
    Text(Seq<char>),
    Array(Seq<JsonTree>),
    Object(Map<Seq<char>, JsonTree>),
}

impl JsonTree {
    /// The member `key`, where this is an object that has one.
    pub open spec fn get(self, key: Seq<char>) -> Option<JsonTree> {
        match self {
            JsonTree::Object(m) => if m.contains_key(key) {
                Some(m[key])
            } else {
                None
            },
            _ => None,
        }
    }

    /// The text, where this is one.
    pub open spec fn as_str(self) -> Option<Seq<char>> {
        match self {
            JsonTree::Text(s) => Some(s),
            _ => None,
        }
    }

    /// The truth value, where this is one.
    pub open spec fn as_bool(self) -> Option<bool> {
        match self {
            JsonTree::Bool(b) => Some(b),
            _ => None,
        }
    }

    /// The items, where this is an array.
    pub open spec fn as_array(self) -> Option<Seq<JsonTree>> {
        match self {
            JsonTree::Array(a) => Some(a),
            _ => None,
        }
    }

    /// The number, where this is an integer that is kept unsigned.
    pub open spec fn as_u64(self) -> Option<u64> {
        match self {
            JsonTree::Number(JsonNumber::PosInt(n)) => Some(n),
            _ => None,
        }
    }

    /// The number, where this is an integer of the range of `i64`.
    pub open spec fn as_i64(self) -> Option<i64> {
        match self {
            JsonTree::Number(JsonNumber::PosInt(n)) => if n <= i64::MAX {
                Some(n as i64)
            } else {
                None
            },
            JsonTree::Number(JsonNumber::NegInt(n)) => Some(n),
            _ => None,
        }
    }

    /// The number, where this is an integer that is not negative.
    pub open spec fn as_count(self) -> Option<u64> {
        match self {
            JsonTree::Number(JsonNumber::PosInt(n)) => Some(n),
            JsonTree::Number(JsonNumber::NegInt(n)) => if n >= 0 {
                Some(n as u64)
            } else {
                None
            },
            _ => None,
        }
    }

    /// The text of the member `key`.
    pub open spec fn text(self, key: Seq<char>) -> Option<Seq<char>> {
        match self.get(key) {
            Some(v) => v.as_str(),
            None => None,
        }
    }

    /// Whether the member `key` is `true`.
    pub open spec fn flag(self, key: Seq<char>) -> bool {
        match self.get(key) {
            Some(v) => v.as_bool() == Some(true),
            None => false,
        }
    }

    /// The unsigned integer of the member `key`.
    pub open spec fn uint(self, key: Seq<char>) -> Option<u64> {
        match self.get(key) {
            Some(v) => v.as_u64(),
            None => None,
        }
    }

    /// The integer of the member `key`, if it is not negative.
    pub open spec fn count(self, key: Seq<char>) -> Option<u64> {
        match self.get(key) {
            Some(v) => v.as_count(),
            None => None,
        }
    }

    /// The items of the member `key`.
    pub open spec fn items(self, key: Seq<char>) -> Option<Seq<JsonTree>> {
        match self.get(key) {
            Some(v) => v.as_array(),
            None => None,
        }
    }
}

/// The JSON value of `serde_json`.
#[verifier::external_type_specification]
#[verifier::external_body]
pub struct ExValue(serde_json::Value);

/// What a `serde_json::Value` holds: its variant, and of an array or an object
/// what each of its members holds.
pub uninterp spec fn json(v: Value) -> JsonTree;

/// What each of `vs` holds.
pub open spec fn trees(vs: Seq<Value>) -> Seq<JsonTree> {
    Seq::new(vs.len(), |i: int| json(vs[i]))
}

/// What each of the values that `vs` refers to holds.
pub open spec fn trees_at(vs: Seq<&Value>) -> Seq<JsonTree> {
    Seq::new(vs.len(), |i: int| json(*vs[i]))
}

/// The text that a reference leads to, if there is one.
pub open spec fn viewed(s: Option<&str>) -> Option<Seq<char>> {
    match s {
        Some(t) => Some(t@),
        None => None,
    }
}

/// What the value holds that a reference leads to, if there is one.
pub open spec fn held(v: Option<&Value>) -> Option<JsonTree> {
    match v {
        Some(t) => Some(json(*t)),
        None => None,
    }
}

/// What the values hold that a reference leads to, if there is one.
pub open spec fn held_all(v: Option<&Vec<Value>>) -> Option<Seq<JsonTree>> {
    match v {
        Some(t) => Some(trees(t@)),
        None => None,
    }
}

/// `Value::as_str` gives the text of a JSON string, and nothing of any other
/// value.
pub assume_specification[ serde_json::Value::as_str ](v: &Value) -> (r: Option<&str>)
    ensures
        viewed(r) == json(*v).as_str(),
;

/// `Value::as_bool` gives the value of a JSON boolean, and nothing of any other
/// value.
pub assume_specification[ serde_json::Value::as_bool ](v: &Value) -> (r: Option<bool>)
    ensures
        r == json(*v).as_bool(),
;

/// `Value::as_u64` gives a number that is kept as an unsigned integer, and
/// nothing of any other value.
pub assume_specification[ serde_json::Value::as_u64 ](v: &Value) -> (r: Option<u64>)
    ensures
        r == json(*v).as_u64(),
;

/// `Value::as_i64` gives an integer that fits `i64`, and nothing of any other
/// value.
pub assume_specification[ serde_json::Value::as_i64 ](v: &Value) -> (r: Option<i64>)
    ensures
        r == json(*v).as_i64(),
;

/// `Value::as_array` gives the items of a JSON array, and nothing of any other
/// value.
pub assume_specification[ serde_json::Value::as_array ](v: &Value) -> (r: Option<&Vec<Value>>)
    ensures
        held_all(r) == json(*v).as_array(),
;

/// `Value::get` with a string gives the member of that name of a JSON object,
/// and nothing where there is no such member or no object.
#[verifier::external_body]
pub(crate) fn get<'a>(v: &'a Value, key: &str) -> (r: Option<&'a Value>)
    ensures
        held(r) == json(*v).get(key@),
{
    v.get(key)
}

/// The text of the member `key`.
pub(crate) fn text<'a>(v: &'a Value, key: &str) -> (r: Option<&'a str>)
    ensures
        viewed(r) == json(*v).text(key@),
{
    match get(v, key) {
        Some(m) => m.as_str(),
        None => None,
    }
}

/// Whether the member `key` is `true`.
pub(crate) fn flag(v: &Value, key: &str) -> (r: bool)
    ensures
        r == json(*v).flag(key@),
{
    match get(v, key) {
        Some(m) => match m.as_bool() {
            Some(b) => b,
            None => false,
        },
        None => false,
    }
}

/// The unsigned integer of the member `key`.
pub(crate) fn uint(v: &Value, key: &str) -> (r: Option<u64>)
    ensures
        r == json(*v).uint(key@),
{
    match get(v, key) {
        Some(m) => m.as_u64(),
        None => None,
    }
}

/// The integer of the member `key`, if it is not negative.
pub(crate) fn count(v: &Value, key: &str) -> (r: Option<u64>)
    ensures
        r == json(*v).count(key@),
{
    match get(v, key) {
        Some(m) => json_u64(m),
        None => None,
    }
}

/// The items of the member `key`.
pub(crate) fn items<'a>(v: &'a Value, key: &str) -> (r: Option<&'a Vec<Value>>)
    ensures
        held_all(r) == json(*v).items(key@),
{
    match get(v, key) {
        Some(m) => m.as_array(),
        None => None,
    }
}

/// The number that `v` is, if it is an integer and not negative.
pub fn json_u64(v: &Value) -> (r: Option<u64>)
    ensures
        r == json(*v).as_count(),
{
    match v.as_u64() {
        Some(n) => Some(n),
        None => match v.as_i64() {
            Some(i) => if i >= 0 {
                Some(i as u64)
            } else {
                None
            },
            None => None,
        },
    }
}

} // verus!
