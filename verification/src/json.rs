//! JSON values as the relay reads and builds them.
//!
//! The values are those of `serde_json`. What one holds is told by [`json_view`].

use serde_json::Value;
use vstd::prelude::*;

verus! {

/// What a JSON value holds.
pub enum Json {
    /// `null`.
    Null,
    /// `true` or `false`.
    Bool(bool),
    /// A number.
    Number(Number),
    /// A string.
    Text(Seq<char>),
    /// An array.
    List(Seq<Json>),
    /// An object, by key.
    Object(Map<Seq<char>, Json>),
}

/// A JSON number.
pub enum Number {
    /// An integer that is not negative.
    Unsigned(u64),
    /// A negative integer.
    Negative(i64),
    /// Any other number, by the bits of its double-precision form.
    Fractional(u64),
}

/// A JSON value of `serde_json`.
#[verifier::external_type_specification]
#[verifier::external_body]
pub struct ExValue(Value);

/// What `v` holds.
pub uninterp spec fn json_view(v: Value) -> Json;

/// What the parser makes of `text`: the value that it stands for, or the message
/// of the error.
pub uninterp spec fn json_parse(text: Seq<char>) -> Result<Json, Seq<char>>;

/// The compact text of a JSON value.
pub uninterp spec fn json_text(v: Json) -> Seq<char>;

/// The member `key` of an object.
pub open spec fn member(v: Json, key: Seq<char>) -> Option<Json> {
    match v {
        Json::Object(m) => if m.contains_key(key) {
            Some(m[key])
        } else {
            None
        },
        _ => None,
    }
}

/// The member `key` of a value that may be missing.
pub open spec fn member_of(v: Option<Json>, key: Seq<char>) -> Option<Json> {
    match v {
        Some(j) => member(j, key),
        None => None,
    }
}

/// The integer that a number is, where it is one and not negative.
pub open spec fn unsigned(v: Option<Json>) -> Option<u64> {
    match v {
        Some(Json::Number(Number::Unsigned(n))) => Some(n),
        _ => None,
    }
}

/// The characters of a string.
pub open spec fn characters(v: Option<Json>) -> Option<Seq<char>> {
    match v {
        Some(Json::Text(s)) => Some(s),
        _ => None,
    }
}

/// The truth value that a boolean is.
pub open spec fn truth(v: Option<Json>) -> Option<bool> {
    match v {
        Some(Json::Bool(b)) => Some(b),
        _ => None,
    }
}

/// `serde_json::from_str` into a value: what comes back depends on the text alone.
#[verifier::external_body]
pub(crate) fn parse(text: &str) -> (r: Result<Value, String>)
    ensures
        match r {
            Ok(v) => json_parse(text@) == Ok::<Json, Seq<char>>(json_view(v)),
            Err(e) => json_parse(text@) == Err::<Json, Seq<char>>(e@),
        },
{
    serde_json::from_str::<Value>(text).map_err(|e| e.to_string())
}

/// `Value::get` by a key: the member of that key where the value is an object that
/// has it, and nothing else.
#[verifier::external_body]
pub(crate) fn get<'a>(v: &'a Value, key: &str) -> (r: Option<&'a Value>)
    ensures
        match r {
            Some(m) => member(json_view(*v), key@) == Some(json_view(*m)),
            None => member(json_view(*v), key@) is None,
        },
{
    v.get(key)
}

/// `Value::as_u64`: the integer, where the value is one that is not negative.
pub assume_specification[ Value::as_u64 ](v: &Value) -> (r: Option<u64>)
    ensures
        r == unsigned(Some(json_view(*v))),
;

/// `Value::as_str`: the characters, where the value is a string.
pub assume_specification[ Value::as_str ](v: &Value) -> (r: Option<&str>)
    ensures
        match r {
            Some(s) => characters(Some(json_view(*v))) == Some(s@),
            None => characters(Some(json_view(*v))) is None,
        },
;

/// `Value::as_bool`: the truth value, where the value is a boolean.
pub assume_specification[ Value::as_bool ](v: &Value) -> (r: Option<bool>)
    ensures
        r == truth(Some(json_view(*v))),
;

/// `Value::is_null`: whether the value is `null`.
pub assume_specification[ Value::is_null ](v: &Value) -> (r: bool)
    ensures
        r == (json_view(*v) == Json::Null),
;

/// `Value::to_string`: the compact text of what the value holds. Members of an
/// object come in the order of their keys, so the text depends on nothing else.
#[verifier::external_body]
pub(crate) fn render(v: &Value) -> (r: String)
    ensures
        r@ == json_text(json_view(*v)),
{
    v.to_string()
}

/// `serde_json::Map::remove`: the member `key` of an object, taken out of it; nothing
/// where the value is no object or has no such member.
#[verifier::external_body]
pub(crate) fn remove(v: Value, key: &str) -> (r: Option<Value>)
    ensures
        match r {
            Some(m) => member(json_view(v), key@) == Some(json_view(m)),
            None => member(json_view(v), key@) is None,
        },
{
    match v {
        Value::Object(mut members) => members.remove(key),
        _ => None,
    }
}

/// `Value::Null`.
#[verifier::external_body]
pub(crate) fn null() -> (r: Value)
    ensures
        json_view(r) == Json::Null,
{
    Value::Null
}

/// `Value::from` of a `u64`.
#[verifier::external_body]
pub(crate) fn number(n: u64) -> (r: Value)
    ensures
        json_view(r) == Json::Number(Number::Unsigned(n)),
{
    Value::from(n)
}

/// `Value::from` of a `&str`.
#[verifier::external_body]
pub(crate) fn string(s: &str) -> (r: Value)
    ensures
        json_view(r) == Json::Text(s@),
{
    Value::from(s)
}

/// Whether no two entries have one key.
pub open spec fn distinct_keys(entries: Seq<(String, Value)>) -> bool {
    forall|i: int, j: int|
        0 <= i < j < entries.len() ==> (#[trigger] entries[i]).0@ != (#[trigger] entries[j]).0@
}

/// The members that `entries` give an object.
pub open spec fn members(entries: Seq<(String, Value)>) -> Map<Seq<char>, Json>
    decreases entries.len(),
{
    if entries.len() == 0 {
        Map::empty()
    } else {
        members(entries.drop_last()).insert(entries.last().0@, json_view(entries.last().1))
    }
}

/// `serde_json::Map::from_iter`: an object with the given members. Which of two entries
/// with one key would stay is not documented, so there are none.
#[verifier::external_body]
pub(crate) fn object(entries: Vec<(String, Value)>) -> (r: Value)
    requires
        distinct_keys(entries@),
    ensures
        json_view(r) == Json::Object(members(entries@)),
{
    Value::Object(serde_json::Map::from_iter(entries))
}

/// The member `key` of `v`, where it is an integer that is not negative.
pub fn member_u64(v: &Value, key: &str) -> (r: Option<u64>)
    ensures
        r == unsigned(member(json_view(*v), key@)),
{
    match get(v, key) {
        Some(m) => m.as_u64(),
        None => None,
    }
}

/// The member `key` of `v`, where it is a string.
pub fn member_str<'a>(v: &'a Value, key: &str) -> (r: Option<&'a str>)
    ensures
        match r {
            Some(s) => characters(member(json_view(*v), key@)) == Some(s@),
            None => characters(member(json_view(*v), key@)) is None,
        },
{
    match get(v, key) {
        Some(m) => m.as_str(),
        None => None,
    }
}

/// The member `key` of `v`, where it is a boolean.
pub fn member_bool(v: &Value, key: &str) -> (r: Option<bool>)
    ensures
        r == truth(member(json_view(*v), key@)),
{
    match get(v, key) {
        Some(m) => m.as_bool(),
        None => None,
    }
}

/// A number, or `null` in place of a missing one.
pub fn optional_number(n: Option<u64>) -> (r: Value)
    ensures
        json_view(r) == number_or_null(n),
{
    match n {
        Some(n) => number(n),
        None => null(),
    }
}

/// The JSON value of a number that may be missing.
pub open spec fn number_or_null(n: Option<u64>) -> Json {
    match n {
        Some(n) => Json::Number(Number::Unsigned(n)),
        None => Json::Null,
    }
}

} // verus!
