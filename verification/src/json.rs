//! JSON values, as far as this library reads them.
//!
//! Parsing and the values it gives are `serde_json`'s. A value is opaque to
//! the proofs; what it holds is named by [`json_of`], a mathematical value
//! of type [`Json`]. The functions at the end of this file are the only
//! places where `serde_json` is called, and what is stated of each is taken
//! on trust from its documentation and source.

use vstd::prelude::*;

verus! {

/// `serde_json::Value`, taken as it is: nothing is known of what is inside
/// one but what the functions below say through `json_of`.
#[verifier::external_type_specification]
#[verifier::external_body]
pub struct ExValue(serde_json::Value);

/// `serde_json::Error`, taken as it is: this library carries such an error
/// and never looks inside.
#[verifier::external_type_specification]
#[verifier::external_body]
pub struct ExParseError(serde_json::Error);

/// A JSON number: an integer from zero to `u64::MAX`, a negative integer
/// down to `i64::MIN`, or any other number, held as the bits of its
/// double-precision form.
pub enum JsonNumber {
    Unsigned(u64),
    Negative(i64),
    Real(u64),
}

/// A JSON value. The members of an object are keyed by name: an object
/// holds a name once.
pub enum Json {
    Null,
    Bool(bool),
    Number(JsonNumber),
    String(Seq<char>),
    Array(Seq<Json>),
    Object(Map<Seq<char>, Json>),
}

impl Json {
    /// The member `key` of an object; `None` where `self` is no object or
    /// has no such member.
    pub open spec fn member(self, key: Seq<char>) -> Option<Json> {
        match self {
            Json::Object(members) if members.contains_key(key) => Some(members[key]),
            _ => None,
        }
    }

    /// The characters of a string; `None` for any other value.
    pub open spec fn as_text(self) -> Option<Seq<char>> {
        match self {
            Json::String(text) => Some(text),
            _ => None,
        }
    }

    /// The truth value of a boolean; `None` for any other value.
    pub open spec fn as_flag(self) -> Option<bool> {
        match self {
            Json::Bool(flag) => Some(flag),
            _ => None,
        }
    }

    /// The value of a number that is an integer from zero to `u64::MAX`;
    /// `None` for any other value.
    pub open spec fn as_count(self) -> Option<u64> {
        match self {
            Json::Number(JsonNumber::Unsigned(count)) => Some(count),
            _ => None,
        }
    }

    /// The elements of an array; `None` for any other value.
    pub open spec fn as_items(self) -> Option<Seq<Json>> {
        match self {
            Json::Array(items) => Some(items),
            _ => None,
        }
    }
}

/// What a `serde_json::Value` holds.
pub uninterp spec fn json_of(value: serde_json::Value) -> Json;

/// What `serde_json` makes of `text`: the value of a JSON text, or its
/// complaint where `text` is none.
pub uninterp spec fn json_parse(text: Seq<u8>) -> Result<Json, serde_json::Error>;

/// The error that `serde_json` makes of a message.
pub uninterp spec fn error_saying(message: Seq<char>) -> serde_json::Error;

/// `serde_json::from_slice` at the type `Value`. What it returns depends on
/// `text` alone: `json_parse` names it, a value by what it holds and an
/// error by itself.
#[verifier::external_body]
pub(crate) fn parse(text: &[u8]) -> (parsed: Result<serde_json::Value, serde_json::Error>)
    ensures
        match parsed {
            Ok(value) => json_parse(text@) == Ok::<Json, serde_json::Error>(json_of(value)),
            Err(error) => json_parse(text@) == Err::<Json, serde_json::Error>(error),
        },
{
    serde_json::from_slice::<serde_json::Value>(text)
}

/// `Value::get` with a string as index: a reference to the member `key` of
/// an object, `None` where `value` is no object or has no such member.
#[verifier::external_body]
pub(crate) fn member<'a>(value: &'a serde_json::Value, key: &str) -> (found: Option<
    &'a serde_json::Value,
>)
    ensures
        match found {
            Some(inner) => json_of(*value).member(key@) == Some(json_of(*inner)),
            None => json_of(*value).member(key@).is_none(),
        },
{
    value.get(key)
}

/// `Value::as_str`: the characters of a string, `None` for any other value.
#[verifier::external_body]
pub(crate) fn as_str<'a>(value: &'a serde_json::Value) -> (text: Option<&'a str>)
    ensures
        match text {
            Some(chars) => json_of(*value).as_text() == Some(chars@),
            None => json_of(*value).as_text().is_none(),
        },
{
    value.as_str()
}

/// `Value::as_bool`: the truth value of a boolean, `None` for any other
/// value.
#[verifier::external_body]
pub(crate) fn as_bool(value: &serde_json::Value) -> (flag: Option<bool>)
    ensures
        flag == json_of(*value).as_flag(),
{
    value.as_bool()
}

/// `Value::as_u64`: the value of a number that is an integer from zero to
/// `u64::MAX`, `None` for any other number and any other value.
#[verifier::external_body]
pub(crate) fn as_u64(value: &serde_json::Value) -> (count: Option<u64>)
    ensures
        count == json_of(*value).as_count(),
{
    value.as_u64()
}

/// `Value::as_array`: the vector that an array holds, `None` for any other
/// value. The vector has the array's elements, in order.
#[verifier::external_body]
pub(crate) fn as_array<'a>(value: &'a serde_json::Value) -> (found: Option<
    &'a Vec<serde_json::Value>,
>)
    ensures
        match found {
            Some(items) => json_of(*value).as_items() == Some(
                items@.map_values(|item: serde_json::Value| json_of(item)),
            ),
            None => json_of(*value).as_items().is_none(),
        },
{
    value.as_array()
}

/// `Value::is_null`: whether the value is `null`.
#[verifier::external_body]
pub(crate) fn is_null(value: &serde_json::Value) -> (null: bool)
    ensures
        null == (json_of(*value) is Null),
{
    value.is_null()
}

/// `Value::clone`: a value that holds what `value` holds.
#[verifier::external_body]
pub(crate) fn duplicate(value: &serde_json::Value) -> (copy: serde_json::Value)
    ensures
        json_of(copy) == json_of(*value),
{
    value.clone()
}

/// `serde::de::Error::custom` at `serde_json::Error`: the error that
/// `serde_json` makes of `message`, which `error_saying` names.
#[verifier::external_body]
pub(crate) fn custom_error(message: &str) -> (error: serde_json::Error)
    ensures
        error == error_saying(message@),
{
    serde::de::Error::custom(message)
}

} // verus!
