use serde_json::Value;
use vstd::prelude::*;

verus! {

/// `serde_json::Value`, which the library carries and reads through the
/// functions below.
#[verifier::external_type_specification]
#[verifier::external_body]
pub struct ExValue(serde_json::Value);

/// A JSON document as a mathematical value. A number is given by its two
/// readings: as an unsigned integer, where it is one that fits 64 bits, and
/// as a 64-bit floating-point number, by its IEEE 754 bit pattern.
pub enum Json {
    Null,
    Bool(bool),
    Number { unsigned: Option<u64>, float_bits: Option<u64> },
    Text(Seq<char>),
    Array(Seq<Json>),
    Object(Map<Seq<char>, Json>),
}

impl Json {
    /// The member `key` of an object; nothing for any other value.
    pub open spec fn member(self, key: Seq<char>) -> Option<Json> {
        match self {
            Json::Object(members) => if members.contains_key(key) {
                Some(members[key])
            } else {
                None
            },
            _ => None,
        }
    }

    /// The characters of a text.
    pub open spec fn text(self) -> Option<Seq<char>> {
        match self {
            Json::Text(s) => Some(s),
            _ => None,
        }
    }

    /// A number read as an unsigned integer.
    pub open spec fn unsigned(self) -> Option<u64> {
        match self {
            Json::Number { unsigned, float_bits } => unsigned,
            _ => None,
        }
    }

    /// A number read as a floating-point number, by its bits.
    pub open spec fn float_bits(self) -> Option<u64> {
        match self {
            Json::Number { unsigned, float_bits } => float_bits,
            _ => None,
        }
    }

    /// The items of an array.
    pub open spec fn items(self) -> Option<Seq<Json>> {
        match self {
            Json::Array(items) => Some(items),
            _ => None,
        }
    }
}

/// What a `serde_json::Value` holds.
pub uninterp spec fn document(value: Value) -> Json;

/// What each of a list of values holds.
pub open spec fn documents(values: Seq<Value>) -> Seq<Json> {
    values.map_values(|value: Value| document(value))
}

/// `Value::get` with a string: the member of that name where the value is
/// an object that has one, and `None` for an object without it and for
/// every value that is no object.
#[verifier::external_body]
pub(crate) fn value_get<'a>(value: &'a Value, key: &str) -> (found: Option<&'a Value>)
    ensures
        match found {
            Some(member) => document(*value).member(key@) == Some(document(*member)),
            None => document(*value).member(key@) is None,
        },
{
    value.get(key)
}

/// `Value::as_str`: the text of a string, and `None` for every other value.
#[verifier::external_body]
pub(crate) fn value_as_str<'a>(value: &'a Value) -> (text: Option<&'a str>)
    ensures
        match text {
            Some(s) => document(*value).text() == Some(s@),
            None => document(*value).text() is None,
        },
{
    value.as_str()
}

/// `Value::as_u64`: a number that is an integer from zero up to the largest
/// of 64 bits, and `None` for every other number and every other value.
#[verifier::external_body]
pub(crate) fn value_as_u64(value: &Value) -> (number: Option<u64>)
    ensures
        number == document(*value).unsigned(),
{
    value.as_u64()
}

/// `Value::as_f64`: a number as a 64-bit floating-point number, handed on
/// as its bit pattern, and `None` for every value that is no number.
#[verifier::external_body]
pub(crate) fn value_as_float_bits(value: &Value) -> (bits: Option<u64>)
    ensures
        bits == document(*value).float_bits(),
{
    value.as_f64().map(|number| number.to_bits())
}

/// `Value::as_array`: the items of an array, in order, and `None` for
/// every other value.
#[verifier::external_body]
pub(crate) fn value_as_array<'a>(value: &'a Value) -> (items: Option<&'a Vec<Value>>)
    ensures
        match items {
            Some(list) => document(*value).items() == Some(documents(list@)),
            None => document(*value).items() is None,
        },
{
    value.as_array()
}

} // verus!
