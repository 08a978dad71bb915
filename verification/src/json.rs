//! The dynamic values that parameters are bound to, and the few questions that
//! substitution asks of them.

use vstd::prelude::*;

verus! {

/// `serde_json::Value`, carried through as it is: a value is read only through
/// the accessors below.
#[verifier::external_type_specification]
#[verifier::external_body]
pub struct ExJsonValue(serde_json::Value);

/// What a dynamic value holds, as far as its accessors show it.
///
/// Floating-point numbers appear as their IEEE-754 bit patterns.
pub enum JsonContent {
    Null,
    Bool(bool),
    /// A number: as a signed 64-bit integer where it is one, and as a double.
    Number { integer: Option<i64>, double: Option<u64> },
    String(Seq<char>),
    Array(Seq<serde_json::Value>),
    Object,
}

/// The content of a dynamic value: which variant it is, and what the
/// accessor of that variant hands out. Nothing more is known of it.
pub uninterp spec fn json_content(v: serde_json::Value) -> JsonContent;

/// `serde_json::Value::is_null`: true for the null value and for no other.
#[verifier::external_body]
pub(crate) fn is_null(v: &serde_json::Value) -> (r: bool)
    ensures
        r == (json_content(*v) is Null),
{
    v.is_null()
}

/// `serde_json::Value::as_bool`: the boolean that a boolean value holds, and
/// nothing for any other value.
#[verifier::external_body]
pub(crate) fn as_bool(v: &serde_json::Value) -> (r: Option<bool>)
    ensures
        r == (match json_content(*v) {
            JsonContent::Bool(b) => Some(b),
            _ => None,
        }),
{
    v.as_bool()
}

/// `serde_json::Value::is_number`: true for a number and for no other value.
#[verifier::external_body]
pub(crate) fn is_number(v: &serde_json::Value) -> (r: bool)
    ensures
        r == (json_content(*v) is Number),
{
    v.is_number()
}

/// `serde_json::Value::as_i64`: the integer that a number holds where it is an
/// integer within the signed 64-bit range, and nothing otherwise or for a value
/// that is no number.
#[verifier::external_body]
pub(crate) fn as_i64(v: &serde_json::Value) -> (r: Option<i64>)
    ensures
        r == (match json_content(*v) {
            JsonContent::Number { integer, .. } => integer,
            _ => None,
        }),
{
    v.as_i64()
}

/// `serde_json::Value::as_f64`, the result handed out as its bit pattern: the
/// double that stands for a number, and nothing for a value that is no number.
#[verifier::external_body]
pub(crate) fn as_double_bits(v: &serde_json::Value) -> (r: Option<u64>)
    ensures
        r == (match json_content(*v) {
            JsonContent::Number { double, .. } => double,
            _ => None,
        }),
{
    v.as_f64().map(|d| d.to_bits())
}

/// `serde_json::Value::as_str`: the text of a string value, and nothing for any
/// other value.
#[verifier::external_body]
pub(crate) fn as_str(v: &serde_json::Value) -> (r: Option<&str>)
    ensures
        match json_content(*v) {
            JsonContent::String(s) => r is Some && r.unwrap()@ == s,
            _ => r is None,
        },
{
    v.as_str()
}

/// `serde_json::Value::as_array`: the elements of an array value, in order, and
/// nothing for any other value.
#[verifier::external_body]
pub(crate) fn as_array(v: &serde_json::Value) -> (r: Option<&Vec<serde_json::Value>>)
    ensures
        match json_content(*v) {
            JsonContent::Array(items) => r is Some && r.unwrap()@ == items,
            _ => r is None,
        },
{
    v.as_array()
}

} // verus!
