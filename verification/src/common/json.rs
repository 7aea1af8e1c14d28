//! JSON values as records carry them. The library holds and hands back
//! such values without looking inside them.
use serde_json::Value as JsonValue;
use vstd::prelude::*;
use vstd::string::*;
use vstd::utf8::encode_utf8;

verus! {

#[verifier::external_type_specification]
#[verifier::external_body]
pub struct ExJsonValue(serde_json::Value);

/// `Clone::clone` on a JSON value: serde_json derives it, so the copy is
/// the same value.
#[verifier::external_body]
pub(crate) fn clone_value(v: &JsonValue) -> (r: JsonValue)
    ensures
        r == *v,
{
    v.clone()
}

/// The length in bytes of the compact JSON text of `v`, from
/// `serde_json::to_string`, which writes the same text as `Display`.
/// Serialising a `Value` into a byte vector does not fail: its map keys
/// are strings and its numbers finite, and writing to a `Vec` cannot
/// fail. A `String` never holds more than `isize::MAX` bytes.
#[verifier::external_body]
pub(crate) fn json_text_len(v: &JsonValue) -> (r: Option<usize>)
    ensures
        r == Some(json_text_bytes(*v).len() as usize),
        r.unwrap() <= isize::MAX,
        r.unwrap() == json_text_bytes(*v).len(),
{
    match serde_json::to_string(v) {
        Ok(s) => Some(s.len()),
        Err(_) => None,
    }
}

/// The compact JSON text serde_json writes for a value.
pub uninterp spec fn json_text_of(v: JsonValue) -> Seq<char>;

/// The compact JSON text of `v`, from serde_json's `Display`: a function
/// of the value alone, named rather than stated.
#[verifier::external_body]
pub(crate) fn json_text(v: &JsonValue) -> (r: String)
    ensures
        r@ == json_text_of(*v),
{
    v.to_string()
}

/// The bytes of a value's JSON text: what keys made of JSON values are
/// hashed and compared by.
pub open spec fn json_text_bytes(v: JsonValue) -> Seq<u8> {
    encode_utf8(json_text_of(v))
}

/// The bytes of `v`'s JSON text.
pub fn json_bytes(v: &JsonValue) -> (r: Vec<u8>)
    ensures
        r@ == json_text_bytes(*v),
{
    let t = json_text(v);
    t.as_str().as_bytes_vec()
}

/// Whether serde_json's `==` holds between two values.
pub uninterp spec fn json_equal(a: JsonValue, b: JsonValue) -> bool;

/// `==` on JSON values: serde_json derives `PartialEq` for `Value`, and
/// compares numbers by their representation, floats by `==`; its floats
/// are always finite, so a value equals itself. What it answers on other
/// pairs is named, not stated.
#[verifier::external_body]
pub(crate) fn json_eq(a: &JsonValue, b: &JsonValue) -> (r: bool)
    ensures
        r == json_equal(*a, *b),
        *a == *b ==> r,
{
    a == b
}

/// The JSON number serde_json makes of an `i64`.
pub uninterp spec fn json_number(n: i64) -> JsonValue;

/// `Value::from` on an `i64`: a JSON number.
#[verifier::external_body]
pub(crate) fn json_from_i64(n: i64) -> (v: JsonValue)
    ensures
        v == json_number(n),
{
    JsonValue::from(n)
}

/// The JSON string serde_json makes of a text.
pub uninterp spec fn json_string(s: Seq<char>) -> JsonValue;

/// `Value::String`: a JSON string holding `s`.
#[verifier::external_body]
pub(crate) fn json_from_string(s: String) -> (v: JsonValue)
    ensures
        v == json_string(s@),
{
    JsonValue::String(s)
}

/// `Value::Null`. Nothing is stated of it: a value's contents are not
/// visible here.
#[verifier::external_body]
pub(crate) fn json_null() -> (v: JsonValue) {
    JsonValue::Null
}

} // verus!
