//! Keys of the B-tree index. A key is a text, an integer, or another JSON
//! value held as its JSON text. They sort as JSON values do: texts first,
//! in text order; then integers, by value; then the other values, by
//! their JSON text (a text's JSON text opens with a quote, which sorts
//! before a digit or a minus sign, and those before the first character
//! of any other JSON text). Two keys are the same key when they are the
//! same text, the same integer, or the same other JSON text.
use vstd::prelude::*;
use vstd::string::*;

use crate::common::json::{json_from_string, json_string, json_text, json_text_of};
use crate::categories::text::{signed_decimal, signed_decimal_string, lemma_text_lt_asymmetric, lemma_text_lt_irreflexive, lemma_text_lt_total, lemma_text_lt_transitive, text_less, text_lt};

verus! {

/// A B-tree key.
#[derive(Debug, Clone, PartialEq, Eq)]
pub enum BKey {
    Text(String),
    Int(i64),
    Other(String),
}

/// The tier a key sorts in: texts, then integers, then other values.
pub open spec fn key_tier(k: BKey) -> int {
    match k {
        BKey::Text(_) => 0,
        BKey::Int(_) => 1,
        BKey::Other(_) => 2,
    }
}

/// `a` sorts strictly before `b`.
pub open spec fn key_lt(a: BKey, b: BKey) -> bool {
    match (a, b) {
        (BKey::Text(x), BKey::Text(y)) => text_lt(x@, y@),
        (BKey::Int(x), BKey::Int(y)) => x < y,
        (BKey::Other(x), BKey::Other(y)) => text_lt(x@, y@),
        _ => key_tier(a) < key_tier(b),
    }
}

/// `a` and `b` are the same key.
pub open spec fn same_key(a: BKey, b: BKey) -> bool {
    match (a, b) {
        (BKey::Text(x), BKey::Text(y)) => x@ == y@,
        (BKey::Int(x), BKey::Int(y)) => x == y,
        (BKey::Other(x), BKey::Other(y)) => x@ == y@,
        _ => false,
    }
}

/// `a` sorts before `b` or is the same key.
pub open spec fn key_le(a: BKey, b: BKey) -> bool {
    key_lt(a, b) || same_key(a, b)
}

/// No key sorts before itself, and a key is the same as itself.
pub broadcast proof fn lemma_key_reflexive(a: BKey)
    ensures
        #![trigger key_lt(a, a)]
        #![trigger same_key(a, a)]
        !key_lt(a, a),
        same_key(a, a),
{
    match a {
        BKey::Text(x) => lemma_text_lt_irreflexive(x@),
        BKey::Other(x) => lemma_text_lt_irreflexive(x@),
        _ => {},
    }
}

/// Of two keys, one sorts first or they are the same, and only one of
/// these holds.
pub broadcast proof fn lemma_key_total(a: BKey, b: BKey)
    ensures
        #![trigger key_lt(a, b)]
        #![trigger same_key(a, b)]
        key_lt(a, b) || same_key(a, b) || key_lt(b, a),
        key_lt(a, b) ==> !same_key(a, b) && !key_lt(b, a),
        same_key(a, b) ==> same_key(b, a) && !key_lt(a, b),
{
    match (a, b) {
        (BKey::Text(x), BKey::Text(y)) => {
            lemma_text_lt_total(x@, y@);
            lemma_text_lt_irreflexive(x@);
            if text_lt(x@, y@) {
                lemma_text_lt_asymmetric(x@, y@);
            }
        },
        (BKey::Other(x), BKey::Other(y)) => {
            lemma_text_lt_total(x@, y@);
            lemma_text_lt_irreflexive(x@);
            if text_lt(x@, y@) {
                lemma_text_lt_asymmetric(x@, y@);
            }
        },
        _ => {},
    }
}

/// Sorting before, and being the same key, chain.
pub broadcast proof fn lemma_key_transitive(a: BKey, b: BKey, c: BKey)
    ensures
        #![trigger key_le(a, b), key_le(b, c)]
        #![trigger key_lt(a, b), key_lt(b, c)]
        #![trigger key_lt(a, b), key_le(b, c)]
        #![trigger key_le(a, b), key_lt(b, c)]
        #![trigger same_key(a, b), same_key(b, c)]
        #![trigger key_lt(a, b), same_key(b, c)]
        #![trigger same_key(a, b), key_lt(b, c)]
        key_lt(a, b) && key_le(b, c) ==> key_lt(a, c),
        key_le(a, b) && key_lt(b, c) ==> key_lt(a, c),
        key_le(a, b) && key_le(b, c) ==> key_le(a, c),
        same_key(a, b) && same_key(b, c) ==> same_key(a, c),
{
    match (a, b, c) {
        (BKey::Text(x), BKey::Text(y), BKey::Text(z)) => {
            if text_lt(x@, y@) && text_lt(y@, z@) {
                lemma_text_lt_transitive(x@, y@, z@);
            }
        },
        (BKey::Other(x), BKey::Other(y), BKey::Other(z)) => {
            if text_lt(x@, y@) && text_lt(y@, z@) {
                lemma_text_lt_transitive(x@, y@, z@);
            }
        },
        _ => {},
    }
}

pub broadcast group group_key_order {
    lemma_key_reflexive,
    lemma_key_total,
    lemma_key_transitive,
}

/// Whether `a` sorts strictly before `b`.
pub fn key_less(a: &BKey, b: &BKey) -> (r: bool)
    ensures
        r == key_lt(*a, *b),
{
    match (a, b) {
        (BKey::Text(x), BKey::Text(y)) => text_less(x.as_str(), y.as_str()),
        (BKey::Int(x), BKey::Int(y)) => *x < *y,
        (BKey::Other(x), BKey::Other(y)) => text_less(x.as_str(), y.as_str()),
        (BKey::Text(_), _) => true,
        (BKey::Int(_), BKey::Other(_)) => true,
        _ => false,
    }
}

/// Whether `a` and `b` are the same key.
pub fn key_same(a: &BKey, b: &BKey) -> (r: bool)
    ensures
        r == same_key(*a, *b),
{
    match (a, b) {
        (BKey::Text(x), BKey::Text(y)) => x.eq(y),
        (BKey::Int(x), BKey::Int(y)) => *x == *y,
        (BKey::Other(x), BKey::Other(y)) => x.eq(y),
        _ => false,
    }
}

/// A copy of a key.
pub fn copy_key(k: &BKey) -> (r: BKey)
    ensures
        r == *k,
{
    match k {
        BKey::Text(x) => BKey::Text(x.clone()),
        BKey::Int(x) => BKey::Int(*x),
        BKey::Other(x) => BKey::Other(x.clone()),
    }
}

/// The JSON text of a key's value: a text as a JSON string, an integer in
/// decimal, another value as its JSON text.
pub open spec fn key_json_text(k: BKey) -> Seq<char> {
    match k {
        BKey::Text(s) => json_text_of(json_string(s@)),
        BKey::Int(n) => signed_decimal(n as int),
        BKey::Other(t) => t@,
    }
}

/// The JSON text of a key's value.
pub fn key_display(k: &BKey) -> (r: String)
    ensures
        r@ == key_json_text(*k),
{
    match k {
        BKey::Text(s) => json_text(&json_from_string(s.clone())),
        BKey::Int(n) => signed_decimal_string(*n),
        BKey::Other(t) => t.clone(),
    }
}

} // verus!
