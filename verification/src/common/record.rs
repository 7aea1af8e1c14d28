//! A record: named fields holding JSON values, one field per name.
use serde_json::Value as JsonValue;
use vstd::prelude::*;

use crate::common::keyed::{distinct_keys, has_key, lemma_key_index, value_of};

verus! {

/// A record's fields as values: each name's characters and its value.
pub open spec fn fields_view(f: Seq<(String, JsonValue)>) -> Seq<(Seq<char>, JsonValue)> {
    f.map_values(|e: (String, JsonValue)| (e.0@, e.1))
}

/// The fields of a record hold each name once.
pub open spec fn well_formed_record(f: Seq<(String, JsonValue)>) -> bool {
    distinct_keys(fields_view(f))
}

/// The value of field `name`, if the record has it.
pub fn field_value<'a>(fields: &'a Vec<(String, JsonValue)>, name: &str) -> (r: Option<&'a JsonValue>)
    requires
        well_formed_record(fields@),
    ensures
        match r {
            Some(v) => value_of(fields_view(fields@), name@) == Some(*v),
            None => value_of(fields_view(fields@), name@) is None,
        },
{
    let ghost fv = fields_view(fields@);
    let k = name.to_owned();
    let mut i: usize = 0;
    while i < fields.len()
        invariant
            fv == fields_view(fields@),
            distinct_keys(fv),
            k@ == name@,
            0 <= i <= fields@.len(),
            forall|j: int| 0 <= j < i ==> fv[j].0 != k@,
        decreases fields@.len() - i,
    {
        if fields[i].0 == k {
            proof {
                assert(fv[i as int] == (fields@[i as int].0@, fields@[i as int].1));
                lemma_key_index(fv, i as int);
            }
            return Some(&fields[i].1);
        }
        i = i + 1;
    }
    proof {
        assert(!has_key(fv, name@)) by {
            if has_key(fv, name@) {
                let j = choose|j: int| 0 <= j < fv.len() && fv[j].0 == name@;
                assert(fv[j].0 != k@);
            }
        }
    }
    None
}

} // verus!
