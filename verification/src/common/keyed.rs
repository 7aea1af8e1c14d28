//! Tables of rows keyed by a string, held in insertion order: the keys
//! are distinct, and a key's value is found by searching for its row.
use vstd::prelude::*;

verus! {

/// No key has two rows.
pub open spec fn distinct_keys<V>(t: Seq<(Seq<char>, V)>) -> bool {
    forall|i: int, j: int| 0 <= i < t.len() && 0 <= j < t.len() && i != j ==> #[trigger] t[i].0 != #[trigger] t[j].0
}

/// Some row has key `k`.
pub open spec fn has_key<V>(t: Seq<(Seq<char>, V)>, k: Seq<char>) -> bool {
    exists|i: int| 0 <= i < t.len() && t[i].0 == k
}

/// The row with key `k`.
pub open spec fn key_index<V>(t: Seq<(Seq<char>, V)>, k: Seq<char>) -> int {
    choose|i: int| 0 <= i < t.len() && t[i].0 == k
}

/// The value of key `k`, if it has a row.
pub open spec fn value_of<V>(t: Seq<(Seq<char>, V)>, k: Seq<char>) -> Option<V> {
    if has_key(t, k) {
        Some(t[key_index(t, k)].1)
    } else {
        None
    }
}

pub proof fn lemma_key_index<V>(t: Seq<(Seq<char>, V)>, i: int)
    requires
        distinct_keys(t),
        0 <= i < t.len(),
    ensures
        has_key(t, t[i].0),
        key_index(t, t[i].0) == i,
        value_of(t, t[i].0) == Some(t[i].1),
{
    assert(has_key(t, t[i].0));
    let k = key_index(t, t[i].0);
    if k != i {
        assert(t[k].0 == t[i].0);
    }
}

/// Replacing a row's value keeps the keys and changes that key's value
/// alone.
pub proof fn lemma_update_value<V>(t: Seq<(Seq<char>, V)>, i: int, v: V)
    requires
        distinct_keys(t),
        0 <= i < t.len(),
    ensures
        distinct_keys(t.update(i, (t[i].0, v))),
        forall|x: Seq<char>| #[trigger] value_of(t.update(i, (t[i].0, v)), x) == if x == t[i].0 {
            Some(v)
        } else {
            value_of(t, x)
        },
{
    let u = t.update(i, (t[i].0, v));
    assert(distinct_keys(u)) by {
        assert forall|a: int, b: int| 0 <= a < u.len() && 0 <= b < u.len() && a != b implies #[trigger] u[a].0 != #[trigger] u[b].0 by {
            assert(u[a].0 == t[a].0 && u[b].0 == t[b].0);
        }
    }
    lemma_key_index(u, i);
    assert forall|x: Seq<char>| #[trigger] value_of(u, x) == if x == t[i].0 {
        Some(v)
    } else {
        value_of(t, x)
    } by {
        if x != t[i].0 {
            if has_key(t, x) {
                let k = key_index(t, x);
                assert(u[k].0 == t[k].0);
                lemma_key_index(t, k);
                lemma_key_index(u, k);
            }
            if has_key(u, x) {
                let k = key_index(u, x);
                assert(u[k].0 == t[k].0);
            }
        }
    }
}

/// Adding a row for a new key gives that key its value and changes no
/// other.
pub proof fn lemma_push_row<V>(t: Seq<(Seq<char>, V)>, e: (Seq<char>, V))
    requires
        distinct_keys(t),
        !has_key(t, e.0),
    ensures
        distinct_keys(t.push(e)),
        forall|x: Seq<char>| #[trigger] value_of(t.push(e), x) == if x == e.0 {
            Some(e.1)
        } else {
            value_of(t, x)
        },
{
    let u = t.push(e);
    assert(distinct_keys(u)) by {
        assert forall|a: int, b: int| 0 <= a < u.len() && 0 <= b < u.len() && a != b implies #[trigger] u[a].0 != #[trigger] u[b].0 by {
            if a < t.len() && b < t.len() {
                assert(u[a] == t[a] && u[b] == t[b]);
            } else if a == t.len() {
                assert(u[b] == t[b]);
            } else {
                assert(u[a] == t[a]);
            }
        }
    }
    lemma_key_index(u, t.len() as int);
    assert forall|x: Seq<char>| #[trigger] value_of(u, x) == if x == e.0 {
        Some(e.1)
    } else {
        value_of(t, x)
    } by {
        if x != e.0 {
            if has_key(t, x) {
                let k = key_index(t, x);
                assert(u[k] == t[k]);
                lemma_key_index(t, k);
                lemma_key_index(u, k);
            }
            if has_key(u, x) {
                let k = key_index(u, x);
                assert(k < t.len());
                assert(u[k] == t[k]);
            }
        }
    }
}

/// Removing a row drops its key and changes no other.
pub proof fn lemma_remove_row<V>(t: Seq<(Seq<char>, V)>, i: int)
    requires
        distinct_keys(t),
        0 <= i < t.len(),
    ensures
        distinct_keys(t.remove(i)),
        forall|x: Seq<char>| #[trigger] value_of(t.remove(i), x) == if x == t[i].0 {
            None
        } else {
            value_of(t, x)
        },
{
    let u = t.remove(i);
    assert(distinct_keys(u)) by {
        assert forall|a: int, b: int| 0 <= a < u.len() && 0 <= b < u.len() && a != b implies #[trigger] u[a].0 != #[trigger] u[b].0 by {
            let oa = if a < i { a } else { a + 1 };
            let ob = if b < i { b } else { b + 1 };
            assert(u[a] == t[oa] && u[b] == t[ob]);
        }
    }
    assert forall|x: Seq<char>| #[trigger] value_of(u, x) == if x == t[i].0 {
        None
    } else {
        value_of(t, x)
    } by {
        if has_key(u, x) {
            let k = key_index(u, x);
            let ok = if k < i { k } else { k + 1 };
            assert(u[k] == t[ok]);
            lemma_key_index(u, k);
            lemma_key_index(t, ok);
        } else if x != t[i].0 && has_key(t, x) {
            let k = key_index(t, x);
            assert(k != i);
            let uk = if k < i { k } else { k - 1 };
            assert(u[uk] == t[k]);
        }
    }
}

} // verus!
