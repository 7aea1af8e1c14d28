//! Row Lock Block
//!
//! Strict two-phase locking: a transaction takes shared or exclusive locks
//! on named resources and releases all of them when it commits or aborts.
//! Before a transaction waits on a lock it is checked against the wait-for
//! graph for a deadlock.
use serde_json::Value as JsonValue;
use std::collections::HashMap;
use std::collections::HashSet;
use vstd::prelude::*;
use vstd::string::*;
use vstd::set_lib::{lemma_map_size, lemma_set_disjoint_lens};

use crate::categories::text::{decimal, decimal_string};
use crate::common::block::{Alternative, BlockCategory, BlockDocumentation, BlockMetadata, Complexity, Reference, ReferenceType};
use crate::common::json::{json_text, json_text_of};
use crate::common::metrics::{AggregationType, MetricDefinition, MetricType};
use crate::common::port::{Port, PortDirection};

verus! {

broadcast use {vstd::std_specs::hash::group_hash_axioms, vstd::seq_lib::group_filter_ensures};

// ---------------------------------------------------------------------------
// Wait-for graphs
// ---------------------------------------------------------------------------

/// `a` waits for `b`.
pub open spec fn waits_for(g: Map<u64, Seq<u64>>, a: u64, b: u64) -> bool {
    g.contains_key(a) && g[a].contains(b)
}

/// `p` is a nonempty chain of wait-for edges.
pub open spec fn is_path(g: Map<u64, Seq<u64>>, p: Seq<u64>) -> bool {
    &&& p.len() >= 1
    &&& forall|i: int| 0 <= i < p.len() - 1 ==> waits_for(g, #[trigger] p[i], p[i + 1])
}

/// `b` can be reached from `a` in zero or more wait-for steps.
pub open spec fn reaches(g: Map<u64, Seq<u64>>, a: u64, b: u64) -> bool {
    exists|p: Seq<u64>| is_path(g, p) && p[0] == a && p.last() == b
}

/// `t` lies on a cycle of the wait-for graph: a chain of one or more
/// edges leads from `t` back to `t`.
pub open spec fn on_cycle(g: Map<u64, Seq<u64>>, t: u64) -> bool {
    exists|p: Seq<u64>| is_path(g, p) && p.len() >= 2 && p[0] == t && p.last() == t
}

proof fn lemma_path_extend(g: Map<u64, Seq<u64>>, p: Seq<u64>, w: u64)
    requires
        is_path(g, p),
        waits_for(g, p.last(), w),
    ensures
        is_path(g, p.push(w)),
        p.push(w)[0] == p[0],
        p.push(w).last() == w,
{
    assert forall|i: int| 0 <= i < p.push(w).len() - 1 implies waits_for(
        g,
        #[trigger] p.push(w)[i],
        p.push(w)[i + 1],
    ) by {
        if i < p.len() - 1 {
            assert(p.push(w)[i] == p[i]);
            assert(p.push(w)[i + 1] == p[i + 1]);
        } else {
            assert(p.push(w)[i] == p.last());
        }
    }
}

/// Every node on a path that starts in a set closed under wait-for edges
/// is in the set.
proof fn lemma_closed_path(g: Map<u64, Seq<u64>>, s: Set<u64>, p: Seq<u64>, k: int)
    requires
        is_path(g, p),
        s.contains(p[0]),
        forall|v: u64, w: u64| s.contains(v) && #[trigger] waits_for(g, v, w) ==> s.contains(w),
        0 <= k < p.len(),
    ensures
        s.contains(p[k]),
    decreases k,
{
    if k > 0 {
        lemma_closed_path(g, s, p, k - 1);
        assert(waits_for(g, p[k - 1], p[k]));
    }
}

/// The wait-for graph held in a map from each transaction to the
/// transactions it waits for.
pub open spec fn graph_of(m: Map<u64, Vec<u64>>) -> Map<u64, Seq<u64>> {
    m.map_values(|v: Vec<u64>| v@)
}

/// Depth-first search from `start` along wait-for edges: true exactly when
/// the search comes back to `start`, that is when `start` is on a cycle.
fn has_cycle_in(wait_for: &HashMap<u64, Vec<u64>>, start_txn: u64) -> (r: bool)
    ensures
        r == on_cycle(graph_of(wait_for@), start_txn),
{
    let ghost g = graph_of(wait_for@);
    let mut visited: HashSet<u64> = HashSet::new();
    let mut stack: Vec<u64> = Vec::new();
    stack.push(start_txn);
    proof {
        let p0 = seq![start_txn];
        assert(is_path(g, p0) && p0[0] == start_txn && p0.last() == start_txn);
        assert(reaches(g, start_txn, start_txn));
        assert(g.dom() =~= wait_for@.dom());
    }
    while stack.len() > 0
        invariant
            g == graph_of(wait_for@),
            g.dom().finite(),
            visited@.finite(),
            forall|v: u64| #[trigger] visited@.contains(v) ==> reaches(g, start_txn, v),
            forall|i: int| 0 <= i < stack@.len() ==> reaches(g, start_txn, #[trigger] stack@[i]),
            visited@.contains(start_txn) || stack@.contains(start_txn),
            forall|v: u64, w: u64|
                #[trigger] visited@.contains(v) && #[trigger] waits_for(g, v, w) ==> w != start_txn && (
                visited@.contains(w) || stack@.contains(w)),
        decreases g.dom().difference(visited@).len(), stack@.len(),
    {
        let ghost stack0 = stack@;
        let ghost visited0 = visited@;
        let txn = stack.pop().unwrap();
        proof {
            assert(stack0 == stack@.push(txn));
            assert(reaches(g, start_txn, stack0[stack0.len() - 1]));
            assert forall|w: u64| stack0.contains(w) implies stack@.contains(w) || w == txn by {
                let i = choose|i: int| 0 <= i < stack0.len() && stack0[i] == w;
                if i < stack0.len() - 1 {
                    assert(stack@[i] == w);
                }
            }
        }
        if !visited.insert(txn) {
            proof {
                assert(visited@ =~= visited0);
            }
            continue;
        }
        proof {
            if !g.dom().contains(txn) {
                assert(g.dom().difference(visited@) =~= g.dom().difference(visited0));
            } else {
                assert(g.dom().difference(visited@) =~= g.dom().difference(visited0).remove(txn));
            }
        }
        match wait_for.get(&txn) {
            Some(waitees) => {
                let ghost pt = choose|p: Seq<u64>| is_path(g, p) && p[0] == start_txn && p.last() == txn;
                let mut j: usize = 0;
                while j < waitees.len()
                    invariant
                        g == graph_of(wait_for@),
                        g.dom().finite(),
                        wait_for@.contains_key(txn),
                        wait_for@[txn] == *waitees,
                        is_path(g, pt),
                        pt[0] == start_txn,
                        pt.last() == txn,
                        visited@.finite(),
                        visited@.contains(txn),
                        visited@ == visited0.insert(txn),
                        0 <= j <= waitees@.len(),
                        stack@.len() >= stack0.len() - 1,
                        forall|v: u64| #[trigger] visited@.contains(v) ==> reaches(g, start_txn, v),
                        forall|i: int| 0 <= i < stack@.len() ==> reaches(g, start_txn, #[trigger] stack@[i]),
                        visited@.contains(start_txn) || stack@.contains(start_txn),
                        forall|v: u64, w: u64|
                            #[trigger] visited@.contains(v) && v != txn && #[trigger] waits_for(g, v, w)
                                ==> w != start_txn && (visited@.contains(w) || stack@.contains(w)),
                        forall|k: int|
                            0 <= k < j ==> #[trigger] waitees@[k] != start_txn && (visited@.contains(
                                waitees@[k],
                            ) || stack@.contains(waitees@[k])),
                    decreases waitees@.len() - j,
                {
                    let w = waitees[j];
                    proof {
                        assert(waits_for(g, txn, w)) by {
                            assert(g[txn] == waitees@);
                            assert(waitees@[j as int] == w);
                        }
                        lemma_path_extend(g, pt, w);
                    }
                    if w == start_txn {
                        proof {
                            assert(is_path(g, pt.push(w)) && pt.push(w).len() >= 2 && pt.push(w)[0]
                                == start_txn && pt.push(w).last() == start_txn);
                        }
                        return true;
                    }
                    if !visited.contains(&w) {
                        let ghost before = stack@;
                        stack.push(w);
                        proof {
                            assert(reaches(g, start_txn, w));
                            assert forall|x: u64| before.contains(x) implies stack@.contains(x) by {
                                let i = choose|i: int| 0 <= i < before.len() && before[i] == x;
                                assert(stack@[i] == x);
                            }
                            assert(stack@[stack@.len() - 1] == w);
                        }
                    }
                    j = j + 1;
                }
                proof {
                    assert forall|v: u64, w: u64|
                        #[trigger] visited@.contains(v) && #[trigger] waits_for(g, v, w) implies w
                        != start_txn && (visited@.contains(w) || stack@.contains(w)) by {
                        if v == txn {
                            let k = choose|k: int| 0 <= k < g[txn].len() && g[txn][k] == w;
                            assert(waitees@[k] == w);
                        }
                    }
                }
            },
            None => {},
        }
    }
    proof {
        if on_cycle(g, start_txn) {
            let p = choose|p: Seq<u64>| is_path(g, p) && p.len() >= 2 && p[0] == start_txn && p.last() == start_txn;
            assert(!stack@.contains(start_txn));
            lemma_closed_path(g, visited@, p, p.len() - 2);
            assert(waits_for(g, p[p.len() - 2], p[p.len() - 1]));
        }
    }
    false
}

// ---------------------------------------------------------------------------
// Lock table
// ---------------------------------------------------------------------------

/// The two lock modes: any number of shared holders, or one exclusive.
#[derive(Debug, Clone, Copy, PartialEq, Eq, Structural)]
pub enum LockMode {
    Shared,
    Exclusive,
}

/// The outcome of a lock request.
#[derive(Debug, Clone, Copy, PartialEq, Eq, Structural)]
pub enum LockResult {
    /// The lock was free or compatible and is held at once.
    Granted,
    /// The request conflicted; the requester waited and now holds the lock.
    Waited,
    /// Waiting would have closed a cycle in the wait-for graph.
    Deadlock,
}

/// The lock on one resource: its mode and the transactions holding it.
struct LockEntry {
    resource: String,
    mode: LockMode,
    holders: Vec<u64>,
}

/// One lock table row as a value: resource, mode, holders.
pub type LockRow = (Seq<char>, LockMode, Seq<u64>);

/// No resource has two rows.
pub open spec fn distinct_resources(t: Seq<LockRow>) -> bool {
    forall|i: int, j: int| 0 <= i < t.len() && 0 <= j < t.len() && i != j ==> #[trigger] t[i].0 != #[trigger] t[j].0
}

/// Some row locks resource `r`.
pub open spec fn has_row(t: Seq<LockRow>, r: Seq<char>) -> bool {
    exists|i: int| 0 <= i < t.len() && t[i].0 == r
}

/// The row that locks resource `r`.
pub open spec fn row_index(t: Seq<LockRow>, r: Seq<char>) -> int {
    choose|i: int| 0 <= i < t.len() && t[i].0 == r
}

/// The lock on `r`: its mode and the set of holders, or None when `r` is
/// not locked.
pub open spec fn lock_state(t: Seq<LockRow>, r: Seq<char>) -> Option<(LockMode, Set<u64>)> {
    if has_row(t, r) {
        let i = row_index(t, r);
        Some((t[i].1, t[i].2.to_set()))
    } else {
        None
    }
}

/// A lock after `txn` let go of it: gone if `txn` was its last holder.
pub open spec fn released(s: Option<(LockMode, Set<u64>)>, txn: u64) -> Option<(LockMode, Set<u64>)> {
    match s {
        Some((m, hs)) => if hs.remove(txn).len() == 0 {
            None
        } else {
            Some((m, hs.remove(txn)))
        },
        None => None,
    }
}

/// The total number of (resource, holder) pairs.
pub open spec fn holder_count(t: Seq<LockRow>) -> nat
    decreases t.len(),
{
    if t.len() == 0 {
        0
    } else {
        holder_count(t.drop_last()) + t.last().2.len()
    }
}

/// The resource a batch record locks: the JSON text of its id, or
/// `row_<txn>` for the transaction `txn` that locks it.
pub open spec fn lock_resource(id: Option<JsonValue>, txn: u64) -> Seq<char> {
    match id {
        Some(v) => json_text_of(v),
        None => "row_"@ + decimal(txn as nat),
    }
}

/// The resource of record `k` of a batch whose first transaction is `n0`.
pub open spec fn batch_resource(ids: Seq<Option<JsonValue>>, n0: u64, k: int) -> Seq<char> {
    lock_resource(ids[k], (n0 + k) as u64)
}

/// One of the first `k` records of the batch locks `r`.
pub open spec fn locked_in_batch(ids: Seq<Option<JsonValue>>, n0: u64, k: int, r: Seq<char>) -> bool {
    exists|j: int| 0 <= j < k && #[trigger] batch_resource(ids, n0, j) == r
}

/// The mode of a held lock.
pub open spec fn held_mode(s: Option<(LockMode, Set<u64>)>) -> LockMode {
    match s {
        Some((m, _)) => m,
        None => LockMode::Shared,
    }
}

/// The holders of a lock; none for a free resource.
pub open spec fn holders_of(s: Option<(LockMode, Set<u64>)>) -> Set<u64> {
    match s {
        Some((_, hs)) => hs,
        None => Set::empty(),
    }
}

/// Under strict two-phase locking a request against a lock held by other
/// transactions is granted only when both the held lock and the request
/// are shared, and then joins the holders; any other request waits and
/// leaves the requester the lock's only holder. A free resource is
/// granted at once to its requester alone.
pub proof fn law_lock_compatibility(s: Option<(LockMode, Set<u64>)>, txn: u64, mode: LockMode)
    ensures
        s is None ==> request_result(s, txn, mode) == LockResult::Granted && lock_after(s, txn, mode) == Some((mode, set![txn])),
        s is Some && !holders_of(s).contains(txn) ==> {
            &&& (request_result(s, txn, mode) == LockResult::Granted <==> (held_mode(s) == LockMode::Shared && mode == LockMode::Shared))
            &&& (request_result(s, txn, mode) == LockResult::Waited <==> !(held_mode(s) == LockMode::Shared && mode == LockMode::Shared))
            &&& holders_of(lock_after(s, txn, mode)).contains(txn)
            &&& (held_mode(s) == LockMode::Exclusive || mode == LockMode::Exclusive) ==> lock_after(s, txn, mode) == Some((mode, set![txn]))
        },
        s is Some && holders_of(s).contains(txn) ==> request_result(s, txn, mode) != LockResult::Deadlock,
{
}

/// The (resource, holder) pairs of a lock table.
pub open spec fn table_pairs(t: Seq<LockRow>) -> Set<(Seq<char>, u64)> {
    Set::new(|p: (Seq<char>, u64)| exists|i: int| 0 <= i < t.len() && t[i].0 == p.0 && #[trigger] t[i].2.contains(p.1))
}

/// The pairs one row contributes.
spec fn row_pairs(row: LockRow) -> Set<(Seq<char>, u64)> {
    row.2.to_set().map(|h: u64| (row.0, h))
}

proof fn lemma_table_pairs_len(t: Seq<LockRow>)
    requires
        distinct_resources(t),
        forall|i: int| 0 <= i < t.len() ==> (#[trigger] t[i]).2.no_duplicates(),
    ensures
        table_pairs(t).finite(),
        table_pairs(t).len() == holder_count(t),
    decreases t.len(),
{
    if t.len() == 0 {
        assert(table_pairs(t) =~= Set::<(Seq<char>, u64)>::empty());
    } else {
        let d = t.drop_last();
        let last = t.last();
        assert(distinct_resources(d)) by {
            assert forall|i: int, j: int| 0 <= i < d.len() && 0 <= j < d.len() && i != j implies #[trigger] d[i].0 != #[trigger] d[j].0 by {
                assert(d[i] == t[i] && d[j] == t[j]);
            }
        }
        assert forall|i: int| 0 <= i < d.len() implies (#[trigger] d[i]).2.no_duplicates() by {
            assert(d[i] == t[i]);
        }
        lemma_table_pairs_len(d);
        let f = |h: u64| (last.0, h);
        last.2.unique_seq_to_set();
        assert(vstd::relations::injective_on(f, last.2.to_set()));
        lemma_map_size(last.2.to_set(), row_pairs(last), f);
        assert(table_pairs(t) =~= table_pairs(d) + row_pairs(last)) by {
            assert forall|p: (Seq<char>, u64)| table_pairs(t).contains(p) implies (table_pairs(d) + row_pairs(last)).contains(p) by {
                let i = choose|i: int| 0 <= i < t.len() && t[i].0 == p.0 && #[trigger] t[i].2.contains(p.1);
                if i < d.len() {
                    assert(d[i] == t[i]);
                } else {
                    assert(last.2.to_set().contains(p.1));
                    assert(f(p.1) == p);
                }
            }
            assert forall|p: (Seq<char>, u64)| (table_pairs(d) + row_pairs(last)).contains(p) implies table_pairs(t).contains(p) by {
                if table_pairs(d).contains(p) {
                    let i = choose|i: int| 0 <= i < d.len() && d[i].0 == p.0 && #[trigger] d[i].2.contains(p.1);
                    assert(t[i] == d[i]);
                } else {
                    let h = choose|h: u64| last.2.to_set().contains(h) && f(h) == p;
                    assert(t[t.len() - 1].2.contains(p.1));
                }
            }
        }
        assert(table_pairs(d).disjoint(row_pairs(last))) by {
            assert forall|p: (Seq<char>, u64)| table_pairs(d).contains(p) implies !row_pairs(last).contains(p) by {
                let i = choose|i: int| 0 <= i < d.len() && d[i].0 == p.0 && #[trigger] d[i].2.contains(p.1);
                assert(t[i].0 != t[t.len() - 1].0);
            }
        }
        lemma_set_disjoint_lens(table_pairs(d), row_pairs(last));
    }
}

proof fn lemma_row_index(t: Seq<LockRow>, i: int)
    requires
        distinct_resources(t),
        0 <= i < t.len(),
    ensures
        has_row(t, t[i].0),
        row_index(t, t[i].0) == i,
        lock_state(t, t[i].0) == Some((t[i].1, t[i].2.to_set())),
{
    assert(has_row(t, t[i].0));
    let k = row_index(t, t[i].0);
    if k != i {
        assert(t[k].0 == t[i].0);
    }
}

proof fn lemma_update_row(t: Seq<LockRow>, i: int, e: LockRow)
    requires
        distinct_resources(t),
        0 <= i < t.len(),
        e.0 == t[i].0,
    ensures
        distinct_resources(t.update(i, e)),
        forall|x: Seq<char>| #[trigger] lock_state(t.update(i, e), x) == if x == e.0 {
            Some((e.1, e.2.to_set()))
        } else {
            lock_state(t, x)
        },
{
    let u = t.update(i, e);
    assert(distinct_resources(u)) by {
        assert forall|a: int, b: int| 0 <= a < u.len() && 0 <= b < u.len() && a != b implies #[trigger] u[a].0 != #[trigger] u[b].0 by {
            if a != i && b != i {
                assert(u[a] == t[a] && u[b] == t[b]);
            } else if a == i {
                assert(t[b].0 != t[i].0);
            } else {
                assert(t[a].0 != t[i].0);
            }
        }
    }
    lemma_row_index(u, i);
    assert forall|x: Seq<char>| #[trigger] lock_state(u, x) == if x == e.0 {
        Some((e.1, e.2.to_set()))
    } else {
        lock_state(t, x)
    } by {
        if x != e.0 {
            if has_row(t, x) {
                let k = row_index(t, x);
                assert(k != i);
                assert(u[k] == t[k]);
                lemma_row_index(t, k);
                lemma_row_index(u, k);
            }
            if has_row(u, x) {
                let k = row_index(u, x);
                assert(k != i);
                assert(u[k] == t[k]);
            }
        }
    }
}

proof fn lemma_push_row(t: Seq<LockRow>, e: LockRow)
    requires
        distinct_resources(t),
        !has_row(t, e.0),
    ensures
        distinct_resources(t.push(e)),
        forall|x: Seq<char>| #[trigger] lock_state(t.push(e), x) == if x == e.0 {
            Some((e.1, e.2.to_set()))
        } else {
            lock_state(t, x)
        },
{
    let u = t.push(e);
    assert(distinct_resources(u)) by {
        assert forall|a: int, b: int| 0 <= a < u.len() && 0 <= b < u.len() && a != b implies #[trigger] u[a].0 != #[trigger] u[b].0 by {
            if a < t.len() && b < t.len() {
                assert(u[a] == t[a] && u[b] == t[b]);
            } else if a == t.len() {
                assert(u[b] == t[b]);
            } else {
                assert(u[a] == t[a]);
            }
        }
    }
    lemma_row_index(u, t.len() as int);
    assert forall|x: Seq<char>| #[trigger] lock_state(u, x) == if x == e.0 {
        Some((e.1, e.2.to_set()))
    } else {
        lock_state(t, x)
    } by {
        if x != e.0 {
            if has_row(t, x) {
                let k = row_index(t, x);
                assert(u[k] == t[k]);
                lemma_row_index(t, k);
                lemma_row_index(u, k);
            }
            if has_row(u, x) {
                let k = row_index(u, x);
                assert(k < t.len());
                assert(u[k] == t[k]);
            }
        }
    }
}

proof fn lemma_remove_row(t: Seq<LockRow>, i: int)
    requires
        distinct_resources(t),
        0 <= i < t.len(),
    ensures
        distinct_resources(t.remove(i)),
        forall|x: Seq<char>| #[trigger] lock_state(t.remove(i), x) == if x == t[i].0 {
            None
        } else {
            lock_state(t, x)
        },
{
    let u = t.remove(i);
    assert(distinct_resources(u)) by {
        assert forall|a: int, b: int| 0 <= a < u.len() && 0 <= b < u.len() && a != b implies #[trigger] u[a].0 != #[trigger] u[b].0 by {
            let oa = if a < i { a } else { a + 1 };
            let ob = if b < i { b } else { b + 1 };
            assert(u[a] == t[oa] && u[b] == t[ob]);
        }
    }
    assert forall|x: Seq<char>| #[trigger] lock_state(u, x) == if x == t[i].0 {
        None
    } else {
        lock_state(t, x)
    } by {
        if has_row(u, x) {
            let k = row_index(u, x);
            let ok = if k < i { k } else { k + 1 };
            assert(u[k] == t[ok]);
            lemma_row_index(u, k);
            lemma_row_index(t, ok);
        } else if x != t[i].0 && has_row(t, x) {
            let k = row_index(t, x);
            assert(k != i);
            let uk = if k < i { k } else { k - 1 };
            assert(u[uk] == t[k]);
        }
    }
}

proof fn lemma_holder_count_prefix(t: Seq<LockRow>, k: int)
    requires
        0 <= k <= t.len(),
    ensures
        holder_count(t.subrange(0, k)) <= holder_count(t),
    decreases t.len() - k,
{
    if k < t.len() {
        lemma_holder_count_prefix(t, k + 1);
        assert(t.subrange(0, k + 1).drop_last() =~= t.subrange(0, k));
    } else {
        assert(t.subrange(0, k) =~= t);
    }
}

proof fn lemma_holder_count_update(t: Seq<LockRow>, i: int, e: LockRow)
    requires
        0 <= i < t.len(),
    ensures
        holder_count(t.update(i, e)) == holder_count(t) - t[i].2.len() + e.2.len(),
    decreases t.len(),
{
    if i < t.len() - 1 {
        assert(t.update(i, e).drop_last() =~= t.drop_last().update(i, e));
        lemma_holder_count_update(t.drop_last(), i, e);
    } else {
        assert(t.update(i, e).drop_last() =~= t.drop_last());
    }
}

// ---------------------------------------------------------------------------
// Holder lists
// ---------------------------------------------------------------------------

fn holds_lock(holders: &Vec<u64>, txn: u64) -> (r: bool)
    ensures
        r == holders@.contains(txn),
{
    let mut i: usize = 0;
    while i < holders.len()
        invariant
            0 <= i <= holders@.len(),
            forall|j: int| 0 <= j < i ==> holders@[j] != txn,
        decreases holders@.len() - i,
    {
        if holders[i] == txn {
            return true;
        }
        i = i + 1;
    }
    false
}

/// The holders other than `txn`, in order.
fn others(holders: &Vec<u64>, txn: u64) -> (r: Vec<u64>)
    ensures
        r@ == holders@.filter(|h: u64| h != txn),
{
    let mut r: Vec<u64> = Vec::new();
    let mut i: usize = 0;
    while i < holders.len()
        invariant
            0 <= i <= holders@.len(),
            r@ == holders@.subrange(0, i as int).filter(|h: u64| h != txn),
        decreases holders@.len() - i,
    {
        proof {
            assert(holders@.subrange(0, i as int + 1).drop_last() =~= holders@.subrange(0, i as int));
            holders@.subrange(0, i as int).lemma_filter_push(holders@[i as int], |h: u64| h != txn);
            assert(holders@.subrange(0, i as int + 1) =~= holders@.subrange(0, i as int).push(holders@[i as int]));
        }
        if holders[i] != txn {
            r.push(holders[i]);
        }
        i = i + 1;
    }
    proof {
        assert(holders@.subrange(0, i as int) =~= holders@);
    }
    r
}

/// Removes `txn` from a list of distinct holders.
fn remove_holder(holders: &mut Vec<u64>, txn: u64)
    requires
        old(holders)@.no_duplicates(),
    ensures
        final(holders)@.no_duplicates(),
        final(holders)@.to_set() == old(holders)@.to_set().remove(txn),
        final(holders)@.len() == old(holders)@.to_set().remove(txn).len(),
{
    let ghost s = holders@;
    let mut i: usize = 0;
    while i < holders.len() && holders[i] != txn
        invariant
            holders@ == s,
            0 <= i <= s.len(),
            forall|j: int| 0 <= j < i ==> s[j] != txn,
        decreases s.len() - i,
    {
        i = i + 1;
    }
    if i < holders.len() {
        holders.remove(i);
        proof {
            let u = s.remove(i as int);
            assert(holders@ == u);
            assert(u.no_duplicates()) by {
                assert forall|a: int, b: int| 0 <= a < u.len() && 0 <= b < u.len() && a != b implies u[a] != u[b] by {
                    let oa = if a < i { a } else { a + 1 };
                    let ob = if b < i { b } else { b + 1 };
                    assert(u[a] == s[oa] && u[b] == s[ob]);
                }
            }
            assert(u.to_set() =~= s.to_set().remove(txn)) by {
                assert forall|x: u64| u.to_set().contains(x) implies s.to_set().remove(txn).contains(x) by {
                    let k = choose|k: int| 0 <= k < u.len() && u[k] == x;
                    let ok = if k < i { k } else { k + 1 };
                    assert(s[ok] == x);
                    assert(ok != i);
                }
                assert forall|x: u64| s.to_set().remove(txn).contains(x) implies u.to_set().contains(x) by {
                    let k = choose|k: int| 0 <= k < s.len() && s[k] == x;
                    assert(k != i);
                    let uk = if k < i { k } else { k - 1 };
                    assert(u[uk] == x);
                }
            }
            u.unique_seq_to_set();
        }
    } else {
        proof {
            assert(s.to_set().remove(txn) =~= s.to_set());
            s.unique_seq_to_set();
        }
    }
}

/// A wait-for graph in which only `t` waits, and not for itself, has no
/// cycle through `t`.
proof fn lemma_single_waiter_acyclic(g: Map<u64, Seq<u64>>, t: u64)
    requires
        g.dom() == set![t],
        !g[t].contains(t),
    ensures
        !on_cycle(g, t),
{
    if on_cycle(g, t) {
        let p = choose|p: Seq<u64>| is_path(g, p) && p.len() >= 2 && p[0] == t && p.last() == t;
        assert(waits_for(g, p[0], p[1]));
        if p.len() == 2 {
            assert(g[t].contains(p[1]));
        } else {
            assert(waits_for(g, p[1], p[2]));
            assert(g.dom().contains(p[1]));
            assert(p[1] == t);
        }
    }
}

proof fn lemma_singleton_to_set(t: u64)
    ensures
        seq![t].to_set() == set![t],
{
    assert(seq![t][0] == t);
    assert(seq![t].to_set() =~= set![t]);
}

/// Letting go of a lock twice is letting go of it once.
proof fn lemma_released_idempotent(s: Option<(LockMode, Set<u64>)>, txn: u64)
    ensures
        released(released(s, txn), txn) == released(s, txn),
{
    match s {
        Some((m, hs)) => {
            assert(hs.remove(txn).remove(txn) =~= hs.remove(txn));
        },
        None => {},
    }
}

/// A lock table row as well formed: distinct holders, at least one, and
/// exactly one where the lock is exclusive.
pub open spec fn row_ok(row: LockRow) -> bool {
    &&& row.2.no_duplicates()
    &&& row.2.len() >= 1
    &&& row.1 == LockMode::Exclusive ==> row.2.len() == 1
}

/// The resources a transaction has locked, in the order it took them, as
/// held in `m`; empty for a transaction `m` does not know.
pub open spec fn resources_in(m: Map<u64, Seq<Seq<char>>>, txn: u64) -> Seq<Seq<char>> {
    if m.contains_key(txn) {
        m[txn]
    } else {
        Seq::empty()
    }
}

/// `txn` asks for a lock it does not hold yet, so the resource joins its
/// list.
pub open spec fn is_new_holder(s: Option<(LockMode, Set<u64>)>, txn: u64) -> bool {
    match s {
        Some((_, hs)) => !hs.contains(txn),
        None => true,
    }
}

/// `txn` holds a shared lock and asks for an exclusive one.
pub open spec fn is_upgrade(s: Option<(LockMode, Set<u64>)>, txn: u64, mode: LockMode) -> bool {
    match s {
        Some((m, hs)) => hs.contains(txn) && m == LockMode::Shared && mode == LockMode::Exclusive,
        None => false,
    }
}

/// The answer to a request by `txn` for `mode` on a resource whose lock is
/// `s`: a conflict with another holder is waited out.
pub open spec fn request_result(s: Option<(LockMode, Set<u64>)>, txn: u64, mode: LockMode) -> LockResult {
    match s {
        None => LockResult::Granted,
        Some((m, hs)) => if hs.contains(txn) {
            if is_upgrade(s, txn, mode) && hs.len() > 1 {
                LockResult::Waited
            } else {
                LockResult::Granted
            }
        } else if m == LockMode::Shared && mode == LockMode::Shared {
            LockResult::Granted
        } else {
            LockResult::Waited
        },
    }
}

/// The lock on the resource once the request is served: shared locks are
/// shared, anything else leaves `txn` the only holder.
pub open spec fn lock_after(s: Option<(LockMode, Set<u64>)>, txn: u64, mode: LockMode) -> Option<(LockMode, Set<u64>)> {
    match s {
        None => Some((mode, set![txn])),
        Some((m, hs)) => if hs.contains(txn) {
            if is_upgrade(s, txn, mode) {
                Some((LockMode::Exclusive, set![txn]))
            } else {
                s
            }
        } else if m == LockMode::Shared && mode == LockMode::Shared {
            Some((LockMode::Shared, hs.insert(txn)))
        } else {
            Some((mode, set![txn]))
        },
    }
}

/// Lock manager for strict two-phase locking with wait-for-graph deadlock
/// detection.
pub struct RowLockBlock {
    metadata: BlockMetadata,
    input_ports: Vec<Port>,
    output_ports: Vec<Port>,
    metric_defs: Vec<MetricDefinition>,
    max_locks_per_txn: usize,
    lock_table: Vec<LockEntry>,
    txn_locks: HashMap<u64, Vec<String>>,
    wait_for: HashMap<u64, Vec<u64>>,
    locks_acquired: usize,
    lock_waits: usize,
    deadlocks_detected: usize,
    lock_upgrades: usize,
    txn_committed: usize,
    txn_aborted: usize,
    next_txn_id: u64,
}

impl RowLockBlock {
    /// The lock table, one row per locked resource.
    pub closed spec fn table(&self) -> Seq<LockRow> {
        self.lock_table@.map_values(|e: LockEntry| (e.resource@, e.mode, e.holders@))
    }

    /// The lock on resource `r`: its mode and holders, or None.
    pub open spec fn lock_on(&self, r: Seq<char>) -> Option<(LockMode, Set<u64>)> {
        lock_state(self.table(), r)
    }

    /// For each transaction, the resources it has locked.
    pub closed spec fn txn_resources(&self) -> Map<u64, Seq<Seq<char>>> {
        self.txn_locks@.map_values(|v: Vec<String>| v@.map_values(|s: String| s@))
    }

    /// The number of (resource, holder) pairs in the lock table.
    pub open spec fn active_locks(&self) -> nat {
        holder_count(self.table())
    }

    pub closed spec fn spec_max_locks_per_txn(&self) -> usize {
        self.max_locks_per_txn
    }

    pub closed spec fn spec_locks_acquired(&self) -> usize {
        self.locks_acquired
    }

    pub closed spec fn spec_lock_waits(&self) -> usize {
        self.lock_waits
    }

    pub closed spec fn spec_deadlocks_detected(&self) -> usize {
        self.deadlocks_detected
    }

    pub closed spec fn spec_lock_upgrades(&self) -> usize {
        self.lock_upgrades
    }

    pub closed spec fn spec_txn_committed(&self) -> usize {
        self.txn_committed
    }

    pub closed spec fn spec_txn_aborted(&self) -> usize {
        self.txn_aborted
    }

    pub closed spec fn spec_next_txn_id(&self) -> u64 {
        self.next_txn_id
    }

    /// One row per resource, each row well formed, and nobody left waiting.
    pub closed spec fn wf(&self) -> bool {
        &&& distinct_resources(self.table())
        &&& forall|i: int| 0 <= i < self.table().len() ==> row_ok(#[trigger] self.table()[i])
        &&& self.wait_for@ == Map::<u64, Vec<u64>>::empty()
    }

    /// The counters that a lock request may bump have room to grow.
    pub open spec fn counters_have_room(&self) -> bool {
        &&& self.spec_locks_acquired() < usize::MAX
        &&& self.spec_lock_waits() < usize::MAX
        &&& self.spec_lock_upgrades() < usize::MAX
    }

    /// The row of `resource`, if it is locked.
    fn find_entry(&self, resource: &String) -> (r: Option<usize>)
        ensures
            match r {
                Some(i) => i < self.table().len() && self.table()[i as int].0 == resource@,
                None => !has_row(self.table(), resource@),
            },
    {
        let mut i: usize = 0;
        while i < self.lock_table.len()
            invariant
                0 <= i <= self.lock_table@.len(),
                self.table().len() == self.lock_table@.len(),
                forall|j: int| 0 <= j < i ==> self.table()[j].0 != resource@,
            decreases self.lock_table@.len() - i,
        {
            if self.lock_table[i].resource == *resource {
                return Some(i);
            }
            i = i + 1;
        }
        None
    }

    pub fn new() -> (b: Self)
        ensures
            b.wf(),
            b.locks_listed(),
            b.ids_fresh(),
            b.table() == Seq::<LockRow>::empty(),
            b.txn_resources() == Map::<u64, Seq<Seq<char>>>::empty(),
            b.spec_max_locks_per_txn() == 1000,
            b.spec_locks_acquired() == 0,
            b.spec_lock_waits() == 0,
            b.spec_deadlocks_detected() == 0,
            b.spec_lock_upgrades() == 0,
            b.spec_txn_committed() == 0,
            b.spec_txn_aborted() == 0,
            b.spec_next_txn_id() == 1,
            b.spec_metadata().id@ == "row-lock-2pl"@,
            b.spec_metadata().category == BlockCategory::Concurrency,
    {
        let b = Self {
            metadata: Self::build_metadata(),
            input_ports: Self::build_inputs(),
            output_ports: Self::build_outputs(),
            metric_defs: Self::build_metrics(),
            max_locks_per_txn: 1000,
            lock_table: Vec::new(),
            txn_locks: HashMap::new(),
            wait_for: HashMap::new(),
            locks_acquired: 0,
            lock_waits: 0,
            deadlocks_detected: 0,
            lock_upgrades: 0,
            txn_committed: 0,
            txn_aborted: 0,
            next_txn_id: 1,
        };
        proof {
            assert(b.table() =~= Seq::<LockRow>::empty());
            assert(b.txn_resources() =~= Map::<u64, Seq<Seq<char>>>::empty());
        }
        b
    }

    /// Starts a transaction: hands out the next id and gives it an empty
    /// list of locked resources.
    pub fn begin_txn(&mut self) -> (id: u64)
        requires
            old(self).wf(),
            old(self).spec_next_txn_id() < u64::MAX,
        ensures
            final(self).wf(),
            id == old(self).spec_next_txn_id(),
            final(self).spec_next_txn_id() == id + 1,
            final(self).txn_resources() == old(self).txn_resources().insert(id, Seq::<Seq<char>>::empty()),
            old(self).locks_listed() && !old(self).txn_resources().contains_key(id) ==> final(self).locks_listed(),
            old(self).ids_fresh() ==> final(self).ids_fresh(),
            final(self).table() == old(self).table(),
            final(self).same_counters(*old(self)),
    {
        let id = self.next_txn_id;
        self.next_txn_id = self.next_txn_id + 1;
        let none: Vec<String> = Vec::new();
        proof {
            assert(none@.map_values(|s: String| s@) =~= Seq::<Seq<char>>::empty());
        }
        self.txn_locks.insert(id, none);
        proof {
            assert(self.txn_resources() =~= old(self).txn_resources().insert(id, Seq::<Seq<char>>::empty()));
            if old(self).locks_listed() && !old(self).txn_resources().contains_key(id) {
                assert forall|t: u64, x: Seq<char>| #[trigger] self.holds(t, x) implies resources_in(self.txn_resources(), t).contains(x) by {
                    assert(old(self).holds(t, x));
                    assert(t != id);
                }
            }
            if old(self).ids_fresh() {
                assert forall|t: u64, x: Seq<char>| #[trigger] self.holds(t, x) implies t < self.spec_next_txn_id() by {
                    assert(old(self).holds(t, x));
                }
                assert forall|t: u64| #[trigger] self.txn_resources().contains_key(t) implies t < self.spec_next_txn_id() by {
                    if t != id {
                        assert(old(self).txn_resources().contains_key(t));
                    }
                }
            }
        }
        id
    }

    /// Adds `key` to the resources `txn_id` has locked.
    fn record_resource(&mut self, txn_id: u64, key: String)
        requires
            old(self).wf(),
        ensures
            final(self).wf(),
            final(self).txn_resources() == old(self).txn_resources().insert(
                txn_id,
                resources_in(old(self).txn_resources(), txn_id).push(key@),
            ),
            final(self).table() == old(self).table(),
            final(self).same_counters(*old(self)),
            final(self).spec_next_txn_id() == old(self).spec_next_txn_id(),
    {
        let ghost before = self.txn_resources();
        let mut list: Vec<String> = match self.txn_locks.remove(&txn_id) {
            Some(v) => v,
            None => Vec::new(),
        };
        proof {
            assert(list@.map_values(|s: String| s@) =~= resources_in(before, txn_id));
        }
        let ghost l0 = list@;
        list.push(key);
        proof {
            assert(list@.map_values(|s: String| s@) =~= l0.map_values(|s: String| s@).push(key@));
        }
        self.txn_locks.insert(txn_id, list);
        proof {
            assert(self.txn_resources() =~= before.insert(txn_id, resources_in(before, txn_id).push(key@)));
        }
    }

    /// Asks for a lock on `resource` for `txn_id`. A request that conflicts
    /// with another holder is checked for a deadlock, then served as if the
    /// other holders had finished: the requester becomes the only holder.
    /// Since only the requester ever waits, no cycle can form and the
    /// answer is never `Deadlock`.
    pub fn acquire_lock(&mut self, txn_id: u64, resource: &str, mode: LockMode) -> (r: LockResult)
        requires
            old(self).wf(),
            old(self).counters_have_room(),
        ensures
            final(self).wf(),
            old(self).locks_listed() ==> final(self).locks_listed(),
            old(self).ids_fresh() && txn_id < old(self).spec_next_txn_id() ==> final(self).ids_fresh(),
            r != LockResult::Deadlock,
            r == request_result(old(self).lock_on(resource@), txn_id, mode),
            ({
                let s = old(self).lock_on(resource@);
                let compatible = s is Some && held_mode(s) == LockMode::Shared && mode == LockMode::Shared;
                &&& s is None ==> r == LockResult::Granted
                &&& s is Some && !holders_of(s).contains(txn_id) ==> {
                    &&& (r == LockResult::Granted <==> compatible)
                    &&& (r == LockResult::Waited <==> !compatible)
                    &&& final(self).spec_lock_waits() == old(self).spec_lock_waits() + if compatible {
                        0int
                    } else {
                        1int
                    }
                    &&& final(self).lock_on(resource@) == if compatible {
                        Some((LockMode::Shared, holders_of(s).insert(txn_id)))
                    } else {
                        Some((mode, set![txn_id]))
                    }
                }
            }),
            forall|x: Seq<char>| #[trigger] final(self).lock_on(x) == if x == resource@ {
                lock_after(old(self).lock_on(resource@), txn_id, mode)
            } else {
                old(self).lock_on(x)
            },
            final(self).txn_resources() == if is_new_holder(old(self).lock_on(resource@), txn_id) {
                old(self).txn_resources().insert(
                    txn_id,
                    resources_in(old(self).txn_resources(), txn_id).push(resource@),
                )
            } else {
                old(self).txn_resources()
            },
            final(self).spec_locks_acquired() == old(self).spec_locks_acquired() + if is_new_holder(
                old(self).lock_on(resource@),
                txn_id,
            ) || is_upgrade(old(self).lock_on(resource@), txn_id, mode) {
                1int
            } else {
                0int
            },
            final(self).spec_lock_waits() == old(self).spec_lock_waits() + if r == LockResult::Waited {
                1int
            } else {
                0int
            },
            final(self).spec_lock_upgrades() == old(self).spec_lock_upgrades() + if is_upgrade(
                old(self).lock_on(resource@),
                txn_id,
                mode,
            ) {
                1int
            } else {
                0int
            },
            final(self).spec_deadlocks_detected() == old(self).spec_deadlocks_detected(),
            final(self).spec_txn_committed() == old(self).spec_txn_committed(),
            final(self).spec_txn_aborted() == old(self).spec_txn_aborted(),
            final(self).spec_max_locks_per_txn() == old(self).spec_max_locks_per_txn(),
            final(self).spec_next_txn_id() == old(self).spec_next_txn_id(),
    {
        let r = self.serve_request(txn_id, resource, mode);
        proof {
            if old(self).locks_listed() {
                Self::lemma_listed_after_acquire(*old(self), *self, txn_id, resource@, mode);
            }
            if old(self).ids_fresh() && txn_id < old(self).spec_next_txn_id() {
                assert forall|t: u64, x: Seq<char>| #[trigger] self.holds(t, x) implies t < self.spec_next_txn_id() by {
                    if t != txn_id {
                        if x == resource@ {
                            assert(self.lock_on(x) == lock_after(old(self).lock_on(x), txn_id, mode));
                        }
                        assert(old(self).holds(t, x));
                    }
                }
                assert forall|t: u64| #[trigger] self.txn_resources().contains_key(t) implies t < self.spec_next_txn_id() by {
                    if t != txn_id {
                        assert(old(self).txn_resources().contains_key(t));
                    }
                }
            }
        }
        r
    }

    /// The lock table's part of `acquire_lock`.
    fn serve_request(&mut self, txn_id: u64, resource: &str, mode: LockMode) -> (r: LockResult)
        requires
            old(self).wf(),
            old(self).counters_have_room(),
        ensures
            final(self).wf(),
            r != LockResult::Deadlock,
            r == request_result(old(self).lock_on(resource@), txn_id, mode),
            ({
                let s = old(self).lock_on(resource@);
                let compatible = s is Some && held_mode(s) == LockMode::Shared && mode == LockMode::Shared;
                &&& s is None ==> r == LockResult::Granted
                &&& s is Some && !holders_of(s).contains(txn_id) ==> {
                    &&& (r == LockResult::Granted <==> compatible)
                    &&& (r == LockResult::Waited <==> !compatible)
                    &&& final(self).spec_lock_waits() == old(self).spec_lock_waits() + if compatible {
                        0int
                    } else {
                        1int
                    }
                    &&& final(self).lock_on(resource@) == if compatible {
                        Some((LockMode::Shared, holders_of(s).insert(txn_id)))
                    } else {
                        Some((mode, set![txn_id]))
                    }
                }
            }),
            forall|x: Seq<char>| #[trigger] final(self).lock_on(x) == if x == resource@ {
                lock_after(old(self).lock_on(resource@), txn_id, mode)
            } else {
                old(self).lock_on(x)
            },
            final(self).txn_resources() == if is_new_holder(old(self).lock_on(resource@), txn_id) {
                old(self).txn_resources().insert(
                    txn_id,
                    resources_in(old(self).txn_resources(), txn_id).push(resource@),
                )
            } else {
                old(self).txn_resources()
            },
            final(self).spec_locks_acquired() == old(self).spec_locks_acquired() + if is_new_holder(
                old(self).lock_on(resource@),
                txn_id,
            ) || is_upgrade(old(self).lock_on(resource@), txn_id, mode) {
                1int
            } else {
                0int
            },
            final(self).spec_lock_waits() == old(self).spec_lock_waits() + if r == LockResult::Waited {
                1int
            } else {
                0int
            },
            final(self).spec_lock_upgrades() == old(self).spec_lock_upgrades() + if is_upgrade(
                old(self).lock_on(resource@),
                txn_id,
                mode,
            ) {
                1int
            } else {
                0int
            },
            final(self).spec_deadlocks_detected() == old(self).spec_deadlocks_detected(),
            final(self).spec_txn_committed() == old(self).spec_txn_committed(),
            final(self).spec_txn_aborted() == old(self).spec_txn_aborted(),
            final(self).spec_max_locks_per_txn() == old(self).spec_max_locks_per_txn(),
            final(self).spec_next_txn_id() == old(self).spec_next_txn_id(),
    {
        let ghost t0 = self.table();
        let ghost s = self.lock_on(resource@);
        let key = resource.to_owned();
        match self.find_entry(&key) {
            Some(i) => {
                proof {
                    lemma_row_index(t0, i as int);
                    assert(row_ok(t0[i as int]));
                    t0[i as int].2.unique_seq_to_set();
                }
                let held = holds_lock(&self.lock_table[i].holders, txn_id);
                if held {
                    if self.lock_table[i].mode == LockMode::Shared && mode == LockMode::Exclusive {
                        if self.lock_table[i].holders.len() == 1 {
                            let mut holders: Vec<u64> = Vec::new();
                            holders.push(txn_id);
                            self.lock_table.set(i, LockEntry { resource: key, mode: LockMode::Exclusive, holders });
                            self.lock_upgrades = self.lock_upgrades + 1;
                            self.locks_acquired = self.locks_acquired + 1;
                            proof {
                                assert(self.table() =~= t0.update(i as int, (t0[i as int].0, LockMode::Exclusive, seq![txn_id])));
                                self.lemma_after_set(t0, i as int, txn_id, LockMode::Exclusive);
                                assert(t0[i as int].2.to_set() =~= set![txn_id]) by {
                                    assert(t0[i as int].2[0] == txn_id);
                                }
                            }
                            return LockResult::Granted;
                        } else {
                            let waitees = others(&self.lock_table[i].holders, txn_id);
                            self.wait_for.insert(txn_id, waitees);
                            proof {
                                                                assert(graph_of(self.wait_for@).dom() =~= set![txn_id]);
                                lemma_single_waiter_acyclic(graph_of(self.wait_for@), txn_id);
                            }
                            if has_cycle_in(&self.wait_for, txn_id) {
                                self.wait_for.remove(&txn_id);
                                self.deadlocks_detected = self.deadlocks_detected + 1;
                                return LockResult::Deadlock;
                            }
                            self.wait_for.remove(&txn_id);
                            proof {
                                assert(self.wait_for@ =~= Map::<u64, Vec<u64>>::empty());
                            }
                            self.lock_waits = self.lock_waits + 1;
                            let mut holders: Vec<u64> = Vec::new();
                            holders.push(txn_id);
                            self.lock_table.set(i, LockEntry { resource: key, mode: LockMode::Exclusive, holders });
                            self.lock_upgrades = self.lock_upgrades + 1;
                            self.locks_acquired = self.locks_acquired + 1;
                            proof {
                                assert(self.table() =~= t0.update(i as int, (t0[i as int].0, LockMode::Exclusive, seq![txn_id])));
                                self.lemma_after_set(t0, i as int, txn_id, LockMode::Exclusive);
                            }
                            return LockResult::Waited;
                        }
                    }
                    return LockResult::Granted;
                }
                if self.lock_table[i].mode == LockMode::Shared && mode == LockMode::Shared {
                    let ghost h0 = t0[i as int].2;
                    self.lock_table[i].holders.push(txn_id);
                    proof {
                        let u = t0.update(i as int, (resource@, LockMode::Shared, h0.push(txn_id)));
                        assert(self.table() =~= u);
                        lemma_update_row(t0, i as int, (resource@, LockMode::Shared, h0.push(txn_id)));
                        h0.lemma_push_to_set_commute(txn_id);
                        assert(h0.push(txn_id).no_duplicates()) by {
                            assert forall|a: int, b: int| 0 <= a < h0.len() + 1 && 0 <= b < h0.len() + 1 && a != b implies h0.push(txn_id)[a] != h0.push(txn_id)[b] by {
                                if a == h0.len() {
                                    assert(h0[b] != txn_id);
                                } else if b == h0.len() {
                                    assert(h0[a] != txn_id);
                                } else {
                                    assert(h0[a] != h0[b]);
                                }
                            }
                        }
                        assert forall|j: int| 0 <= j < self.table().len() implies row_ok(#[trigger] self.table()[j]) by {
                            if j != i {
                                assert(self.table()[j] == t0[j]);
                            }
                        }
                    }
                    self.record_resource(txn_id, key);
                    self.locks_acquired = self.locks_acquired + 1;
                    return LockResult::Granted;
                }
                let waitees = others(&self.lock_table[i].holders, txn_id);
                self.wait_for.insert(txn_id, waitees);
                proof {
                                        assert(graph_of(self.wait_for@).dom() =~= set![txn_id]);
                    lemma_single_waiter_acyclic(graph_of(self.wait_for@), txn_id);
                }
                if has_cycle_in(&self.wait_for, txn_id) {
                    self.wait_for.remove(&txn_id);
                    self.deadlocks_detected = self.deadlocks_detected + 1;
                    return LockResult::Deadlock;
                }
                self.wait_for.remove(&txn_id);
                proof {
                    assert(self.wait_for@ =~= Map::<u64, Vec<u64>>::empty());
                }
                self.lock_waits = self.lock_waits + 1;
                let mut holders: Vec<u64> = Vec::new();
                holders.push(txn_id);
                self.lock_table.set(i, LockEntry { resource: key.clone(), mode, holders });
                proof {
                    assert(self.table() =~= t0.update(i as int, (t0[i as int].0, mode, seq![txn_id])));
                                self.lemma_after_set(t0, i as int, txn_id, mode);
                }
                self.record_resource(txn_id, key);
                self.locks_acquired = self.locks_acquired + 1;
                LockResult::Waited
            },
            None => {
                let mut holders: Vec<u64> = Vec::new();
                holders.push(txn_id);
                self.lock_table.push(LockEntry { resource: key.clone(), mode, holders });
                proof {
                    let e = (resource@, mode, seq![txn_id]);
                    assert(self.table() =~= t0.push(e));
                    lemma_push_row(t0, e);
                    lemma_singleton_to_set(txn_id);
                    assert forall|j: int| 0 <= j < self.table().len() implies row_ok(#[trigger] self.table()[j]) by {
                        if j < t0.len() {
                            assert(self.table()[j] == t0[j]);
                        }
                    }
                }
                self.record_resource(txn_id, key);
                self.locks_acquired = self.locks_acquired + 1;
                LockResult::Granted
            },
        }
    }

    /// After row `i` of `t0` was replaced by a row that `txn` alone holds,
    /// the table is still well formed.
    proof fn lemma_after_set(&self, t0: Seq<LockRow>, i: int, txn: u64, m: LockMode)
        requires
            distinct_resources(t0),
            forall|j: int| 0 <= j < t0.len() ==> row_ok(#[trigger] t0[j]),
            0 <= i < t0.len(),
            self.table() == t0.update(i, (t0[i].0, m, seq![txn])),
        ensures
            distinct_resources(self.table()),
            forall|j: int| 0 <= j < self.table().len() ==> row_ok(#[trigger] self.table()[j]),
            forall|x: Seq<char>| #[trigger] lock_state(self.table(), x) == if x == t0[i].0 {
                Some((m, set![txn]))
            } else {
                lock_state(t0, x)
            },
    {
        let e = (t0[i].0, m, seq![txn]);
        lemma_update_row(t0, i, e);
        lemma_singleton_to_set(txn);
        assert forall|j: int| 0 <= j < self.table().len() implies row_ok(#[trigger] self.table()[j]) by {
            if j != i {
                assert(self.table()[j] == t0[j]);
            }
        }
    }

    /// `txn` holds a lock on resource `r`.
    pub open spec fn holds(&self, txn: u64, r: Seq<char>) -> bool {
        self.lock_on(r) matches Some((_, hs)) && hs.contains(txn)
    }

    /// Every lock a transaction holds is on its list of resources, so that
    /// commit and abort find it.
    pub open spec fn locks_listed(&self) -> bool {
        forall|txn: u64, r: Seq<char>| #[trigger] self.holds(txn, r) ==> resources_in(
            self.txn_resources(),
            txn,
        ).contains(r)
    }

    /// Lets go of every lock on `txn_id`'s list and forgets the list.
    fn release_locks(&mut self, txn_id: u64)
        requires
            old(self).wf(),
        ensures
            final(self).wf(),
            forall|x: Seq<char>| #[trigger] final(self).lock_on(x) == if resources_in(
                old(self).txn_resources(),
                txn_id,
            ).contains(x) {
                released(old(self).lock_on(x), txn_id)
            } else {
                old(self).lock_on(x)
            },
            final(self).txn_resources() == old(self).txn_resources().remove(txn_id),
            final(self).same_counters(*old(self)),
            final(self).spec_next_txn_id() == old(self).spec_next_txn_id(),
    {
        let ghost t0 = self.table();
        let ghost m0 = self.txn_resources();
        let taken = self.txn_locks.remove(&txn_id);
        proof {
            assert(self.txn_resources() =~= m0.remove(txn_id));
        }
        match taken {
            Some(resources) => {
                let ghost names = resources@.map_values(|s: String| s@);
                assert(names == resources_in(m0, txn_id));
                let mut k: usize = 0;
                while k < resources.len()
                    invariant
                        self.wf(),
                        names == resources@.map_values(|s: String| s@),
                        0 <= k <= resources@.len(),
                        forall|x: Seq<char>| #[trigger] lock_state(self.table(), x) == if names.subrange(
                            0,
                            k as int,
                        ).contains(x) {
                            released(lock_state(t0, x), txn_id)
                        } else {
                            lock_state(t0, x)
                        },
                        self.txn_resources() == m0.remove(txn_id),
                        self.same_counters(*old(self)),
                        self.spec_next_txn_id() == old(self).spec_next_txn_id(),
                    decreases resources@.len() - k,
                {
                    let ghost t1 = self.table();
                    let ghost r = names[k as int];
                    proof {
                        let pre = names.subrange(0, k as int);
                        assert(names.subrange(0, k as int + 1) =~= pre.push(r));
                        assert forall|x: Seq<char>| pre.push(r).contains(x) <==> (pre.contains(x) || x == r) by {
                            if pre.push(r).contains(x) {
                                let j = choose|j: int| 0 <= j < pre.len() + 1 && #[trigger] pre.push(r)[j] == x;
                                if j < pre.len() {
                                    assert(pre[j] == x);
                                }
                            }
                            if pre.contains(x) {
                                let j = choose|j: int| 0 <= j < pre.len() && #[trigger] pre[j] == x;
                                assert(pre.push(r)[j] == x);
                            }
                            if x == r {
                                assert(pre.push(r)[pre.len() as int] == x);
                            }
                        }
                        lemma_released_idempotent(lock_state(t0, r), txn_id);
                    }
                    let found = self.find_entry(&resources[k]);
                    match found {
                        Some(i) => {
                            proof {
                                lemma_row_index(t1, i as int);
                                assert(row_ok(t1[i as int]));
                                t1[i as int].2.unique_seq_to_set();
                            }
                            remove_holder(&mut self.lock_table[i].holders, txn_id);
                            let ghost e = self.table()[i as int];
                            proof {
                                assert(self.table() =~= t1.update(i as int, e));
                                lemma_update_row(t1, i as int, e);
                                vstd::set_lib::lemma_len_subset(t1[i as int].2.to_set().remove(txn_id), t1[i as int].2.to_set());
                            }
                            if self.lock_table[i].holders.len() == 0 {
                                self.lock_table.remove(i);
                                proof {
                                    assert(self.table() =~= t1.update(i as int, e).remove(i as int));
                                    lemma_remove_row(t1.update(i as int, e), i as int);
                                    assert forall|j: int| 0 <= j < self.table().len() implies row_ok(#[trigger] self.table()[j]) by {
                                        if j < i {
                                            assert(self.table()[j] == t1[j]);
                                        } else {
                                            assert(self.table()[j] == t1[j + 1]);
                                        }
                                    }
                                }
                            } else {
                                proof {
                                    assert forall|j: int| 0 <= j < self.table().len() implies row_ok(#[trigger] self.table()[j]) by {
                                        if j != i {
                                            assert(self.table()[j] == t1[j]);
                                        }
                                    }
                                }
                            }
                        },
                        None => {},
                    }
                    k = k + 1;
                }
                proof {
                    assert(names.subrange(0, k as int) =~= names);
                }
            },
            None => {
                proof {
                    assert(resources_in(m0, txn_id) =~= Seq::<Seq<char>>::empty());
                }
            },
        }
        self.wait_for.remove(&txn_id);
        proof {
            assert(self.wait_for@ =~= Map::<u64, Vec<u64>>::empty());
        }
    }

    /// Commits `txn_id`: every lock on its list is let go of.
    pub fn commit(&mut self, txn_id: u64)
        requires
            old(self).wf(),
            old(self).spec_txn_committed() < usize::MAX,
        ensures
            final(self).wf(),
            forall|x: Seq<char>| #[trigger] final(self).lock_on(x) == if resources_in(
                old(self).txn_resources(),
                txn_id,
            ).contains(x) {
                released(old(self).lock_on(x), txn_id)
            } else {
                old(self).lock_on(x)
            },
            final(self).txn_resources() == old(self).txn_resources().remove(txn_id),
            old(self).ids_fresh() ==> final(self).ids_fresh(),
            old(self).locks_listed() ==> final(self).locks_listed() && forall|x: Seq<char>| !final(self).holds(txn_id, x),
            final(self).spec_txn_committed() == old(self).spec_txn_committed() + 1,
            final(self).spec_txn_aborted() == old(self).spec_txn_aborted(),
            final(self).spec_locks_acquired() == old(self).spec_locks_acquired(),
            final(self).spec_lock_waits() == old(self).spec_lock_waits(),
            final(self).spec_lock_upgrades() == old(self).spec_lock_upgrades(),
            final(self).spec_deadlocks_detected() == old(self).spec_deadlocks_detected(),
            final(self).spec_max_locks_per_txn() == old(self).spec_max_locks_per_txn(),
            final(self).spec_next_txn_id() == old(self).spec_next_txn_id(),
    {
        self.release_locks(txn_id);
        let ghost mid = *self;
        self.txn_committed = self.txn_committed + 1;
        proof {
            assert(self.table() == mid.table());
            assert(forall|x: Seq<char>| #[trigger] self.lock_on(x) == mid.lock_on(x));
            if old(self).locks_listed() {
                Self::lemma_listed_after_release(*old(self), *self, txn_id);
            }
            if old(self).ids_fresh() {
                assert forall|t: u64, x: Seq<char>| #[trigger] self.holds(t, x) implies t < self.spec_next_txn_id() by {
                    assert(old(self).holds(t, x));
                }
                assert forall|t: u64| #[trigger] self.txn_resources().contains_key(t) implies t < self.spec_next_txn_id() by {
                    assert(old(self).txn_resources().contains_key(t));
                }
            }
        }
    }

    /// Aborts `txn_id`: every lock on its list is let go of.
    pub fn abort(&mut self, txn_id: u64)
        requires
            old(self).wf(),
            old(self).spec_txn_aborted() < usize::MAX,
        ensures
            final(self).wf(),
            forall|x: Seq<char>| #[trigger] final(self).lock_on(x) == if resources_in(
                old(self).txn_resources(),
                txn_id,
            ).contains(x) {
                released(old(self).lock_on(x), txn_id)
            } else {
                old(self).lock_on(x)
            },
            final(self).txn_resources() == old(self).txn_resources().remove(txn_id),
            old(self).ids_fresh() ==> final(self).ids_fresh(),
            old(self).locks_listed() ==> final(self).locks_listed() && forall|x: Seq<char>| !final(self).holds(txn_id, x),
            final(self).spec_txn_aborted() == old(self).spec_txn_aborted() + 1,
            final(self).spec_txn_committed() == old(self).spec_txn_committed(),
            final(self).spec_locks_acquired() == old(self).spec_locks_acquired(),
            final(self).spec_lock_waits() == old(self).spec_lock_waits(),
            final(self).spec_lock_upgrades() == old(self).spec_lock_upgrades(),
            final(self).spec_deadlocks_detected() == old(self).spec_deadlocks_detected(),
            final(self).spec_max_locks_per_txn() == old(self).spec_max_locks_per_txn(),
            final(self).spec_next_txn_id() == old(self).spec_next_txn_id(),
    {
        self.release_locks(txn_id);
        let ghost mid = *self;
        self.txn_aborted = self.txn_aborted + 1;
        proof {
            assert(self.table() == mid.table());
            assert(forall|x: Seq<char>| #[trigger] self.lock_on(x) == mid.lock_on(x));
            if old(self).locks_listed() {
                Self::lemma_listed_after_release(*old(self), *self, txn_id);
            }
            if old(self).ids_fresh() {
                assert forall|t: u64, x: Seq<char>| #[trigger] self.holds(t, x) implies t < self.spec_next_txn_id() by {
                    assert(old(self).holds(t, x));
                }
                assert forall|t: u64| #[trigger] self.txn_resources().contains_key(t) implies t < self.spec_next_txn_id() by {
                    assert(old(self).txn_resources().contains_key(t));
                }
            }
        }
    }

    /// Every holder and every transaction with a list of resources was
    /// begun: its id is below the next one.
    pub open spec fn ids_fresh(&self) -> bool {
        &&& forall|t: u64, r: Seq<char>| #[trigger] self.holds(t, r) ==> t < self.spec_next_txn_id()
        &&& forall|t: u64| #[trigger] self.txn_resources().contains_key(t) ==> t < self.spec_next_txn_id()
    }

    /// How many of the first `k` records of a batch begun in this state
    /// wait: those whose resource is locked here and not by an earlier
    /// record of the batch.
    pub open spec fn batch_waits(&self, ids: Seq<Option<JsonValue>>, k: int) -> nat
        decreases k,
    {
        if k <= 0 {
            0
        } else {
            let r = batch_resource(ids, self.spec_next_txn_id(), k - 1);
            self.batch_waits(ids, k - 1) + if self.lock_on(r) is Some && !locked_in_batch(ids, self.spec_next_txn_id(), k - 1, r) {
                1nat
            } else {
                0nat
            }
        }
    }

    /// The (resource, holder) pairs of the locks held.
    pub open spec fn held_pairs(&self) -> Set<(Seq<char>, u64)> {
        Set::new(|p: (Seq<char>, u64)| self.holds(p.1, p.0))
    }

    /// The locks held are counted by `active_locks`: one per resource and
    /// holder.
    pub proof fn lemma_active_locks(&self)
        requires
            self.wf(),
        ensures
            self.held_pairs().finite(),
            self.active_locks() == self.held_pairs().len(),
    {
        let t = self.table();
        assert forall|i: int| 0 <= i < t.len() implies (#[trigger] t[i]).2.no_duplicates() by {
            assert(row_ok(t[i]));
        }
        lemma_table_pairs_len(t);
        assert(self.held_pairs() =~= table_pairs(t)) by {
            assert forall|p: (Seq<char>, u64)| self.held_pairs().contains(p) implies table_pairs(t).contains(p) by {
                let i = row_index(t, p.0);
                assert(t[i].2.to_set().contains(p.1));
            }
            assert forall|p: (Seq<char>, u64)| table_pairs(t).contains(p) implies self.held_pairs().contains(p) by {
                let i = choose|i: int| 0 <= i < t.len() && t[i].0 == p.0 && #[trigger] t[i].2.contains(p.1);
                lemma_row_index(t, i);
                assert(t[i].2.to_set().contains(p.1));
            }
        }
    }

    /// The number of locks held, counting each holder of a shared lock.
    pub fn active_lock_count(&self) -> (n: usize)
        requires
            self.wf(),
            self.active_locks() <= usize::MAX,
        ensures
            n == self.active_locks(),
    {
        let mut n: usize = 0;
        let mut k: usize = 0;
        while k < self.lock_table.len()
            invariant
                0 <= k <= self.lock_table@.len(),
                self.table().len() == self.lock_table@.len(),
                holder_count(self.table()) <= usize::MAX,
                n == holder_count(self.table().subrange(0, k as int)),
            decreases self.lock_table@.len() - k,
        {
            proof {
                let t = self.table();
                assert(t.subrange(0, k as int + 1).drop_last() =~= t.subrange(0, k as int));
                lemma_holder_count_prefix(t, k as int + 1);
            }
            n = n + self.lock_table[k].holders.len();
            k = k + 1;
        }
        proof {
            assert(self.table().subrange(0, k as int) =~= self.table());
        }
        n
    }

    /// Sets the most locks one transaction is meant to hold.
    pub fn set_max_locks_per_txn(&mut self, n: usize)
        requires
            old(self).wf(),
        ensures
            final(self).wf(),
            final(self).spec_max_locks_per_txn() == n,
            final(self).table() == old(self).table(),
            final(self).txn_resources() == old(self).txn_resources(),
            final(self).spec_locks_acquired() == old(self).spec_locks_acquired(),
            final(self).spec_lock_waits() == old(self).spec_lock_waits(),
            final(self).spec_deadlocks_detected() == old(self).spec_deadlocks_detected(),
            final(self).spec_lock_upgrades() == old(self).spec_lock_upgrades(),
            final(self).spec_txn_committed() == old(self).spec_txn_committed(),
            final(self).spec_txn_aborted() == old(self).spec_txn_aborted(),
            final(self).spec_next_txn_id() == old(self).spec_next_txn_id(),
    {
        self.max_locks_per_txn = n;
    }

    #[verifier::when_used_as_spec(spec_max_locks_per_txn)]
    pub fn max_locks_per_txn(&self) -> (r: usize)
        ensures
            r == self.spec_max_locks_per_txn(),
    {
        self.max_locks_per_txn
    }

    /// The id the next transaction begun gets.
    pub fn next_txn_id(&self) -> (r: u64)
        ensures
            r == self.spec_next_txn_id(),
    {
        self.next_txn_id
    }

    /// Locks granted, at once or after a wait.
    #[verifier::when_used_as_spec(spec_locks_acquired)]
    pub fn locks_acquired(&self) -> (r: usize)
        ensures
            r == self.spec_locks_acquired(),
    {
        self.locks_acquired
    }

    /// Requests that had to wait.
    #[verifier::when_used_as_spec(spec_lock_waits)]
    pub fn lock_waits(&self) -> (r: usize)
        ensures
            r == self.spec_lock_waits(),
    {
        self.lock_waits
    }

    /// Deadlocks found.
    #[verifier::when_used_as_spec(spec_deadlocks_detected)]
    pub fn deadlocks_detected(&self) -> (r: usize)
        ensures
            r == self.spec_deadlocks_detected(),
    {
        self.deadlocks_detected
    }

    /// Shared locks turned exclusive.
    #[verifier::when_used_as_spec(spec_lock_upgrades)]
    pub fn lock_upgrades(&self) -> (r: usize)
        ensures
            r == self.spec_lock_upgrades(),
    {
        self.lock_upgrades
    }

    /// Transactions committed.
    #[verifier::when_used_as_spec(spec_txn_committed)]
    pub fn txn_committed(&self) -> (r: usize)
        ensures
            r == self.spec_txn_committed(),
    {
        self.txn_committed
    }

    /// Transactions aborted.
    #[verifier::when_used_as_spec(spec_txn_aborted)]
    pub fn txn_aborted(&self) -> (r: usize)
        ensures
            r == self.spec_txn_aborted(),
    {
        self.txn_aborted
    }

    /// Of every well-formed lock table: a locked resource has at least one
    /// holder, and an exclusive lock has exactly one.
    pub proof fn lemma_exclusive_lock_has_one_holder(&self, r: Seq<char>)
        requires
            self.wf(),
        ensures
            self.lock_on(r) matches Some((m, hs)) ==> hs.finite() && hs.len() >= 1 && (m
                == LockMode::Exclusive ==> hs.len() == 1),
    {
        let t = self.table();
        if has_row(t, r) {
            let i = row_index(t, r);
            assert(row_ok(t[i]));
            t[i].2.unique_seq_to_set();
        }
    }

    proof fn lemma_listed_after_acquire(a: Self, b: Self, txn: u64, res: Seq<char>, mode: LockMode)
        requires
            a.locks_listed(),
            forall|x: Seq<char>| #[trigger] b.lock_on(x) == if x == res {
                lock_after(a.lock_on(res), txn, mode)
            } else {
                a.lock_on(x)
            },
            b.txn_resources() == if is_new_holder(a.lock_on(res), txn) {
                a.txn_resources().insert(txn, resources_in(a.txn_resources(), txn).push(res))
            } else {
                a.txn_resources()
            },
        ensures
            b.locks_listed(),
    {
        let ma = a.txn_resources();
        assert forall|t: u64, x: Seq<char>| #[trigger] b.holds(t, x) implies resources_in(b.txn_resources(), t).contains(x) by {
            let pushed = resources_in(ma, txn).push(res);
            assert(pushed[pushed.len() - 1] == res);
            if is_new_holder(a.lock_on(res), txn) && t == txn {
                assert(resources_in(b.txn_resources(), t) == pushed);
                if x != res {
                    assert(a.holds(t, x));
                    let j = choose|j: int| 0 <= j < resources_in(ma, t).len() && #[trigger] resources_in(ma, t)[j] == x;
                    assert(pushed[j] == x);
                }
            } else {
                assert(resources_in(b.txn_resources(), t) == resources_in(ma, t));
                if x != res {
                    assert(a.holds(t, x));
                } else {
                    assert(a.holds(t, x));
                }
            }
        }
    }

    proof fn lemma_listed_after_release(a: Self, b: Self, txn: u64)
        requires
            a.locks_listed(),
            forall|x: Seq<char>| #[trigger] b.lock_on(x) == if resources_in(a.txn_resources(), txn).contains(x) {
                released(a.lock_on(x), txn)
            } else {
                a.lock_on(x)
            },
            b.txn_resources() == a.txn_resources().remove(txn),
        ensures
            b.locks_listed(),
            forall|x: Seq<char>| !b.holds(txn, x),
    {
        assert forall|x: Seq<char>| !b.holds(txn, x) by {
            if b.holds(txn, x) && !resources_in(a.txn_resources(), txn).contains(x) {
                assert(a.holds(txn, x));
            }
        }
        assert forall|t: u64, x: Seq<char>| #[trigger] b.holds(t, x) implies resources_in(b.txn_resources(), t).contains(x) by {
            assert(t != txn);
            assert(resources_in(b.txn_resources(), t) == resources_in(a.txn_resources(), t));
            assert(a.holds(t, x));
        }
    }

    /// Runs one transaction per record: it takes an exclusive lock on the
    /// record's resource (the JSON text of the record's id, or
    /// `row_<txn>` where it has none), then commits if the lock came, granted or after a wait, and
    /// aborts on a deadlock. The result says of each record whether its
    /// transaction committed; with one transaction at a time, every one
    /// does.
    pub fn lock_records(&mut self, resource_ids: &Vec<Option<JsonValue>>) -> (committed: Vec<bool>)
        requires
            old(self).wf(),
            old(self).spec_next_txn_id() + resource_ids@.len() < u64::MAX,
            old(self).spec_locks_acquired() + resource_ids@.len() < usize::MAX,
            old(self).spec_lock_waits() + resource_ids@.len() < usize::MAX,
            old(self).spec_lock_upgrades() + resource_ids@.len() < usize::MAX,
            old(self).spec_txn_committed() + resource_ids@.len() <= usize::MAX,
        ensures
            final(self).wf(),
            committed@ == Seq::new(resource_ids@.len(), |i: int| true),
            final(self).spec_txn_committed() == old(self).spec_txn_committed() + resource_ids@.len(),
            final(self).spec_txn_aborted() == old(self).spec_txn_aborted(),
            final(self).spec_deadlocks_detected() == old(self).spec_deadlocks_detected(),
            final(self).spec_next_txn_id() == old(self).spec_next_txn_id() + resource_ids@.len(),
            old(self).locks_listed() && old(self).ids_fresh() ==> {
                &&& final(self).locks_listed()
                &&& final(self).ids_fresh()
                &&& final(self).spec_locks_acquired() == old(self).spec_locks_acquired() + resource_ids@.len()
                &&& final(self).spec_lock_waits() == old(self).spec_lock_waits() + old(self).batch_waits(resource_ids@, resource_ids@.len() as int)
                &&& final(self).spec_lock_upgrades() == old(self).spec_lock_upgrades()
                &&& forall|r: Seq<char>| #[trigger] final(self).lock_on(r) == if locked_in_batch(
                    resource_ids@,
                    old(self).spec_next_txn_id(),
                    resource_ids@.len() as int,
                    r,
                ) {
                    None
                } else {
                    old(self).lock_on(r)
                }
            },
    {
        let mut committed: Vec<bool> = Vec::new();
        let mut k: usize = 0;
        while k < resource_ids.len()
            invariant
                self.wf(),
                0 <= k <= resource_ids@.len(),
                committed@ == Seq::new(k as nat, |i: int| true),
                self.spec_next_txn_id() == old(self).spec_next_txn_id() + k,
                self.spec_locks_acquired() <= old(self).spec_locks_acquired() + k,
                self.spec_lock_waits() <= old(self).spec_lock_waits() + k,
                self.spec_lock_upgrades() <= old(self).spec_lock_upgrades() + k,
                self.spec_txn_committed() == old(self).spec_txn_committed() + k,
                self.spec_txn_aborted() == old(self).spec_txn_aborted(),
                self.spec_deadlocks_detected() == old(self).spec_deadlocks_detected(),
                old(self).spec_next_txn_id() + resource_ids@.len() < u64::MAX,
                old(self).spec_locks_acquired() + resource_ids@.len() < usize::MAX,
                old(self).spec_lock_waits() + resource_ids@.len() < usize::MAX,
                old(self).spec_lock_upgrades() + resource_ids@.len() < usize::MAX,
                old(self).spec_txn_committed() + resource_ids@.len() <= usize::MAX,
                old(self).locks_listed() && old(self).ids_fresh() ==> {
                    &&& self.locks_listed()
                    &&& self.ids_fresh()
                    &&& self.spec_locks_acquired() == old(self).spec_locks_acquired() + k
                    &&& self.spec_lock_waits() == old(self).spec_lock_waits() + old(self).batch_waits(resource_ids@, k as int)
                    &&& self.spec_lock_upgrades() == old(self).spec_lock_upgrades()
                    &&& forall|r: Seq<char>| #[trigger] self.lock_on(r) == if locked_in_batch(
                        resource_ids@,
                        old(self).spec_next_txn_id(),
                        k as int,
                        r,
                    ) {
                        None
                    } else {
                        old(self).lock_on(r)
                    }
                },
            decreases resource_ids@.len() - k,
        {
            let ghost s0 = *self;
            let txn_id = self.begin_txn();
            let ghost s1 = *self;
            let resource = match &resource_ids[k] {
                Some(id) => json_text(id),
                None => {
                    proof {
                        reveal_strlit("row_");
                    }
                    String::from_str("row_").concat(decimal_string(txn_id).as_str())
                },
            };
            let ghost n0 = old(self).spec_next_txn_id();
            let ghost res = resource@;
            proof {
                assert(res == batch_resource(resource_ids@, n0, k as int));
                if old(self).locks_listed() && old(self).ids_fresh() {
                    assert(!s0.txn_resources().contains_key(txn_id));
                    assert(s1.locks_listed());
                    assert(s1.lock_on(res) == s0.lock_on(res));
                    assert(!s0.holds(txn_id, res));
                }
            }
            let result = self.acquire_lock(txn_id, resource.as_str(), LockMode::Exclusive);
            let ghost s2 = *self;
            match result {
                LockResult::Granted | LockResult::Waited => {
                    self.commit(txn_id);
                    committed.push(true);
                },
                LockResult::Deadlock => {
                    self.abort(txn_id);
                    committed.push(false);
                },
            }
            proof {
                assert(committed@ =~= Seq::new(k as nat + 1, |i: int| true));
                if old(self).locks_listed() && old(self).ids_fresh() {
                    let n0 = old(self).spec_next_txn_id();
                    assert(resources_in(s2.txn_resources(), txn_id) =~= seq![res]);
                    assert(seq![res][0] == res);
                    assert(seq![res].contains(res));
                    assert(s2.lock_on(res) == Some((LockMode::Exclusive, set![txn_id])));
                    assert(set![txn_id].remove(txn_id) =~= Set::<u64>::empty());
                    assert(self.lock_on(res) is None);
                    assert forall|r: Seq<char>| #[trigger] self.lock_on(r) == if locked_in_batch(resource_ids@, n0, k + 1, r) {
                        None
                    } else {
                        old(self).lock_on(r)
                    } by {
                        if r != res {
                            assert(!seq![res].contains(r));
                            assert(self.lock_on(r) == s0.lock_on(r));
                            if locked_in_batch(resource_ids@, n0, k + 1, r) {
                                let j = choose|j: int| 0 <= j < k + 1 && #[trigger] batch_resource(resource_ids@, n0, j) == r;
                                assert(j < k);
                            }
                        } else {
                            assert(batch_resource(resource_ids@, n0, k as int) == r);
                        }
                    }
                    assert forall|t: u64, r: Seq<char>| #[trigger] self.holds(t, r) implies t < self.spec_next_txn_id() by {
                        if r != res {
                            assert(s0.holds(t, r));
                        }
                    }
                    assert forall|t: u64| #[trigger] self.txn_resources().contains_key(t) implies t < self.spec_next_txn_id() by {
                        assert(s0.txn_resources().contains_key(t) || t == txn_id);
                    }
                    assert(old(self).batch_waits(resource_ids@, k + 1) == old(self).batch_waits(resource_ids@, k as int) + if old(self).lock_on(res) is Some && !locked_in_batch(resource_ids@, n0, k as int, res) {
                        1nat
                    } else {
                        0nat
                    });
                }
            }
            k = k + 1;
        }
        committed
    }

    /// Every counter and setting is as in `other`.
    pub open spec fn same_counters(&self, other: Self) -> bool {
        &&& self.spec_max_locks_per_txn() == other.spec_max_locks_per_txn()
        &&& self.spec_locks_acquired() == other.spec_locks_acquired()
        &&& self.spec_lock_waits() == other.spec_lock_waits()
        &&& self.spec_deadlocks_detected() == other.spec_deadlocks_detected()
        &&& self.spec_lock_upgrades() == other.spec_lock_upgrades()
        &&& self.spec_txn_committed() == other.spec_txn_committed()
        &&& self.spec_txn_aborted() == other.spec_txn_aborted()
    }
}

impl RowLockBlock {
    fn build_documentation() -> (d: BlockDocumentation)
        ensures
            d.overview@ == "Two-phase locking (2PL) is the classic concurrency control protocol. \
                           Transactions acquire locks before accessing data (growing phase) and \
                           release all locks at once when they finish (shrinking phase). Strict \
                           2PL holds locks until commit, preventing cascading aborts."@,
            d.algorithm@ == "Lock request: check lock table. If compatible (S+S), grant. If \
                            incompatible (S+X or X+any), add to wait-for graph and check for \
                            cycles. If cycle detected, abort the requesting transaction. On \
                            commit, release all locks held by the transaction."@,
            d.motivation@ == Seq::<char>::empty(),
            d.complexity.time@ == "Lock acquire O(1), deadlock check O(V+E) in wait-for graph"@,
            d.complexity.space@ == "O(L) for lock table + O(T²) worst-case for wait-for graph"@,
            d.use_cases@.len() == 3,
            d.use_cases@[0]@ == "OLTP workloads with row-level locking"@,
            d.use_cases@[1]@ == "Serializable isolation level"@,
            d.use_cases@[2]@ == "Short transactions accessing few rows"@,
            d.tradeoffs@.len() == 4,
            d.tradeoffs@[0]@ == "Guarantees serializability but can cause deadlocks"@,
            d.tradeoffs@[1]@ == "Lock overhead per row access"@,
            d.tradeoffs@[2]@ == "Long transactions hold locks longer, reducing concurrency"@,
            d.tradeoffs@[3]@ == "Deadlock detection adds overhead but prevents indefinite waits"@,
            d.examples@.len() == 2,
            d.examples@[0]@ == "MySQL InnoDB row locks"@,
            d.examples@[1]@ == "PostgreSQL row-level locks (FOR UPDATE, FOR SHARE)"@,
            d.suggested_questions@.len() == 0,
            d.parameter_guide@.len() == 0,
            d.alternatives@.len() == 0,
    {
        let mut use_cases: Vec<String> = Vec::new();
        use_cases.push(String::from_str("OLTP workloads with row-level locking"));
        use_cases.push(String::from_str("Serializable isolation level"));
        use_cases.push(String::from_str("Short transactions accessing few rows"));
        let mut tradeoffs: Vec<String> = Vec::new();
        tradeoffs.push(String::from_str("Guarantees serializability but can cause deadlocks"));
        tradeoffs.push(String::from_str("Lock overhead per row access"));
        tradeoffs.push(String::from_str("Long transactions hold locks longer, reducing concurrency"));
        tradeoffs.push(String::from_str("Deadlock detection adds overhead but prevents indefinite waits"));
        let mut examples: Vec<String> = Vec::new();
        examples.push(String::from_str("MySQL InnoDB row locks"));
        examples.push(String::from_str("PostgreSQL row-level locks (FOR UPDATE, FOR SHARE)"));
        let mut suggested_questions: Vec<String> = Vec::new();
        let mut parameter_guide: Vec<(String, String)> = Vec::new();
        let mut alternatives: Vec<Alternative> = Vec::new();
        BlockDocumentation {
            overview: String::from_str("Two-phase locking (2PL) is the classic concurrency control protocol. \
                           Transactions acquire locks before accessing data (growing phase) and \
                           release all locks at once when they finish (shrinking phase). Strict \
                           2PL holds locks until commit, preventing cascading aborts."),
            algorithm: String::from_str("Lock request: check lock table. If compatible (S+S), grant. If \
                            incompatible (S+X or X+any), add to wait-for graph and check for \
                            cycles. If cycle detected, abort the requesting transaction. On \
                            commit, release all locks held by the transaction."),
            complexity: Complexity { time: String::from_str("Lock acquire O(1), deadlock check O(V+E) in wait-for graph"), space: String::from_str("O(L) for lock table + O(T²) worst-case for wait-for graph") },
            use_cases,
            tradeoffs,
            examples,
            motivation: String::new(),
            parameter_guide,
            alternatives,
            suggested_questions,
        }
    }

    fn build_references() -> (r: Vec<Reference>)
        ensures
            r@.len() == 1,
            r@[0].ref_type == ReferenceType::Paper,
            r@[0].title@ == "The Notions of Consistency and Predicate Locks"@,
            r@[0].url is None,
            r@[0].citation matches Some(t) && t@ == "Eswaran, K.P. et al. (1976). CACM, 19(11), 624–633."@,
    {
        let mut r: Vec<Reference> = Vec::new();
        r.push(Reference { ref_type: ReferenceType::Paper, title: String::from_str("The Notions of Consistency and Predicate Locks"), url: None, citation: Some(String::from_str("Eswaran, K.P. et al. (1976). CACM, 19(11), 624–633.")) });
        r
    }

    fn build_metadata() -> (m: BlockMetadata)
        ensures
            m.documentation.overview@ == "Two-phase locking (2PL) is the classic concurrency control protocol. \
                           Transactions acquire locks before accessing data (growing phase) and \
                           release all locks at once when they finish (shrinking phase). Strict \
                           2PL holds locks until commit, preventing cascading aborts."@,
            m.references@.len() == 1,
            m.id@ == "row-lock-2pl"@,
            m.category == BlockCategory::Concurrency,
            m.name@ == "Row Lock (2PL)"@,
            m.description@ == "Strict two-phase locking with deadlock detection"@,
            m.version@ == "1.0.0"@,
            m.icon@ == "lock"@,
            m.color@ == "#EF4444"@,
    {
        BlockMetadata::new(
            "row-lock-2pl",
            "Row Lock (2PL)",
            BlockCategory::Concurrency,
            "Strict two-phase locking with deadlock detection",
            "lock",
            "#EF4444",
            Self::build_documentation(),
            Self::build_references(),
        )
    }

    fn build_inputs() -> (p: Vec<Port>)
        ensures
            p@.len() == 1,
            p@[0].id@ == "records"@,
    {
        let mut p: Vec<Port> = Vec::new();
        p.push(
            Port::new(
                "records",
                "Records",
                PortDirection::Input,
                true,
                false,
                "Records to process with locking",
            ),
        );
        p
    }

    fn build_outputs() -> (p: Vec<Port>)
        ensures
            p@.len() == 1,
            p@[0].id@ == "committed"@,
    {
        let mut p: Vec<Port> = Vec::new();
        p.push(
            Port::new(
                "committed",
                "Committed Records",
                PortDirection::Output,
                false,
                true,
                "Records from successfully committed transactions",
            ),
        );
        p
    }

    fn build_metrics() -> (v: Vec<MetricDefinition>)
        ensures
            v@.len() == 7,
            v@[0].id@ == "locks_acquired"@,
            v@[1].id@ == "lock_waits"@,
            v@[2].id@ == "deadlocks_detected"@,
            v@[3].id@ == "lock_upgrades"@,
            v@[4].id@ == "active_locks"@,
            v@[5].id@ == "transactions_committed"@,
            v@[6].id@ == "transactions_aborted"@,
    {
        let mut v: Vec<MetricDefinition> = Vec::new();
        v.push(
            MetricDefinition::new(
                "locks_acquired",
                "Locks Acquired",
                MetricType::Counter,
                "locks",
                "Total locks granted",
                AggregationType::Sum,
            ),
        );
        v.push(
            MetricDefinition::new(
                "lock_waits",
                "Lock Waits",
                MetricType::Counter,
                "waits",
                "Lock requests that had to wait",
                AggregationType::Sum,
            ),
        );
        v.push(
            MetricDefinition::new(
                "deadlocks_detected",
                "Deadlocks",
                MetricType::Counter,
                "deadlocks",
                "Deadlock cycles detected",
                AggregationType::Sum,
            ),
        );
        v.push(
            MetricDefinition::new(
                "lock_upgrades",
                "Lock Upgrades",
                MetricType::Counter,
                "upgrades",
                "Shared to exclusive lock upgrades",
                AggregationType::Sum,
            ),
        );
        v.push(
            MetricDefinition::new(
                "active_locks",
                "Active Locks",
                MetricType::Gauge,
                "locks",
                "Currently held locks",
                AggregationType::Max,
            ),
        );
        v.push(
            MetricDefinition::new(
                "transactions_committed",
                "Committed",
                MetricType::Counter,
                "txns",
                "Successfully committed transactions",
                AggregationType::Sum,
            ),
        );
        v.push(
            MetricDefinition::new(
                "transactions_aborted",
                "Aborted",
                MetricType::Counter,
                "txns",
                "Aborted transactions (deadlock or error)",
                AggregationType::Sum,
            ),
        );
        v
    }

    /// What the block says about itself.
    pub fn metadata(&self) -> (m: &BlockMetadata)
        ensures
            m == self.spec_metadata(),
    {
        &self.metadata
    }

    pub closed spec fn spec_metadata(&self) -> BlockMetadata {
        self.metadata
    }

    /// The block's input ports.
    pub fn inputs(&self) -> (p: &Vec<Port>)
        ensures
            p == self.spec_inputs(),
    {
        &self.input_ports
    }

    pub closed spec fn spec_inputs(&self) -> Vec<Port> {
        self.input_ports
    }

    /// The block's output ports.
    pub fn outputs(&self) -> (p: &Vec<Port>)
        ensures
            p == self.spec_outputs(),
    {
        &self.output_ports
    }

    pub closed spec fn spec_outputs(&self) -> Vec<Port> {
        self.output_ports
    }

    /// The metrics the block reports.
    pub fn metrics(&self) -> (m: &Vec<MetricDefinition>)
        ensures
            m == self.spec_metrics(),
    {
        &self.metric_defs
    }

    pub closed spec fn spec_metrics(&self) -> Vec<MetricDefinition> {
        self.metric_defs
    }
}


} // verus!
