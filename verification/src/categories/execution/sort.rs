//! Sort Block
//!
//! Orders rows by a sort key, ascending or descending, keeping rows with
//! equal keys in their input order. Inputs larger than the memory limit
//! are sorted externally: split into runs of at most the limit, each run
//! sorted on its own, then the runs merged by repeatedly taking the
//! smallest head.
use vstd::multiset::Multiset;
use vstd::prelude::*;
use vstd::string::*;

use crate::common::block::{Alternative, BlockCategory, BlockDocumentation, BlockMetadata, Complexity, Reference, ReferenceType};
use crate::common::metrics::{AggregationType, MetricDefinition, MetricType};
use crate::common::port::{Port, PortDirection};

verus! {

broadcast use {vstd::seq_lib::group_to_multiset_ensures, vstd::multiset::group_multiset_axioms};

/// A row being sorted: its rank (the key, negated for a descending sort)
/// and its input position.
pub type SortEntry = (i128, usize);

/// `a` comes no later than `b`: smaller rank, or equal rank and no later
/// position.
pub open spec fn entry_le(a: SortEntry, b: SortEntry) -> bool {
    a.0 < b.0 || (a.0 == b.0 && a.1 <= b.1)
}

pub open spec fn entries_sorted(s: Seq<SortEntry>) -> bool {
    forall|i: int, j: int| 0 <= i < j < s.len() ==> entry_le(#[trigger] s[i], #[trigger] s[j])
}

/// Sorts entries ascending through std's `sort`, which is stable and
/// orders tuples lexicographically: by rank, then by position. The
/// entries afterwards are the same entries, in that order.
#[verifier::external_body]
fn sort_entries(v: &mut Vec<SortEntry>)
    ensures
        final(v)@.to_multiset() == old(v)@.to_multiset(),
        entries_sorted(final(v)@),
{
    v.sort();
}

/// What remains of the first `k` runs once each run `r` has given up its
/// first `cur[r]` entries.
pub open spec fn remaining(runs: Seq<Seq<SortEntry>>, cur: Seq<usize>, k: int) -> Multiset<SortEntry>
    decreases k,
{
    if k <= 0 {
        Multiset::empty()
    } else {
        remaining(runs, cur, k - 1).add(runs[k - 1].skip(cur[k - 1] as int).to_multiset())
    }
}

proof fn lemma_remaining_step(runs: Seq<Seq<SortEntry>>, cur: Seq<usize>, r: int, k: int)
    requires
        0 <= r < runs.len(),
        runs.len() == cur.len(),
        cur[r] < runs[r].len() <= usize::MAX,
        0 <= k <= runs.len(),
    ensures
        remaining(runs, cur, k) == if r < k {
            remaining(runs, cur.update(r, (cur[r] + 1) as usize), k).insert(runs[r][cur[r] as int])
        } else {
            remaining(runs, cur.update(r, (cur[r] + 1) as usize), k)
        },
    decreases k,
{
    let c2 = cur.update(r, (cur[r] + 1) as usize);
    if k > 0 {
        lemma_remaining_step(runs, cur, r, k - 1);
        if k - 1 == r {
            let x = runs[r][cur[r] as int];
            let s = runs[r].skip(cur[r] as int);
            let s2 = runs[r].skip(cur[r] + 1);
            assert(c2[r] == cur[r] + 1);
            assert(runs[r].skip(c2[r] as int) == s2);
            assert(s =~= seq![x] + s2);
            vstd::seq_lib::lemma_multiset_commutative(seq![x], s2);
            assert(seq![x].to_multiset() =~= Multiset::<SortEntry>::empty().insert(x)) by {
                assert(seq![x] =~= Seq::<SortEntry>::empty().push(x));
            }
            assert(s.to_multiset() =~= s2.to_multiset().insert(x));
            assert(remaining(runs, cur, k - 1) == remaining(runs, c2, k - 1));
            assert(remaining(runs, cur, k) =~= remaining(runs, c2, k).insert(x));
        } else {
            assert(c2[k - 1] == cur[k - 1]);
            if r < k {
                assert(remaining(runs, cur, k) =~= remaining(runs, c2, k).insert(runs[r][cur[r] as int]));
            } else {
                assert(remaining(runs, cur, k) =~= remaining(runs, c2, k));
            }
        }
    }
}

proof fn lemma_remaining_empty(runs: Seq<Seq<SortEntry>>, cur: Seq<usize>, k: int)
    requires
        0 <= k <= runs.len(),
        runs.len() == cur.len(),
        forall|r: int| 0 <= r < k ==> cur[r] == runs[r].len(),
    ensures
        remaining(runs, cur, k) == Multiset::<SortEntry>::empty(),
    decreases k,
{
    if k > 0 {
        lemma_remaining_empty(runs, cur, k - 1);
        assert(runs[k - 1].skip(cur[k - 1] as int) =~= Seq::<SortEntry>::empty());
        assert(remaining(runs, cur, k) =~= Multiset::<SortEntry>::empty());
    }
}

/// Merges sorted runs by taking, again and again, the smallest head; on
/// equal heads the earlier run gives first.
fn merge_runs(runs: &Vec<Vec<SortEntry>>) -> (out: Vec<SortEntry>)
    requires
        forall|r: int| 0 <= r < runs@.len() ==> entries_sorted(#[trigger] runs@[r]@),
    ensures
        entries_sorted(out@),
        out@.to_multiset() == remaining(
            runs@.map_values(|v: Vec<SortEntry>| v@),
            Seq::new(runs@.len(), |i: int| 0usize),
            runs@.len() as int,
        ),
{
    let ghost rs = runs@.map_values(|v: Vec<SortEntry>| v@);
    let ghost total = remaining(rs, Seq::new(runs@.len(), |i: int| 0usize), runs@.len() as int);
    let mut cur: Vec<usize> = Vec::new();
    let mut i: usize = 0;
    while i < runs.len()
        invariant
            0 <= i <= runs@.len(),
            cur@ == Seq::new(i as nat, |k: int| 0usize),
        decreases runs@.len() - i,
    {
        cur.push(0);
        proof {
            assert(cur@ =~= Seq::new(i as nat + 1, |k: int| 0usize));
        }
        i = i + 1;
    }
    let mut out: Vec<SortEntry> = Vec::new();
    loop
        invariant_except_break
            rs == runs@.map_values(|v: Vec<SortEntry>| v@),
            forall|r: int| 0 <= r < rs.len() ==> entries_sorted(#[trigger] rs[r]),
            cur@.len() == rs.len(),
            forall|r: int| 0 <= r < rs.len() ==> #[trigger] cur@[r] <= rs[r].len(),
            out@.to_multiset().add(remaining(rs, cur@, rs.len() as int)) == total,
            entries_sorted(out@),
            forall|k: int, r: int, t: int|
                0 <= k < out@.len() && 0 <= r < rs.len() && cur@[r] <= t < rs[r].len() ==> entry_le(
                    #[trigger] out@[k],
                    #[trigger] rs[r][t],
                ),
        ensures
            entries_sorted(out@),
            out@.to_multiset() == total,
        decreases remaining(rs, cur@, rs.len() as int).len(),
    {
        let mut best: Option<usize> = None;
        let mut r: usize = 0;
        while r < runs.len()
            invariant
                rs == runs@.map_values(|v: Vec<SortEntry>| v@),
                cur@.len() == rs.len(),
                forall|q: int| 0 <= q < rs.len() ==> #[trigger] cur@[q] <= rs[q].len(),
                0 <= r <= rs.len(),
                match best {
                    Some(b) => b < r && cur@[b as int] < rs[b as int].len() && forall|q: int|
                        0 <= q < r && cur@[q] < rs[q].len() ==> entry_le(
                            rs[b as int][cur@[b as int] as int],
                            #[trigger] rs[q][cur@[q] as int],
                        ),
                    None => forall|q: int| 0 <= q < r ==> #[trigger] cur@[q] == rs[q].len(),
                },
            decreases rs.len() - r,
        {
            let c = cur[r];
            proof {
                assert(rs[r as int] == runs@[r as int]@);
            }
            if c < runs[r].len() {
                let head = runs[r][c];
                match best {
                    Some(b) => {
                        let bh = runs[b][cur[b]];
                        proof {
                            assert(rs[b as int] == runs@[b as int]@);
                        }
                        if head.0 < bh.0 || (head.0 == bh.0 && head.1 < bh.1) {
                            best = Some(r);
                        }
                    },
                    None => {
                        best = Some(r);
                    },
                }
            }
            r = r + 1;
        }
        match best {
            None => {
                proof {
                    lemma_remaining_empty(rs, cur@, rs.len() as int);
                    assert(out@.to_multiset() =~= total);
                }
                break;
            },
            Some(b) => {
                let c = cur[b];
                let lb = runs[b].len();
                let e = runs[b][c];
                proof {
                    assert(rs[b as int] == runs@[b as int]@);
                    assert(e == rs[b as int][c as int]);
                    assert(rs[b as int].len() == lb);
                    lemma_remaining_step(rs, cur@, b as int, rs.len() as int);
                    // The chosen head comes no later than anything left.
                    assert forall|q: int, t: int| 0 <= q < rs.len() && cur@[q] <= t < rs[q].len() implies entry_le(e, #[trigger] rs[q][t]) by {
                        assert(entries_sorted(rs[q]));
                        if cur@[q] < t {
                            assert(entry_le(rs[q][cur@[q] as int], rs[q][t]));
                        }
                    }
                }
                let ghost out0 = out@;
                let ghost cur0 = cur@;
                out.push(e);
                cur.set(b, c + 1);
                proof {
                    assert(cur@ == cur0.update(b as int, (cur0[b as int] + 1) as usize));
                    assert(out@.to_multiset() == out0.to_multiset().insert(e));
                    assert(out@.to_multiset().add(remaining(rs, cur@, rs.len() as int)) =~= total);
                    assert(entries_sorted(out@)) by {
                        assert forall|x: int, y: int| 0 <= x < y < out@.len() implies entry_le(#[trigger] out@[x], #[trigger] out@[y]) by {
                            if y == out0.len() {
                                assert(entry_le(out0[x], rs[b as int][c as int]));
                            } else {
                                assert(out@[x] == out0[x] && out@[y] == out0[y]);
                            }
                        }
                    }
                    assert forall|k: int, q: int, t: int|
                        0 <= k < out@.len() && 0 <= q < rs.len() && cur@[q] <= t < rs[q].len() implies entry_le(
                            #[trigger] out@[k],
                            #[trigger] rs[q][t],
                        ) by {
                        assert(cur0[q] <= cur@[q]);
                        if k < out0.len() {
                            assert(out@[k] == out0[k]);
                        }
                    }
                }
            },
        }
    }
    out
}

proof fn lemma_remaining_prefix(r1: Seq<Seq<SortEntry>>, c1: Seq<usize>, r2: Seq<Seq<SortEntry>>, c2: Seq<usize>, k: int)
    requires
        0 <= k <= r1.len(),
        0 <= k <= r2.len(),
        0 <= k <= c1.len(),
        0 <= k <= c2.len(),
        forall|r: int| 0 <= r < k ==> r1[r] == r2[r] && c1[r] == c2[r],
    ensures
        remaining(r1, c1, k) == remaining(r2, c2, k),
    decreases k,
{
    if k > 0 {
        lemma_remaining_prefix(r1, c1, r2, c2, k - 1);
    }
}

/// The rank a key sorts by: the key itself, or its negation for a
/// descending sort.
pub open spec fn rank(key: i64, descending: bool) -> i128 {
    if descending {
        (-(key as int)) as i128
    } else {
        key as i128
    }
}

/// Row `a` goes before row `b`: its key is smaller (larger, when
/// descending), or the keys are equal and `a` came first.
pub open spec fn sorts_before(keys: Seq<i64>, descending: bool, a: usize, b: usize) -> bool {
    if descending {
        keys[a as int] > keys[b as int] || (keys[a as int] == keys[b as int] && a < b)
    } else {
        keys[a as int] < keys[b as int] || (keys[a as int] == keys[b as int] && a < b)
    }
}

/// `order` lists every row position below `n` once, each before the
/// positions it sorts before.
pub open spec fn is_sorted_order(keys: Seq<i64>, descending: bool, order: Seq<usize>) -> bool {
    &&& order.len() == keys.len()
    &&& forall|k: int| 0 <= k < order.len() ==> #[trigger] order[k] < keys.len()
    &&& order.no_duplicates()
    &&& forall|k: int, l: int| 0 <= k < l < order.len() ==> sorts_before(keys, descending, #[trigger] order[k], #[trigger] order[l])
}

/// The entries to sort: each row's rank and position.
pub open spec fn entries_of(keys: Seq<i64>, descending: bool) -> Seq<SortEntry> {
    Seq::new(keys.len(), |i: int| (rank(keys[i], descending), i as usize))
}

proof fn lemma_order_from_entries(keys: Seq<i64>, descending: bool, out: Seq<SortEntry>)
    requires
        keys.len() <= usize::MAX,
        out.to_multiset() == entries_of(keys, descending).to_multiset(),
        entries_sorted(out),
    ensures
        is_sorted_order(keys, descending, out.map_values(|e: SortEntry| e.1)),
{
    let entries = entries_of(keys, descending);
    let order = out.map_values(|e: SortEntry| e.1);
    assert(out.len() == entries.len()) by {
        assert(out.to_multiset().len() == out.len());
        assert(entries.to_multiset().len() == entries.len());
    }
    assert forall|k: int| 0 <= k < out.len() implies #[trigger] out[k].1 < keys.len() && out[k].0 == rank(keys[out[k].1 as int], descending) by {
        assert(out.to_multiset().count(out[k]) > 0);
        assert(entries.to_multiset().count(out[k]) > 0);
        assert(entries.contains(out[k]));
        let i = choose|i: int| 0 <= i < entries.len() && entries[i] == out[k];
        assert(out[k] == (rank(keys[i], descending), i as usize));
    }
    assert(entries.no_duplicates()) by {
        assert forall|i: int, j: int| 0 <= i < entries.len() && 0 <= j < entries.len() && i != j implies entries[i] != entries[j] by {
            assert(entries[i].1 == i as usize && entries[j].1 == j as usize);
        }
    }
    entries.lemma_multiset_has_no_duplicates();
    out.lemma_multiset_has_no_duplicates_conv();
    assert forall|k: int| 0 <= k < order.len() implies #[trigger] order[k] < keys.len() by {
        assert(out[k].1 < keys.len());
    }
    assert(order.no_duplicates()) by {
        assert forall|k: int, l: int| 0 <= k < order.len() && 0 <= l < order.len() && k != l implies order[k] != order[l] by {
            assert(out[k].1 < keys.len() && out[l].1 < keys.len());
            if out[k].1 == out[l].1 {
                assert(out[k] == out[l]);
            }
        }
    }
    assert forall|k: int, l: int| 0 <= k < l < order.len() implies sorts_before(keys, descending, #[trigger] order[k], #[trigger] order[l]) by {
        assert(entry_le(out[k], out[l]));
        assert(out[k].1 < keys.len() && out[l].1 < keys.len());
        assert(out[k] != out[l]);
    }
}

/// The outcome of a sort: the row positions in sorted order, and how many
/// runs an external sort used (0 for a sort in memory).
pub struct SortResult {
    pub order: Vec<usize>,
    pub external_runs: usize,
}

/// Sorts rows by one column, in memory or externally.
pub struct SortBlock {
    metadata: BlockMetadata,
    input_ports: Vec<Port>,
    output_ports: Vec<Port>,
    metric_defs: Vec<MetricDefinition>,
    sort_column: String,
    descending: bool,
    memory_limit: usize,
}

impl SortBlock {
    pub closed spec fn spec_sort_column(&self) -> Seq<char> {
        self.sort_column@
    }

    pub closed spec fn spec_descending(&self) -> bool {
        self.descending
    }

    pub closed spec fn spec_memory_limit(&self) -> usize {
        self.memory_limit
    }

    pub fn new() -> (b: Self)
        ensures
            b.spec_sort_column() == "id"@,
            !b.spec_descending(),
            b.spec_memory_limit() == 10000,
            b.spec_metadata().id@ == "sort"@,
            b.spec_metadata().category == BlockCategory::Execution,
    {
        Self {
            metadata: Self::build_metadata(),
            input_ports: Self::build_inputs(),
            output_ports: Self::build_outputs(),
            metric_defs: Self::build_metrics(),
            sort_column: String::from_str("id"),
            descending: false,
            memory_limit: 10000,
        }
    }

    /// The column rows are sorted by.
    pub fn sort_column(&self) -> (r: &String)
        ensures
            r@ == self.spec_sort_column(),
    {
        &self.sort_column
    }

    #[verifier::when_used_as_spec(spec_descending)]
    pub fn descending(&self) -> (r: bool)
        ensures
            r == self.spec_descending(),
    {
        self.descending
    }

    /// The most rows sorted in memory.
    #[verifier::when_used_as_spec(spec_memory_limit)]
    pub fn memory_limit(&self) -> (r: usize)
        ensures
            r == self.spec_memory_limit(),
    {
        self.memory_limit
    }

    pub fn set_sort_column(&mut self, column: String)
        ensures
            final(self).spec_sort_column() == column@,
            final(self).spec_descending() == old(self).spec_descending(),
            final(self).spec_memory_limit() == old(self).spec_memory_limit(),
    {
        self.sort_column = column;
    }

    pub fn set_descending(&mut self, descending: bool)
        ensures
            final(self).spec_descending() == descending,
            final(self).spec_sort_column() == old(self).spec_sort_column(),
            final(self).spec_memory_limit() == old(self).spec_memory_limit(),
    {
        self.descending = descending;
    }

    pub fn set_memory_limit(&mut self, memory_limit: usize)
        ensures
            final(self).spec_memory_limit() == memory_limit,
            final(self).spec_sort_column() == old(self).spec_sort_column(),
            final(self).spec_descending() == old(self).spec_descending(),
    {
        self.memory_limit = memory_limit;
    }

    /// Sorts rows by their keys: `keys[i]` is row `i`'s key. Rows with
    /// equal keys keep their input order. More rows than the memory limit
    /// are sorted in runs of at most the limit, then merged.
    pub fn sort(&self, keys: &Vec<i64>) -> (r: SortResult)
        requires
            self.spec_memory_limit() > 0 || keys@.len() == 0,
        ensures
            is_sorted_order(keys@, self.spec_descending(), r.order@),
            r.external_runs == if keys@.len() > self.spec_memory_limit() {
                (keys@.len() + self.spec_memory_limit() - 1) / (self.spec_memory_limit() as int)
            } else {
                0
            },
    {
        let n = keys.len();
        let desc = self.descending;
        let ghost target = entries_of(keys@, desc);
        let mut entries: Vec<SortEntry> = Vec::new();
        let mut i: usize = 0;
        while i < n
            invariant
                n == keys@.len(),
                target == entries_of(keys@, desc),
                0 <= i <= n,
                entries@ == target.subrange(0, i as int),
            decreases n - i,
        {
            let k: i128 = keys[i] as i128;
            let rk: i128 = if desc { -k } else { k };
            entries.push((rk, i));
            proof {
                assert(entries@ =~= target.subrange(0, i as int + 1));
            }
            i = i + 1;
        }
        proof {
            assert(entries@ =~= target);
        }
        let limit = self.memory_limit;
        let mut runs_used: usize = 0;
        let merged: Vec<SortEntry>;
        if n > limit {
            runs_used = (n - 1) / limit + 1;
            proof {
                assert((n - 1) / (limit as int) + 1 == (n + limit - 1) / (limit as int)) by (nonlinear_arith)
                    requires limit > 0, n > limit;
            }
            let mut runs: Vec<Vec<SortEntry>> = Vec::new();
            let mut a: usize = 0;
            while a < n
                invariant
                    n == entries@.len(),
                    limit > 0,
                    0 <= a <= n,
                    forall|r: int| 0 <= r < runs@.len() ==> entries_sorted(#[trigger] runs@[r]@),
                    remaining(
                        runs@.map_values(|v: Vec<SortEntry>| v@),
                        Seq::new(runs@.len(), |q: int| 0usize),
                        runs@.len() as int,
                    ) == entries@.subrange(0, a as int).to_multiset(),
                decreases n - a,
            {
                let b = if n - a > limit { a + limit } else { n };
                let mut run: Vec<SortEntry> = Vec::new();
                let mut t: usize = a;
                while t < b
                    invariant
                        a <= t <= b <= n == entries@.len(),
                        run@ == entries@.subrange(a as int, t as int),
                    decreases b - t,
                {
                    run.push(entries[t]);
                    proof {
                        assert(run@ =~= entries@.subrange(a as int, t as int + 1));
                    }
                    t = t + 1;
                }
                sort_entries(&mut run);
                let ghost rs0 = runs@.map_values(|v: Vec<SortEntry>| v@);
                let ghost len0 = runs@.len();
                runs.push(run);
                proof {
                    let rs1 = runs@.map_values(|v: Vec<SortEntry>| v@);
                    let z0 = Seq::new(len0, |q: int| 0usize);
                    let z1 = Seq::new(len0 + 1, |q: int| 0usize);
                    lemma_remaining_prefix(rs1, z1, rs0, z0, len0 as int);
                    assert(rs1[len0 as int].skip(0) =~= rs1[len0 as int]);
                    assert(entries@.subrange(0, b as int) =~= entries@.subrange(0, a as int) + entries@.subrange(a as int, b as int));
                    vstd::seq_lib::lemma_multiset_commutative(entries@.subrange(0, a as int), entries@.subrange(a as int, b as int));
                }
                a = b;
            }
            proof {
                assert(entries@.subrange(0, a as int) =~= entries@);
            }
            merged = merge_runs(&runs);
        } else {
            sort_entries(&mut entries);
            merged = entries;
        }
        let mut order: Vec<usize> = Vec::new();
        let mut k: usize = 0;
        while k < merged.len()
            invariant
                0 <= k <= merged@.len(),
                order@ == merged@.map_values(|e: SortEntry| e.1).subrange(0, k as int),
            decreases merged@.len() - k,
        {
            order.push(merged[k].1);
            proof {
                assert(order@ =~= merged@.map_values(|e: SortEntry| e.1).subrange(0, k as int + 1));
            }
            k = k + 1;
        }
        proof {
            assert(order@ =~= merged@.map_values(|e: SortEntry| e.1));
            lemma_order_from_entries(keys@, desc, merged@);
        }
        SortResult { order, external_runs: runs_used }
    }
}

impl SortBlock {
    fn build_documentation() -> (d: BlockDocumentation)
        ensures
            d.overview@ == "A sort operator orders input records by a specified column. When \
                           the data fits in memory, a standard O(n log n) sort is used. For \
                           larger datasets, an external merge sort divides data into sorted \
                           runs that are merged."@,
            d.algorithm@ == "In-memory: standard sort (Rust's pdqsort). External: split input \
                            into sorted runs of memory_limit size, then k-way merge the runs."@,
            d.motivation@ == Seq::<char>::empty(),
            d.complexity.time@ == "O(n log n) in-memory, O(n log n × log(n/M)) external"@,
            d.complexity.space@ == "O(n) in-memory, O(M) external where M = memory limit"@,
            d.use_cases@.len() == 3,
            d.use_cases@[0]@ == "ORDER BY clause"@,
            d.use_cases@[1]@ == "Input to merge join"@,
            d.use_cases@[2]@ == "Top-K queries (with limit)"@,
            d.tradeoffs@.len() == 2,
            d.tradeoffs@[0]@ == "Blocking operator — must read all input before producing output"@,
            d.tradeoffs@[1]@ == "External sort is slower but handles arbitrarily large data"@,
            d.examples@.len() == 2,
            d.examples@[0]@ == "PostgreSQL Sort node"@,
            d.examples@[1]@ == "MySQL filesort"@,
            d.suggested_questions@.len() == 0,
            d.parameter_guide@.len() == 0,
            d.alternatives@.len() == 0,
    {
        let mut use_cases: Vec<String> = Vec::new();
        use_cases.push(String::from_str("ORDER BY clause"));
        use_cases.push(String::from_str("Input to merge join"));
        use_cases.push(String::from_str("Top-K queries (with limit)"));
        let mut tradeoffs: Vec<String> = Vec::new();
        tradeoffs.push(String::from_str("Blocking operator — must read all input before producing output"));
        tradeoffs.push(String::from_str("External sort is slower but handles arbitrarily large data"));
        let mut examples: Vec<String> = Vec::new();
        examples.push(String::from_str("PostgreSQL Sort node"));
        examples.push(String::from_str("MySQL filesort"));
        let mut suggested_questions: Vec<String> = Vec::new();
        let mut parameter_guide: Vec<(String, String)> = Vec::new();
        let mut alternatives: Vec<Alternative> = Vec::new();
        BlockDocumentation {
            overview: String::from_str("A sort operator orders input records by a specified column. When \
                           the data fits in memory, a standard O(n log n) sort is used. For \
                           larger datasets, an external merge sort divides data into sorted \
                           runs that are merged."),
            algorithm: String::from_str("In-memory: standard sort (Rust's pdqsort). External: split input \
                            into sorted runs of memory_limit size, then k-way merge the runs."),
            complexity: Complexity { time: String::from_str("O(n log n) in-memory, O(n log n × log(n/M)) external"), space: String::from_str("O(n) in-memory, O(M) external where M = memory limit") },
            use_cases,
            tradeoffs,
            examples,
            motivation: String::new(),
            parameter_guide,
            alternatives,
            suggested_questions,
        }
    }

    fn build_references() -> (r: Vec<Reference>)
        ensures
            r@.len() == 1,
            r@[0].ref_type == ReferenceType::Book,
            r@[0].title@ == "Database Internals by Alex Petrov — Chapter 6: Sorting"@,
            r@[0].url is None,
            r@[0].citation matches Some(t) && t@ == "Petrov, A. (2019). Database Internals. O'Reilly."@,
    {
        let mut r: Vec<Reference> = Vec::new();
        r.push(Reference { ref_type: ReferenceType::Book, title: String::from_str("Database Internals by Alex Petrov — Chapter 6: Sorting"), url: None, citation: Some(String::from_str("Petrov, A. (2019). Database Internals. O'Reilly.")) });
        r
    }

    fn build_metadata() -> (m: BlockMetadata)
        ensures
            m.documentation.overview@ == "A sort operator orders input records by a specified column. When \
                           the data fits in memory, a standard O(n log n) sort is used. For \
                           larger datasets, an external merge sort divides data into sorted \
                           runs that are merged."@,
            m.references@.len() == 1,
            m.id@ == "sort"@,
            m.category == BlockCategory::Execution,
            m.name@ == "Sort"@,
            m.description@ == "Sort records by a column with in-memory or external sort"@,
            m.version@ == "1.0.0"@,
            m.icon@ == "arrow-up-down"@,
            m.color@ == "#6366F1"@,
    {
        BlockMetadata::new(
            "sort",
            "Sort",
            BlockCategory::Execution,
            "Sort records by a column with in-memory or external sort",
            "arrow-up-down",
            "#6366F1",
            Self::build_documentation(),
            Self::build_references(),
        )
    }

    fn build_inputs() -> (p: Vec<Port>)
        ensures
            p@.len() == 1,
            p@[0].id@ == "records"@,
    {
        let mut p: Vec<Port> = Vec::new();
        p.push(
            Port::new(
                "records",
                "Records",
                PortDirection::Input,
                true,
                false,
                "Records to sort",
            ),
        );
        p
    }

    fn build_outputs() -> (p: Vec<Port>)
        ensures
            p@.len() == 1,
            p@[0].id@ == "sorted"@,
    {
        let mut p: Vec<Port> = Vec::new();
        p.push(
            Port::new(
                "sorted",
                "Sorted Records",
                PortDirection::Output,
                false,
                true,
                "Records in sorted order",
            ),
        );
        p
    }

    fn build_metrics() -> (v: Vec<MetricDefinition>)
        ensures
            v@.len() == 4,
            v@[0].id@ == "rows_sorted"@,
            v@[1].id@ == "comparisons"@,
            v@[2].id@ == "external_runs"@,
            v@[3].id@ == "sort_type"@,
    {
        let mut v: Vec<MetricDefinition> = Vec::new();
        v.push(
            MetricDefinition::new(
                "rows_sorted",
                "Rows Sorted",
                MetricType::Counter,
                "rows",
                "Total rows sorted",
                AggregationType::Sum,
            ),
        );
        v.push(
            MetricDefinition::new(
                "comparisons",
                "Comparisons",
                MetricType::Counter,
                "ops",
                "Key comparisons made",
                AggregationType::Sum,
            ),
        );
        v.push(
            MetricDefinition::new(
                "external_runs",
                "External Runs",
                MetricType::Gauge,
                "runs",
                "Merge runs for external sort",
                AggregationType::Max,
            ),
        );
        v.push(
            MetricDefinition::new(
                "sort_type",
                "Sort Type",
                MetricType::Gauge,
                "",
                "0 = in-memory, 1 = external",
                AggregationType::Max,
            ),
        );
        v
    }

    /// What the block says about itself.
    pub fn metadata(&self) -> (m: &BlockMetadata)
        ensures
            m == self.spec_metadata(),
    {
        &self.metadata
    }

    pub closed spec fn spec_metadata(&self) -> BlockMetadata {
        self.metadata
    }

    /// The block's input ports.
    pub fn inputs(&self) -> (p: &Vec<Port>)
        ensures
            p == self.spec_inputs(),
    {
        &self.input_ports
    }

    pub closed spec fn spec_inputs(&self) -> Vec<Port> {
        self.input_ports
    }

    /// The block's output ports.
    pub fn outputs(&self) -> (p: &Vec<Port>)
        ensures
            p == self.spec_outputs(),
    {
        &self.output_ports
    }

    pub closed spec fn spec_outputs(&self) -> Vec<Port> {
        self.output_ports
    }

    /// The metrics the block reports.
    pub fn metrics(&self) -> (m: &Vec<MetricDefinition>)
        ensures
            m == self.spec_metrics(),
    {
        &self.metric_defs
    }

    pub closed spec fn spec_metrics(&self) -> Vec<MetricDefinition> {
        self.metric_defs
    }
}


} // verus!
