//! Hash Join Block
//!
//! An equi-join in two phases: the build side is hashed into buckets by
//! its join key, then each probe row looks up its bucket and pairs with
//! every build row whose key is equal (a shared hash alone is not enough).
//! A key is the text of the join column's value.
use serde_json::Value as JsonValue;
use std::collections::HashMap;
use vstd::prelude::*;
use vstd::string::*;

use crate::common::block::{Alternative, BlockCategory, BlockDocumentation, BlockMetadata, Complexity, Reference, ReferenceType};
use crate::common::json::{json_bytes, json_text_bytes};
use crate::common::fnv::{fnv1a_bytes, fnv1a_from, fnv_offset};
use crate::common::metrics::{AggregationType, MetricDefinition, MetricType};
use crate::common::port::{Port, PortDirection};

verus! {

broadcast use vstd::std_specs::hash::group_hash_axioms;

/// 64-bit FNV-1a over `bytes`.
pub open spec fn fnv1a(bytes: Seq<u8>) -> u64 {
    fnv1a_from(fnv_offset(), bytes)
}

/// The 64-bit FNV-1a hash of a key's bytes.
pub fn hash_bytes(key: &Vec<u8>) -> (h: u64)
    ensures
        h == fnv1a(key@),
{
    fnv1a_bytes(14695981039346656037, key.as_slice())
}

/// 64-bit FNV-1a over the JSON text of `v`.
pub fn hash_value(v: &JsonValue) -> (h: u64)
    ensures
        h == fnv1a(json_text_bytes(*v)),
{
    hash_bytes(&json_bytes(v))
}

/// The keys as byte sequences.
pub open spec fn key_seqs(keys: Seq<Vec<u8>>) -> Seq<Seq<u8>> {
    keys.map_values(|k: Vec<u8>| k@)
}

/// Positions below `n` of the build keys that hash to `h`, ascending.
pub open spec fn bucket(b: Seq<Seq<u8>>, h: u64, n: int) -> Seq<usize>
    decreases n,
{
    if n <= 0 {
        Seq::empty()
    } else if fnv1a(b[n - 1]) == h {
        bucket(b, h, n - 1).push((n - 1) as usize)
    } else {
        bucket(b, h, n - 1)
    }
}

/// Positions below `n` of the build keys equal to `key`, ascending.
pub open spec fn key_hits(b: Seq<Seq<u8>>, key: Seq<u8>, n: int) -> Seq<usize>
    decreases n,
{
    if n <= 0 {
        Seq::empty()
    } else if b[n - 1] == key {
        key_hits(b, key, n - 1).push((n - 1) as usize)
    } else {
        key_hits(b, key, n - 1)
    }
}

/// The entries among the first `t` of `l` whose build key equals `key`.
pub open spec fn select_equal(b: Seq<Seq<u8>>, key: Seq<u8>, l: Seq<usize>, t: int) -> Seq<usize>
    decreases t,
{
    if t <= 0 {
        Seq::empty()
    } else if b[l[t - 1] as int] == key {
        select_equal(b, key, l, t - 1).push(l[t - 1])
    } else {
        select_equal(b, key, l, t - 1)
    }
}

/// The joined pairs (build position, probe position) for the first `m`
/// probe keys: probe rows in order, and for each the equal build rows in
/// order.
pub open spec fn join_pairs(b: Seq<Seq<u8>>, p: Seq<Seq<u8>>, m: int) -> Seq<(usize, usize)>
    decreases m,
{
    if m <= 0 {
        Seq::empty()
    } else {
        join_pairs(b, p, m - 1) + key_hits(b, p[m - 1], b.len() as int).map_values(
            |i: usize| (i, (m - 1) as usize),
        )
    }
}

/// The distinct hashes of the build keys.
pub open spec fn build_hashes(b: Seq<Seq<u8>>) -> Set<u64> {
    b.map_values(|k: Seq<u8>| fnv1a(k)).to_set()
}

proof fn lemma_bucket_bounds(b: Seq<Seq<u8>>, h: u64, n: int)
    requires
        0 <= n <= b.len(),
    ensures
        forall|t: int| 0 <= t < bucket(b, h, n).len() ==> #[trigger] bucket(b, h, n)[t] < n,
        bucket(b, h, n).len() > 0 <==> exists|i: int| 0 <= i < n && fnv1a(#[trigger] b[i]) == h,
    decreases n,
{
    if n > 0 {
        lemma_bucket_bounds(b, h, n - 1);
        if fnv1a(b[n - 1]) != h {
            assert forall|i: int| 0 <= i < n && fnv1a(#[trigger] b[i]) == h implies i < n - 1 by {}
        }
    }
}

proof fn lemma_select_prefix(b: Seq<Seq<u8>>, key: Seq<u8>, l: Seq<usize>, x: usize, t: int)
    requires
        0 <= t <= l.len(),
    ensures
        select_equal(b, key, l.push(x), t) == select_equal(b, key, l, t),
    decreases t,
{
    if t > 0 {
        lemma_select_prefix(b, key, l, x, t - 1);
        assert(l.push(x)[t - 1] == l[t - 1]);
    }
}

/// Picking the equal keys out of a key's hash bucket finds exactly the
/// equal keys.
proof fn lemma_select_bucket(b: Seq<Seq<u8>>, key: Seq<u8>, n: int)
    requires
        0 <= n <= b.len(),
        n <= usize::MAX,
    ensures
        select_equal(b, key, bucket(b, fnv1a(key), n), bucket(b, fnv1a(key), n).len() as int)
            == key_hits(b, key, n),
    decreases n,
{
    if n > 0 {
        lemma_select_bucket(b, key, n - 1);
        let l = bucket(b, fnv1a(key), n - 1);
        let x = (n - 1) as usize;
        if fnv1a(b[n - 1]) == fnv1a(key) {
            lemma_select_prefix(b, key, l, x, l.len() as int);
            assert(l.push(x)[l.len() as int] == x);
            assert(bucket(b, fnv1a(key), n) == l.push(x));
            assert(x as int == n - 1);
            if b[n - 1] == key {
                assert(select_equal(b, key, l.push(x), l.len() as int + 1) == select_equal(b, key, l.push(x), l.len() as int).push(x));
            } else {
                assert(select_equal(b, key, l.push(x), l.len() as int + 1) == select_equal(b, key, l.push(x), l.len() as int));
            }
        } else {
            assert(b[n - 1] != key);
            assert(bucket(b, fnv1a(key), n) == l);
        }
    }
}

/// The outcome of a join: the matched pairs and the number of hash
/// buckets the build side filled.
pub struct JoinResult {
    pub pairs: Vec<(usize, usize)>,
    pub hash_buckets: usize,
}

/// The byte keys of JSON values: their JSON texts.
pub open spec fn text_keys(vs: Seq<JsonValue>) -> Seq<Seq<u8>> {
    vs.map_values(|v: JsonValue| json_text_bytes(v))
}

/// Joins probe rows against build rows by their join-column values, two
/// values matching where their JSON texts are equal.
pub fn join_values(build_keys: &Vec<JsonValue>, probe_keys: &Vec<JsonValue>) -> (r: JoinResult)
    ensures
        r.pairs@ == join_pairs(text_keys(build_keys@), text_keys(probe_keys@), probe_keys@.len() as int),
        r.hash_buckets == build_hashes(text_keys(build_keys@)).len(),
{
    let b = text_key_list(build_keys);
    let p = text_key_list(probe_keys);
    hash_join(&b, &p)
}

/// The JSON texts of `vs`, as bytes.
fn text_key_list(vs: &Vec<JsonValue>) -> (r: Vec<Vec<u8>>)
    ensures
        r@.len() == vs@.len(),
        key_seqs(r@) == text_keys(vs@),
{
    let mut r: Vec<Vec<u8>> = Vec::new();
    let mut i: usize = 0;
    while i < vs.len()
        invariant
            0 <= i <= vs@.len(),
            r@.len() == i,
            key_seqs(r@) == text_keys(vs@.take(i as int)),
        decreases vs@.len() - i,
    {
        let x = json_bytes(&vs[i]);
        let ghost r0 = r@;
        let ghost xv = x@;
        r.push(x);
        proof {
            assert(r@ =~= r0.push(x));
            assert(vs@.take(i as int + 1) =~= vs@.take(i as int).push(vs@[i as int]));
            assert(key_seqs(r@) =~= key_seqs(r0).push(xv));
            assert(text_keys(vs@.take(i as int + 1)) =~= text_keys(vs@.take(i as int)).push(json_text_bytes(vs@[i as int])));
        }
        i = i + 1;
    }
    proof {
        assert(vs@.take(i as int) =~= vs@);
    }
    r
}

/// Joins the probe keys against the build keys. Each pair holds the
/// position of a build row and of a probe row with equal keys; probe rows
/// come in order, and for each its build rows in order.
pub fn hash_join(build_keys: &Vec<Vec<u8>>, probe_keys: &Vec<Vec<u8>>) -> (r: JoinResult)
    ensures
        r.pairs@ == join_pairs(
            key_seqs(build_keys@),
            key_seqs(probe_keys@),
            probe_keys@.len() as int,
        ),
        r.hash_buckets == build_hashes(key_seqs(build_keys@)).len(),
{
    let ghost b = key_seqs(build_keys@);
    let ghost p = key_seqs(probe_keys@);
    let mut ht: HashMap<u64, Vec<usize>> = HashMap::new();
    let mut i: usize = 0;
    while i < build_keys.len()
        invariant
            b == key_seqs(build_keys@),
            0 <= i <= build_keys@.len(),
            forall|h: u64| #[trigger] ht@.contains_key(h) <==> bucket(b, h, i as int).len() > 0,
            forall|h: u64| #[trigger] ht@.contains_key(h) ==> ht@[h]@ == bucket(b, h, i as int),
        decreases build_keys@.len() - i,
    {
        let h = hash_bytes(&build_keys[i]);
        let ghost before = ht@;
        let mut list: Vec<usize> = match ht.remove(&h) {
            Some(v) => v,
            None => Vec::new(),
        };
        list.push(i);
        ht.insert(h, list);
        proof {
            assert(b[i as int] == build_keys@[i as int]@);
            assert forall|g: u64| #[trigger] ht@.contains_key(g) <==> bucket(b, g, i as int + 1).len() > 0 by {
                if g != h {
                    assert(before.contains_key(g) == ht@.contains_key(g));
                }
            }
            assert forall|g: u64| #[trigger] ht@.contains_key(g) implies ht@[g]@ == bucket(b, g, i as int + 1) by {
                if g == h {
                    if before.contains_key(h) {
                        assert(ht@[h]@ =~= before[h]@.push(i));
                    } else {
                        assert(bucket(b, h, i as int).len() == 0);
                        assert(ht@[h]@ =~= bucket(b, h, i as int + 1));
                    }
                }
            }
        }
        i = i + 1;
    }
    proof {
        assert(ht@.dom() =~= build_hashes(b)) by {
            assert forall|h: u64| #[trigger] ht@.dom().contains(h) <==> build_hashes(b).contains(h) by {
                lemma_bucket_bounds(b, h, b.len() as int);
                if build_hashes(b).contains(h) {
                    let hs = b.map_values(|k: Seq<u8>| fnv1a(k));
                    let k = choose|k: int| 0 <= k < hs.len() && #[trigger] hs[k] == h;
                    assert(fnv1a(b[k]) == h);
                }
                if ht@.dom().contains(h) {
                    let k = choose|k: int| 0 <= k < b.len() && fnv1a(#[trigger] b[k]) == h;
                    assert(b.map_values(|k: Seq<u8>| fnv1a(k))[k] == h);
                }
            }
        }
    }
    let mut pairs: Vec<(usize, usize)> = Vec::new();
    let nb: usize = build_keys.len();
    let mut j: usize = 0;
    while j < probe_keys.len()
        invariant
            b == key_seqs(build_keys@),
            p == key_seqs(probe_keys@),
            b.len() == nb,
            0 <= j <= probe_keys@.len(),
            forall|h: u64| #[trigger] ht@.contains_key(h) <==> bucket(b, h, b.len() as int).len() > 0,
            forall|h: u64| #[trigger] ht@.contains_key(h) ==> ht@[h]@ == bucket(b, h, b.len() as int),
            pairs@ == join_pairs(b, p, j as int),
        decreases probe_keys@.len() - j,
    {
        let key = &probe_keys[j];
        let h = hash_bytes(key);
        let ghost base = pairs@;
        let ghost l = bucket(b, h, b.len() as int);
        proof {
            assert(p[j as int] == key@);
            assert(b.len() == build_keys@.len());
            lemma_bucket_bounds(b, h, b.len() as int);
            lemma_select_bucket(b, key@, b.len() as int);
        }
        match ht.get(&h) {
            Some(build_rows) => {
                collect_matches(build_keys, key, j, build_rows, &mut pairs);
                proof {
                    assert(pairs@ =~= join_pairs(b, p, j as int + 1));
                }
            },
            None => {
                proof {
                    assert(l.len() == 0);
                    assert(key_hits(b, key@, b.len() as int) =~= Seq::<usize>::empty());
                    assert(pairs@ =~= join_pairs(b, p, j as int + 1));
                }
            },
        }
        j = j + 1;
    }
    proof {
        assert(b.len() == build_keys@.len());
    }
    JoinResult { pairs, hash_buckets: ht.len() }
}

/// Appends `(i, j)` for each build row `i` of `rows`, in order, whose key
/// equals `key`.
fn collect_matches(
    build_keys: &Vec<Vec<u8>>,
    key: &Vec<u8>,
    j: usize,
    rows: &Vec<usize>,
    pairs: &mut Vec<(usize, usize)>,
)
    requires
        forall|s: int| 0 <= s < rows@.len() ==> #[trigger] rows@[s] < build_keys@.len(),
    ensures
        final(pairs)@ == old(pairs)@ + select_equal(
            key_seqs(build_keys@),
            key@,
            rows@,
            rows@.len() as int,
        ).map_values(|i: usize| (i, j)),
{
    let ghost b = key_seqs(build_keys@);
    let ghost l = rows@;
    let ghost base = pairs@;
    let mut t: usize = 0;
    while t < rows.len()
        invariant
            b == key_seqs(build_keys@),
            rows@ == l,
            0 <= t <= l.len(),
            forall|s: int| 0 <= s < l.len() ==> #[trigger] l[s] < b.len(),
            pairs@ == base + select_equal(b, key@, l, t as int).map_values(|i: usize| (i, j)),
        decreases l.len() - t,
    {
        let bi = rows[t];
        proof {
            assert(l[t as int] < b.len());
            assert(b[bi as int] == build_keys@[bi as int]@);
        }
        if vec_u8_eq(&build_keys[bi], key) {
            pairs.push((bi, j));
            proof {
                assert(select_equal(b, key@, l, t as int + 1).map_values(|i: usize| (i, j))
                    =~= select_equal(b, key@, l, t as int).map_values(|i: usize| (i, j)).push((bi, j)));
            }
        } else {
            proof {
                assert(select_equal(b, key@, l, t as int + 1) == select_equal(b, key@, l, t as int));
            }
        }
        t = t + 1;
    }
}

/// Byte-for-byte equality of two keys.
fn vec_u8_eq(a: &Vec<u8>, b: &Vec<u8>) -> (r: bool)
    ensures
        r == (a@ == b@),
{
    if a.len() != b.len() {
        return false;
    }
    let mut i: usize = 0;
    while i < a.len()
        invariant
            a@.len() == b@.len(),
            0 <= i <= a@.len(),
            forall|k: int| 0 <= k < i ==> a@[k] == b@[k],
        decreases a@.len() - i,
    {
        if a[i] != b[i] {
            return false;
        }
        i = i + 1;
    }
    proof {
        assert(a@ =~= b@);
    }
    true
}

/// Joins two inputs on one column through a hash table.
pub struct HashJoinBlock {
    metadata: BlockMetadata,
    input_ports: Vec<Port>,
    output_ports: Vec<Port>,
    metric_defs: Vec<MetricDefinition>,
    join_column: String,
}

impl HashJoinBlock {
    pub closed spec fn spec_join_column(&self) -> Seq<char> {
        self.join_column@
    }

    pub fn new() -> (j: Self)
        ensures
            j.spec_join_column() == "id"@,
            j.spec_metadata().id@ == "hash-join"@,
            j.spec_metadata().category == BlockCategory::Execution,
    {
        Self {
            metadata: Self::build_metadata(),
            input_ports: Self::build_inputs(),
            output_ports: Self::build_outputs(),
            metric_defs: Self::build_metrics(),
            join_column: String::from_str("id"),
        }
    }

    /// The column both sides are joined on.
    pub fn join_column(&self) -> (r: &String)
        ensures
            r@ == self.spec_join_column(),
    {
        &self.join_column
    }

    /// Sets the column both sides are joined on.
    pub fn set_join_column(&mut self, column: String)
        ensures
            final(self).spec_join_column() == column@,
            final(self).spec_metadata() == old(self).spec_metadata(),
    {
        self.join_column = column;
    }
}

impl HashJoinBlock {
    fn build_documentation() -> (d: BlockDocumentation)
        ensures
            d.overview@ == "A hash join is the most efficient join algorithm for equi-join queries \
                           (WHERE a.id = b.id) when one input fits in memory. It works in two \
                           phases: the build phase loads the smaller input into an in-memory hash \
                           table keyed on the join column, and the probe phase streams through the \
                           larger input, looking up each row's join key in the hash table.\n\n\
                           Hash joins are the workhorse of modern query engines. They are chosen \
                           by the optimizer whenever the join predicate is an equality condition \
                           and the smaller input is estimated to fit in the available memory. \
                           Unlike nested loop joins (which are O(n*m)), hash joins are O(n+m) — \
                           a massive improvement for large inputs.\n\n\
                           Think of it like organizing a party with two guest lists. You take the \
                           shorter list and create a lookup table (hash table) by name. Then you \
                           go through the longer list one by one, checking each name against the \
                           lookup table. For each match, you know that guest is on both lists. \
                           Building the lookup table takes one pass, and checking takes one pass — \
                           much faster than comparing every name on list A with every name on list B."@,
            d.algorithm@ == "Hash Join Algorithm (Build-Probe):\n\
                            \n\
                            // Phase 1: BUILD — create hash table from smaller input\n\
                            FUNCTION build_phase(build_records, join_column):\n  \
                              hash_table = new HashMap\n  \
                              FOR EACH record IN build_records:\n    \
                                key = record[join_column]\n    \
                                h = hash(key)\n    \
                                hash_table[h].append(record)\n  \
                              RETURN hash_table\n\
                            \n\
                            // Phase 2: PROBE — scan larger input and look up matches\n\
                            FUNCTION probe_phase(probe_records, hash_table, join_column):\n  \
                              results = []\n  \
                              FOR EACH probe_rec IN probe_records:\n    \
                                key = probe_rec[join_column]\n    \
                                h = hash(key)\n    \
                                IF h IN hash_table:\n      \
                                  FOR EACH build_rec IN hash_table[h]:\n        \
                                    IF build_rec[join_column] == key:  // verify, not just hash\n          \
                                      combined = merge(build_rec, probe_rec)\n          \
                                      results.append(combined)\n  \
                              RETURN results"@,
            d.motivation@ == "Joining tables is the most common multi-table operation in SQL. \
                             Without hash join, the database would fall back to nested loop join \
                             (O(n*m) — checking every pair of rows) or require both inputs to be \
                             sorted for a merge join. For large tables, nested loop is prohibitively \
                             slow, and sorting both inputs is expensive.\n\n\
                             Hash join solves this by building an O(1)-lookup data structure from \
                             one input, reducing the join cost to O(n+m). This made complex \
                             analytical queries with multiple joins practical, and is one of the \
                             key innovations that enabled modern data warehousing."@,
            d.complexity.time@ == "O(n + m) average where n = build, m = probe"@,
            d.complexity.space@ == "O(n) for the hash table"@,
            d.use_cases@.len() == 5,
            d.use_cases@[0]@ == "Equi-join queries (WHERE a.id = b.id)"@,
            d.use_cases@[1]@ == "When one table is much smaller than the other"@,
            d.use_cases@[2]@ == "Parallel-friendly join strategy"@,
            d.use_cases@[3]@ == "Star schema queries joining fact tables with dimension tables"@,
            d.use_cases@[4]@ == "Subquery materialization (IN subqueries converted to semi-joins)"@,
            d.tradeoffs@.len() == 5,
            d.tradeoffs@[0]@ == "Fastest join for equi-joins but only supports equality predicates"@,
            d.tradeoffs@[1]@ == "Build side must fit in memory (or spill to disk)"@,
            d.tradeoffs@[2]@ == "No ordering on output"@,
            d.tradeoffs@[3]@ == "Hash collisions degrade performance — a poor hash function or highly \
                     skewed data can cause many rows to land in the same bucket"@,
            d.tradeoffs@[4]@ == "Spilling to disk (grace hash join) adds significant overhead — the \
                     optimizer tries to pick the smaller input as the build side to avoid this"@,
            d.examples@.len() == 4,
            d.examples@[0]@ == "PostgreSQL Hash Join — builds a hash table from the inner relation; \
                     supports parallel hash join since version 11"@,
            d.examples@[1]@ == "MySQL hash join (8.0+) — added as an alternative to the block nested \
                     loop join; requires equi-join conditions"@,
            d.examples@[2]@ == "Oracle hash join — the preferred join method for large tables; supports \
                     in-memory and on-disk (grace hash join) variants"@,
            d.examples@[3]@ == "DuckDB and other analytics engines — hash join is the default join \
                     strategy for columnar databases"@,
            d.suggested_questions@.len() == 3,
            d.suggested_questions@[0]@ == "Why does the optimizer choose the smaller table as the build side, \
                     and what happens if it gets the estimate wrong?"@,
            d.suggested_questions@[1]@ == "What is a grace hash join, and how does it handle the case when the \
                     build side does not fit in memory?"@,
            d.suggested_questions@[2]@ == "How does parallel hash join work, and why is it easier to parallelize \
                     than sort-merge join?"@,
            d.parameter_guide@.len() == 1,
            d.parameter_guide@[0].0@ == "join_column"@,
            d.parameter_guide@[0].1@ == "The column name that must exist in both the build and \
                                            probe inputs. Rows are matched when they have equal \
                                            values in this column. This corresponds to the ON clause \
                                            in SQL (e.g., ON orders.customer_id = customers.id). \
                                            The column should have compatible data types in both \
                                            inputs. High-cardinality columns (like IDs) produce \
                                            fewer hash collisions and better performance. \
                                            Low-cardinality columns (like status or gender) cause \
                                            many collisions, degrading to O(n*m) in the worst case."@,
            d.alternatives@.len() == 2,
            d.alternatives@[0].block_type@ == "sort"@,
            d.alternatives@[0].comparison@ == "A sort-merge join sorts both inputs on the join column, then \
                                     merges them in order. Sort-merge is better when inputs are \
                                     already sorted (e.g., from an index) or when the result must \
                                     be in sorted order. Hash join is better for unsorted inputs \
                                     because it avoids the O(n log n) sort cost. Sort-merge also \
                                     handles non-equi joins (theta joins) which hash join cannot."@,
            d.alternatives@[1].block_type@ == "sequential-scan"@,
            d.alternatives@[1].comparison@ == "A nested loop join (using sequential scans) checks every row \
                                     pair — O(n*m). It is the simplest join but only practical for \
                                     very small inputs or when an index makes the inner loop O(log n). \
                                     Hash join is dramatically faster for medium-to-large inputs with \
                                     equi-join predicates."@,
    {
        let mut use_cases: Vec<String> = Vec::new();
        use_cases.push(String::from_str("Equi-join queries (WHERE a.id = b.id)"));
        use_cases.push(String::from_str("When one table is much smaller than the other"));
        use_cases.push(String::from_str("Parallel-friendly join strategy"));
        use_cases.push(String::from_str("Star schema queries joining fact tables with dimension tables"));
        use_cases.push(String::from_str("Subquery materialization (IN subqueries converted to semi-joins)"));
        let mut tradeoffs: Vec<String> = Vec::new();
        tradeoffs.push(String::from_str("Fastest join for equi-joins but only supports equality predicates"));
        tradeoffs.push(String::from_str("Build side must fit in memory (or spill to disk)"));
        tradeoffs.push(String::from_str("No ordering on output"));
        tradeoffs.push(String::from_str("Hash collisions degrade performance — a poor hash function or highly \
                     skewed data can cause many rows to land in the same bucket"));
        tradeoffs.push(String::from_str("Spilling to disk (grace hash join) adds significant overhead — the \
                     optimizer tries to pick the smaller input as the build side to avoid this"));
        let mut examples: Vec<String> = Vec::new();
        examples.push(String::from_str("PostgreSQL Hash Join — builds a hash table from the inner relation; \
                     supports parallel hash join since version 11"));
        examples.push(String::from_str("MySQL hash join (8.0+) — added as an alternative to the block nested \
                     loop join; requires equi-join conditions"));
        examples.push(String::from_str("Oracle hash join — the preferred join method for large tables; supports \
                     in-memory and on-disk (grace hash join) variants"));
        examples.push(String::from_str("DuckDB and other analytics engines — hash join is the default join \
                     strategy for columnar databases"));
        let mut suggested_questions: Vec<String> = Vec::new();
        suggested_questions.push(String::from_str("Why does the optimizer choose the smaller table as the build side, \
                     and what happens if it gets the estimate wrong?"));
        suggested_questions.push(String::from_str("What is a grace hash join, and how does it handle the case when the \
                     build side does not fit in memory?"));
        suggested_questions.push(String::from_str("How does parallel hash join work, and why is it easier to parallelize \
                     than sort-merge join?"));
        let mut parameter_guide: Vec<(String, String)> = Vec::new();
        parameter_guide.push((String::from_str("join_column"), String::from_str("The column name that must exist in both the build and \
                                            probe inputs. Rows are matched when they have equal \
                                            values in this column. This corresponds to the ON clause \
                                            in SQL (e.g., ON orders.customer_id = customers.id). \
                                            The column should have compatible data types in both \
                                            inputs. High-cardinality columns (like IDs) produce \
                                            fewer hash collisions and better performance. \
                                            Low-cardinality columns (like status or gender) cause \
                                            many collisions, degrading to O(n*m) in the worst case.")));
        let mut alternatives: Vec<Alternative> = Vec::new();
        alternatives.push(Alternative { block_type: String::from_str("sort"), comparison: String::from_str("A sort-merge join sorts both inputs on the join column, then \
                                     merges them in order. Sort-merge is better when inputs are \
                                     already sorted (e.g., from an index) or when the result must \
                                     be in sorted order. Hash join is better for unsorted inputs \
                                     because it avoids the O(n log n) sort cost. Sort-merge also \
                                     handles non-equi joins (theta joins) which hash join cannot.") });
        alternatives.push(Alternative { block_type: String::from_str("sequential-scan"), comparison: String::from_str("A nested loop join (using sequential scans) checks every row \
                                     pair — O(n*m). It is the simplest join but only practical for \
                                     very small inputs or when an index makes the inner loop O(log n). \
                                     Hash join is dramatically faster for medium-to-large inputs with \
                                     equi-join predicates.") });
        BlockDocumentation {
            overview: String::from_str("A hash join is the most efficient join algorithm for equi-join queries \
                           (WHERE a.id = b.id) when one input fits in memory. It works in two \
                           phases: the build phase loads the smaller input into an in-memory hash \
                           table keyed on the join column, and the probe phase streams through the \
                           larger input, looking up each row's join key in the hash table.\n\n\
                           Hash joins are the workhorse of modern query engines. They are chosen \
                           by the optimizer whenever the join predicate is an equality condition \
                           and the smaller input is estimated to fit in the available memory. \
                           Unlike nested loop joins (which are O(n*m)), hash joins are O(n+m) — \
                           a massive improvement for large inputs.\n\n\
                           Think of it like organizing a party with two guest lists. You take the \
                           shorter list and create a lookup table (hash table) by name. Then you \
                           go through the longer list one by one, checking each name against the \
                           lookup table. For each match, you know that guest is on both lists. \
                           Building the lookup table takes one pass, and checking takes one pass — \
                           much faster than comparing every name on list A with every name on list B."),
            algorithm: String::from_str("Hash Join Algorithm (Build-Probe):\n\
                            \n\
                            // Phase 1: BUILD — create hash table from smaller input\n\
                            FUNCTION build_phase(build_records, join_column):\n  \
                              hash_table = new HashMap\n  \
                              FOR EACH record IN build_records:\n    \
                                key = record[join_column]\n    \
                                h = hash(key)\n    \
                                hash_table[h].append(record)\n  \
                              RETURN hash_table\n\
                            \n\
                            // Phase 2: PROBE — scan larger input and look up matches\n\
                            FUNCTION probe_phase(probe_records, hash_table, join_column):\n  \
                              results = []\n  \
                              FOR EACH probe_rec IN probe_records:\n    \
                                key = probe_rec[join_column]\n    \
                                h = hash(key)\n    \
                                IF h IN hash_table:\n      \
                                  FOR EACH build_rec IN hash_table[h]:\n        \
                                    IF build_rec[join_column] == key:  // verify, not just hash\n          \
                                      combined = merge(build_rec, probe_rec)\n          \
                                      results.append(combined)\n  \
                              RETURN results"),
            complexity: Complexity { time: String::from_str("O(n + m) average where n = build, m = probe"), space: String::from_str("O(n) for the hash table") },
            use_cases,
            tradeoffs,
            examples,
            motivation: String::from_str("Joining tables is the most common multi-table operation in SQL. \
                             Without hash join, the database would fall back to nested loop join \
                             (O(n*m) — checking every pair of rows) or require both inputs to be \
                             sorted for a merge join. For large tables, nested loop is prohibitively \
                             slow, and sorting both inputs is expensive.\n\n\
                             Hash join solves this by building an O(1)-lookup data structure from \
                             one input, reducing the join cost to O(n+m). This made complex \
                             analytical queries with multiple joins practical, and is one of the \
                             key innovations that enabled modern data warehousing."),
            parameter_guide,
            alternatives,
            suggested_questions,
        }
    }

    fn build_references() -> (r: Vec<Reference>)
        ensures
            r@.len() == 1,
            r@[0].ref_type == ReferenceType::Book,
            r@[0].title@ == "Database System Concepts — Chapter 15: Join Algorithms"@,
            r@[0].url is None,
            r@[0].citation matches Some(t) && t@ == "Silberschatz, A. et al. (2019). McGraw-Hill."@,
    {
        let mut r: Vec<Reference> = Vec::new();
        r.push(Reference { ref_type: ReferenceType::Book, title: String::from_str("Database System Concepts — Chapter 15: Join Algorithms"), url: None, citation: Some(String::from_str("Silberschatz, A. et al. (2019). McGraw-Hill.")) });
        r
    }

    fn build_metadata() -> (m: BlockMetadata)
        ensures
            m.documentation.overview@ == "A hash join is the most efficient join algorithm for equi-join queries \
                           (WHERE a.id = b.id) when one input fits in memory. It works in two \
                           phases: the build phase loads the smaller input into an in-memory hash \
                           table keyed on the join column, and the probe phase streams through the \
                           larger input, looking up each row's join key in the hash table.\n\n\
                           Hash joins are the workhorse of modern query engines. They are chosen \
                           by the optimizer whenever the join predicate is an equality condition \
                           and the smaller input is estimated to fit in the available memory. \
                           Unlike nested loop joins (which are O(n*m)), hash joins are O(n+m) — \
                           a massive improvement for large inputs.\n\n\
                           Think of it like organizing a party with two guest lists. You take the \
                           shorter list and create a lookup table (hash table) by name. Then you \
                           go through the longer list one by one, checking each name against the \
                           lookup table. For each match, you know that guest is on both lists. \
                           Building the lookup table takes one pass, and checking takes one pass — \
                           much faster than comparing every name on list A with every name on list B."@,
            m.references@.len() == 1,
            m.id@ == "hash-join"@,
            m.category == BlockCategory::Execution,
            m.name@ == "Hash Join"@,
            m.description@ == "Build-probe hash join for equi-join queries"@,
            m.version@ == "1.0.0"@,
            m.icon@ == "merge"@,
            m.color@ == "#0EA5E9"@,
    {
        BlockMetadata::new(
            "hash-join",
            "Hash Join",
            BlockCategory::Execution,
            "Build-probe hash join for equi-join queries",
            "merge",
            "#0EA5E9",
            Self::build_documentation(),
            Self::build_references(),
        )
    }

    fn build_inputs() -> (p: Vec<Port>)
        ensures
            p@.len() == 2,
            p@[0].id@ == "build"@,
            p@[1].id@ == "probe"@,
    {
        let mut p: Vec<Port> = Vec::new();
        p.push(
            Port::new(
                "build",
                "Build Side",
                PortDirection::Input,
                true,
                false,
                "Smaller input — loaded into hash table",
            ),
        );
        p.push(
            Port::new(
                "probe",
                "Probe Side",
                PortDirection::Input,
                true,
                false,
                "Larger input — scanned for matches",
            ),
        );
        p
    }

    fn build_outputs() -> (p: Vec<Port>)
        ensures
            p@.len() == 1,
            p@[0].id@ == "joined"@,
    {
        let mut p: Vec<Port> = Vec::new();
        p.push(
            Port::new(
                "joined",
                "Joined Records",
                PortDirection::Output,
                false,
                true,
                "Matched rows from both inputs combined",
            ),
        );
        p
    }

    fn build_metrics() -> (v: Vec<MetricDefinition>)
        ensures
            v@.len() == 4,
            v@[0].id@ == "build_rows"@,
            v@[1].id@ == "probe_rows"@,
            v@[2].id@ == "matches"@,
            v@[3].id@ == "hash_buckets"@,
    {
        let mut v: Vec<MetricDefinition> = Vec::new();
        v.push(
            MetricDefinition::new(
                "build_rows",
                "Build Rows",
                MetricType::Counter,
                "rows",
                "Rows in build side",
                AggregationType::Sum,
            ),
        );
        v.push(
            MetricDefinition::new(
                "probe_rows",
                "Probe Rows",
                MetricType::Counter,
                "rows",
                "Rows in probe side",
                AggregationType::Sum,
            ),
        );
        v.push(
            MetricDefinition::new(
                "matches",
                "Matches",
                MetricType::Counter,
                "rows",
                "Join matches produced",
                AggregationType::Sum,
            ),
        );
        v.push(
            MetricDefinition::new(
                "hash_buckets",
                "Hash Buckets",
                MetricType::Gauge,
                "buckets",
                "Hash table size",
                AggregationType::Max,
            ),
        );
        v
    }

    /// What the block says about itself.
    pub fn metadata(&self) -> (m: &BlockMetadata)
        ensures
            m == self.spec_metadata(),
    {
        &self.metadata
    }

    pub closed spec fn spec_metadata(&self) -> BlockMetadata {
        self.metadata
    }

    /// The block's input ports.
    pub fn inputs(&self) -> (p: &Vec<Port>)
        ensures
            p == self.spec_inputs(),
    {
        &self.input_ports
    }

    pub closed spec fn spec_inputs(&self) -> Vec<Port> {
        self.input_ports
    }

    /// The block's output ports.
    pub fn outputs(&self) -> (p: &Vec<Port>)
        ensures
            p == self.spec_outputs(),
    {
        &self.output_ports
    }

    pub closed spec fn spec_outputs(&self) -> Vec<Port> {
        self.output_ports
    }

    /// The metrics the block reports.
    pub fn metrics(&self) -> (m: &Vec<MetricDefinition>)
        ensures
            m == self.spec_metrics(),
    {
        &self.metric_defs
    }

    pub closed spec fn spec_metrics(&self) -> Vec<MetricDefinition> {
        self.metric_defs
    }
}

} // verus!
