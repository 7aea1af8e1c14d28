//! Index Scan Block
//!
//! Fetches the rows an index pointed at. The index results name rows by
//! page and slot; every stored row at one of those places is returned, in
//! storage order, up to an optional limit. Without index results every
//! stored row is passed through, as a sequential scan would.
use std::collections::HashMap;
use std::collections::HashSet;
use vstd::prelude::*;
use vstd::string::*;

use crate::common::block::{Alternative, BlockCategory, BlockDocumentation, BlockMetadata, Complexity, Reference, ReferenceType};
use crate::common::metrics::{AggregationType, MetricDefinition, MetricType};
use crate::common::port::{Port, PortDirection};

verus! {

broadcast use vstd::std_specs::hash::group_hash_axioms;

/// Where a row says it lives: its page and slot, when it says so.
pub type RowPlace = (Option<usize>, Option<usize>);

/// A missing page or slot counts as 0.
pub open spec fn or_zero(x: Option<usize>) -> usize {
    match x {
        Some(v) => v,
        None => 0,
    }
}

/// The (page, slot) a row is matched by.
pub open spec fn place_key(r: RowPlace) -> (usize, usize) {
    (or_zero(r.0), or_zero(r.1))
}

/// The places the first `n` index results name.
pub open spec fn index_keys(ix: Seq<RowPlace>, n: int) -> Set<(usize, usize)> {
    Set::new(|k: (usize, usize)| exists|i: int| 0 <= i < n && place_key(#[trigger] ix[i]) == k)
}

/// Positions below `n` of the stored rows whose place is in `keys`,
/// ascending.
pub open spec fn matching_rows(st: Seq<RowPlace>, keys: Set<(usize, usize)>, n: int) -> Seq<usize>
    decreases n,
{
    if n <= 0 {
        Seq::empty()
    } else if keys.contains(place_key(st[n - 1])) {
        matching_rows(st, keys, n - 1).push((n - 1) as usize)
    } else {
        matching_rows(st, keys, n - 1)
    }
}

/// At most the first `limit` of `s`, where a limit is set.
pub open spec fn limited(s: Seq<usize>, limit: Option<usize>) -> Seq<usize> {
    match limit {
        Some(l) => if s.len() > l {
            s.take(l as int)
        } else {
            s
        },
        None => s,
    }
}

/// The rows an index scan returns: every row without index results,
/// else the matching rows up to the limit.
pub open spec fn scan_rows(st: Seq<RowPlace>, ix: Seq<RowPlace>, limit: Option<usize>) -> Seq<usize> {
    if ix.len() == 0 {
        Seq::new(st.len(), |i: int| i as usize)
    } else {
        limited(matching_rows(st, index_keys(ix, ix.len() as int), st.len() as int), limit)
    }
}

/// The distinct pages a scan touched: the pages the stored rows name when
/// they all pass through, else the pages of the returned rows.
pub open spec fn pages_touched(st: Seq<RowPlace>, ix: Seq<RowPlace>, rows: Seq<usize>) -> Set<usize> {
    if ix.len() == 0 {
        Set::new(|p: usize| exists|i: int| 0 <= i < st.len() && #[trigger] st[i].0 == Some(p))
    } else {
        Set::new(|p: usize| exists|k: int| 0 <= k < rows.len() && or_zero(st[#[trigger] rows[k] as int].0) == p)
    }
}

/// The matches among the first `n` rows lead the matches among the
/// first `m`.
proof fn lemma_matching_prefix(st: Seq<RowPlace>, keys: Set<(usize, usize)>, n: int, m: int)
    requires
        0 <= n <= m,
    ensures
        matching_rows(st, keys, n).len() <= matching_rows(st, keys, m).len(),
        matching_rows(st, keys, m).take(matching_rows(st, keys, n).len() as int) == matching_rows(st, keys, n),
    decreases m - n,
{
    if n < m {
        lemma_matching_prefix(st, keys, n, m - 1);
        let a = matching_rows(st, keys, n);
        let b = matching_rows(st, keys, m - 1);
        if keys.contains(place_key(st[m - 1])) {
            assert(b.push((m - 1) as usize).take(a.len() as int) =~= b.take(a.len() as int));
        }
    } else {
        assert(matching_rows(st, keys, m).take(matching_rows(st, keys, m).len() as int) =~= matching_rows(st, keys, m));
    }
}

/// What an index scan returns: the positions of the rows fetched, in
/// storage order, and the number of distinct pages read.
pub struct ScanResult {
    pub rows: Vec<usize>,
    pub pages_read: usize,
}

/// Fetches rows through an index.
pub struct IndexScanBlock {
    metadata: BlockMetadata,
    input_ports: Vec<Port>,
    output_ports: Vec<Port>,
    metric_defs: Vec<MetricDefinition>,
    limit: Option<usize>,
}

impl IndexScanBlock {
    pub closed spec fn spec_limit(&self) -> Option<usize> {
        self.limit
    }

    /// A limit, where one is set, is at least 1.
    pub open spec fn wf(&self) -> bool {
        self.spec_limit() != Some(0usize)
    }

    pub fn new() -> (b: Self)
        ensures
            b.wf(),
            b.spec_limit() == None::<usize>,
            b.spec_metadata().id@ == "index-scan"@,
            b.spec_metadata().category == BlockCategory::Execution,
    {
        Self {
            metadata: Self::build_metadata(),
            input_ports: Self::build_inputs(),
            output_ports: Self::build_outputs(),
            metric_defs: Self::build_metrics(),
            limit: None,
        }
    }

    /// The most rows a scan returns, if limited.
    #[verifier::when_used_as_spec(spec_limit)]
    pub fn limit(&self) -> (r: Option<usize>)
        ensures
            r == self.spec_limit(),
    {
        self.limit
    }

    /// Limits the rows a scan returns; a limit of 0 is ignored.
    pub fn set_limit(&mut self, limit: usize)
        requires
            old(self).wf(),
        ensures
            final(self).wf(),
            final(self).spec_limit() == if limit > 0 {
                Some(limit)
            } else {
                old(self).spec_limit()
            },
            final(self).spec_metadata() == old(self).spec_metadata(),
    {
        if limit > 0 {
            self.limit = Some(limit);
        }
    }

    /// Scans `storage` through the places named by `index_results`.
    pub fn scan(&self, storage: &Vec<RowPlace>, index_results: &Vec<RowPlace>) -> (r: ScanResult)
        requires
            self.wf(),
        ensures
            r.rows@ == scan_rows(storage@, index_results@, self.spec_limit()),
            r.pages_read == pages_touched(storage@, index_results@, r.rows@).len(),
    {
        let ghost st = storage@;
        let ghost ix = index_results@;
        let mut pages: HashSet<usize> = HashSet::new();
        if index_results.len() == 0 {
            let mut rows: Vec<usize> = Vec::new();
            let mut i: usize = 0;
            while i < storage.len()
                invariant
                    st == storage@,
                    0 <= i <= st.len(),
                    rows@ == Seq::new(i as nat, |k: int| k as usize),
                    pages@ == Set::new(|p: usize| exists|k: int| 0 <= k < i && #[trigger] st[k].0 == Some(p)),
                decreases st.len() - i,
            {
                if let Some(pid) = storage[i].0 {
                    pages.insert(pid);
                }
                rows.push(i);
                proof {
                    assert(rows@ =~= Seq::new(i as nat + 1, |k: int| k as usize));
                    assert(pages@ =~= Set::new(|p: usize| exists|k: int| 0 <= k < i + 1 && #[trigger] st[k].0 == Some(p))) by {
                        assert forall|p: usize| (exists|k: int| 0 <= k < i + 1 && #[trigger] st[k].0 == Some(p)) implies pages@.contains(p) by {
                            let k = choose|k: int| 0 <= k < i + 1 && #[trigger] st[k].0 == Some(p);
                            if k < i {
                                assert(exists|k: int| 0 <= k < i && #[trigger] st[k].0 == Some(p));
                            }
                        }
                    }
                }
                i = i + 1;
            }
            proof {
                assert(pages@ =~= pages_touched(st, ix, rows@));
            }
            return ScanResult { rows, pages_read: pages.len() };
        }
        // The index results as a table from page to slots.
        let mut table: HashMap<usize, HashSet<usize>> = HashMap::new();
        let mut j: usize = 0;
        while j < index_results.len()
            invariant
                ix == index_results@,
                0 <= j <= ix.len(),
                forall|p: usize, s: usize| #![trigger index_keys(ix, j as int).contains((p, s))]
                    (table@.contains_key(p) && table@[p]@.contains(s)) <==> index_keys(ix, j as int).contains((p, s)),
            decreases ix.len() - j,
        {
            let pid: usize = match index_results[j].0 {
                Some(v) => v,
                None => 0,
            };
            let sid: usize = match index_results[j].1 {
                Some(v) => v,
                None => 0,
            };
            let ghost before = table@;
            let mut slots: HashSet<usize> = match table.remove(&pid) {
                Some(v) => v,
                None => HashSet::new(),
            };
            slots.insert(sid);
            table.insert(pid, slots);
            proof {
                assert(place_key(ix[j as int]) == (pid, sid));
                assert forall|p: usize, s: usize| #![trigger index_keys(ix, j as int + 1).contains((p, s))]
                    (table@.contains_key(p) && table@[p]@.contains(s)) <==> index_keys(ix, j as int + 1).contains((p, s)) by {
                    if index_keys(ix, j as int).contains((p, s)) {
                        let k = choose|k: int| 0 <= k < j && place_key(#[trigger] ix[k]) == (p, s);
                        assert(0 <= k < j + 1 && place_key(ix[k]) == (p, s));
                    }
                    if index_keys(ix, j as int + 1).contains((p, s)) && !(p == pid && s == sid) {
                        let k = choose|k: int| 0 <= k < j + 1 && place_key(#[trigger] ix[k]) == (p, s);
                        assert(k != j);
                        assert(index_keys(ix, j as int).contains((p, s)));
                    }
                    if p == pid && s == sid {
                        assert(index_keys(ix, j as int + 1).contains((p, s)));
                    }
                }
            }
            j = j + 1;
        }
        let ghost keys = index_keys(ix, ix.len() as int);
        let mut rows: Vec<usize> = Vec::new();
        let mut i: usize = 0;
        while i < storage.len()
            invariant
                st == storage@,
                ix == index_results@,
                ix.len() > 0,
                keys == index_keys(ix, ix.len() as int),
                self.wf(),
                0 <= i <= st.len(),
                forall|p: usize, s: usize| #![trigger keys.contains((p, s))]
                    (table@.contains_key(p) && table@[p]@.contains(s)) <==> keys.contains((p, s)),
                rows@ == matching_rows(st, keys, i as int),
                match self.spec_limit() {
                    Some(l) => rows@.len() < l,
                    None => true,
                },
                pages@ == Set::new(|p: usize| exists|k: int| 0 <= k < rows@.len() && or_zero(st[#[trigger] rows@[k] as int].0) == p),
            decreases st.len() - i,
        {
            let pid: usize = match storage[i].0 {
                Some(v) => v,
                None => 0,
            };
            let sid: usize = match storage[i].1 {
                Some(v) => v,
                None => 0,
            };
            let hit = match table.get(&pid) {
                Some(slots) => slots.contains(&sid),
                None => false,
            };
            proof {
                assert(place_key(st[i as int]) == (pid, sid));
                assert(hit == keys.contains((pid, sid)));
            }
            if hit {
                let ghost before = rows@;
                pages.insert(pid);
                rows.push(i);
                proof {
                    assert(rows@ == matching_rows(st, keys, i as int + 1));
                    assert(pages@ =~= Set::new(|p: usize| exists|k: int| 0 <= k < rows@.len() && or_zero(st[#[trigger] rows@[k] as int].0) == p)) by {
                        assert forall|p: usize| (exists|k: int| 0 <= k < rows@.len() && or_zero(st[#[trigger] rows@[k] as int].0) == p) implies pages@.contains(p) by {
                            let k = choose|k: int| 0 <= k < rows@.len() && or_zero(st[#[trigger] rows@[k] as int].0) == p;
                            if k < before.len() {
                                assert(rows@[k] == before[k]);
                                assert(exists|k: int| 0 <= k < before.len() && or_zero(st[#[trigger] before[k] as int].0) == p);
                            }
                        }
                        assert forall|p: usize| pages@.contains(p) implies (exists|k: int| 0 <= k < rows@.len() && or_zero(st[#[trigger] rows@[k] as int].0) == p) by {
                            if p != pid {
                                let k = choose|k: int| 0 <= k < before.len() && or_zero(st[#[trigger] before[k] as int].0) == p;
                                assert(rows@[k] == before[k]);
                            } else {
                                assert(rows@[before.len() as int] == i);
                            }
                        }
                    }
                }
                if let Some(lim) = self.limit {
                    if rows.len() >= lim {
                        proof {
                            lemma_matching_prefix(st, keys, i as int + 1, st.len() as int);
                            let all = matching_rows(st, keys, st.len() as int);
                            assert(rows@.len() == lim);
                            assert(all.take(rows@.len() as int) == rows@);
                            if all.len() == rows@.len() {
                                assert(all.take(rows@.len() as int) =~= all);
                            }
                            assert(pages@ =~= pages_touched(st, ix, rows@));
                        }
                        return ScanResult { rows, pages_read: pages.len() };
                    }
                }
            }
            i = i + 1;
        }
        proof {
            assert(pages@ =~= pages_touched(st, ix, rows@));
        }
        ScanResult { rows, pages_read: pages.len() }
    }
}

impl IndexScanBlock {
    fn build_documentation() -> (d: BlockDocumentation)
        ensures
            d.overview@ == "An index scan uses a secondary index (such as a B-tree or hash index) \
                           to find the exact locations of matching records, then fetches only \
                           those records from the storage layer. Instead of reading every page \
                           in the table, it reads only the pages that contain matching rows.\n\n\
                           In a database system, the query optimizer chooses an index scan when \
                           it estimates that the query is selective enough — meaning only a small \
                           fraction of rows match the predicate. The index provides a shortcut: \
                           it maps search keys to TupleIds (page_id, slot_id), which tell the \
                           storage layer exactly where to find each matching row.\n\n\
                           Think of it like using the index at the back of a textbook: instead \
                           of reading every page to find references to 'B-tree', you look up \
                           'B-tree' in the index, get the page numbers, and flip directly to \
                           those pages. This is fast when there are few references, but slower \
                           than reading straight through if almost every page contains the term."@,
            d.algorithm@ == "Index Scan Algorithm:\n\
                            \n\
                            FUNCTION index_scan(index_results, storage, limit):\n  \
                              // Phase 1: Collect TupleIds from index\n  \
                              index_set = SET of (page_id, slot_id) from index_results\n  \
                              pages_accessed = empty SET\n  \
                              matched = []\n  \
                              \n  \
                              // Phase 2: Fetch matching records from storage\n  \
                              FOR EACH record IN storage:\n    \
                                pid = record._page_id\n    \
                                sid = record._slot_id\n    \
                                IF (pid, sid) IN index_set:\n      \
                                  pages_accessed.add(pid)\n      \
                                  matched.append(record)\n      \
                                  IF limit > 0 AND matched.len >= limit:\n        \
                                    BREAK\n  \
                              \n  \
                              random_ios = pages_accessed.size  // each distinct page = 1 I/O\n  \
                              RETURN matched"@,
            d.motivation@ == "Without index scans, every query would require a full table scan, \
                             reading every page even when only a handful of rows match. For a \
                             table with millions of rows, finding a single row by ID would mean \
                             reading the entire table — an O(n) operation that could take seconds \
                             or minutes.\n\n\
                             Index scans turn selective lookups into O(log n) or O(1) operations \
                             by using a prebuilt data structure to jump directly to the matching \
                             rows. They are the reason database queries can return results in \
                             milliseconds even on tables with billions of rows."@,
            d.complexity.time@ == "O(k × log n) for k results using a B-tree index, O(k) with hash index"@,
            d.complexity.space@ == "O(k) — only matching records buffered"@,
            d.use_cases@.len() == 5,
            d.use_cases@[0]@ == "Selective queries (WHERE id = ?, WHERE price < 100)"@,
            d.use_cases@[1]@ == "Queries that return a small fraction of the table"@,
            d.use_cases@[2]@ == "Covering index queries"@,
            d.use_cases@[3]@ == "Primary key lookups (WHERE id = 42) — the most common index scan"@,
            d.use_cases@[4]@ == "Range queries on indexed columns (WHERE date BETWEEN '2024-01-01' AND '2024-01-31')"@,
            d.tradeoffs@.len() == 5,
            d.tradeoffs@[0]@ == "Fast for selective queries but slower than seq scan for non-selective ones"@,
            d.tradeoffs@[1]@ == "Random I/O pattern (one page fetch per matched record) is less cache-friendly"@,
            d.tradeoffs@[2]@ == "Requires a compatible index to exist"@,
            d.tradeoffs@[3]@ == "Each matched row may be on a different page, causing many small random reads \
                     rather than a few large sequential reads — the cost per row is higher"@,
            d.tradeoffs@[4]@ == "Index-only scans (covering indexes) can avoid the heap fetch entirely, \
                     returning data directly from the index leaf pages"@,
            d.examples@.len() == 4,
            d.examples@[0]@ == "PostgreSQL Index Scan / Index Only Scan — the planner estimates row count \
                     and chooses index scan when selectivity is low enough"@,
            d.examples@[1]@ == "MySQL InnoDB secondary index lookup + clustered index fetch — secondary \
                     index leaves contain the primary key, requiring a second B-tree traversal"@,
            d.examples@[2]@ == "SQLite index scan — walks the index B-tree, then fetches rows by rowid"@,
            d.examples@[3]@ == "Oracle index range scan — efficiently handles BETWEEN and inequality predicates"@,
            d.suggested_questions@.len() == 3,
            d.suggested_questions@[0]@ == "Why does MySQL InnoDB require a 'double lookup' for secondary index scans, \
                     and how do covering indexes avoid this?"@,
            d.suggested_questions@[1]@ == "What is the difference between an Index Scan and an Index Only Scan in \
                     PostgreSQL, and when can the planner use each?"@,
            d.suggested_questions@[2]@ == "How does the correlation between index order and physical row order affect \
                     index scan performance?"@,
            d.parameter_guide@.len() == 1,
            d.parameter_guide@[0].0@ == "limit"@,
            d.parameter_guide@[0].1@ == "Maximum number of records to return, simulating a SQL LIMIT \
                                      clause. Set to 0 for unlimited. When set, the scan stops \
                                      early after finding enough matches, which can dramatically \
                                      reduce the number of page reads. This is especially powerful \
                                      with sorted indexes: 'SELECT * FROM users ORDER BY created_at \
                                      DESC LIMIT 10' only needs to read the last 10 index entries. \
                                      Try setting limit to 1, 10, and 100 to see how it affects \
                                      pages_read and random_ios."@,
            d.alternatives@.len() == 1,
            d.alternatives@[0].block_type@ == "sequential-scan"@,
            d.alternatives@[0].comparison@ == "A sequential scan reads every page in order — O(n) but with \
                                     efficient sequential I/O. An index scan reads only matching \
                                     pages — O(k) but with expensive random I/O. The crossover \
                                     point is typically 5-15% selectivity: if more than ~10% of \
                                     rows match, the sequential scan's efficient I/O pattern often \
                                     wins. Databases choose automatically based on cost estimation."@,
    {
        let mut use_cases: Vec<String> = Vec::new();
        use_cases.push(String::from_str("Selective queries (WHERE id = ?, WHERE price < 100)"));
        use_cases.push(String::from_str("Queries that return a small fraction of the table"));
        use_cases.push(String::from_str("Covering index queries"));
        use_cases.push(String::from_str("Primary key lookups (WHERE id = 42) — the most common index scan"));
        use_cases.push(String::from_str("Range queries on indexed columns (WHERE date BETWEEN '2024-01-01' AND '2024-01-31')"));
        let mut tradeoffs: Vec<String> = Vec::new();
        tradeoffs.push(String::from_str("Fast for selective queries but slower than seq scan for non-selective ones"));
        tradeoffs.push(String::from_str("Random I/O pattern (one page fetch per matched record) is less cache-friendly"));
        tradeoffs.push(String::from_str("Requires a compatible index to exist"));
        tradeoffs.push(String::from_str("Each matched row may be on a different page, causing many small random reads \
                     rather than a few large sequential reads — the cost per row is higher"));
        tradeoffs.push(String::from_str("Index-only scans (covering indexes) can avoid the heap fetch entirely, \
                     returning data directly from the index leaf pages"));
        let mut examples: Vec<String> = Vec::new();
        examples.push(String::from_str("PostgreSQL Index Scan / Index Only Scan — the planner estimates row count \
                     and chooses index scan when selectivity is low enough"));
        examples.push(String::from_str("MySQL InnoDB secondary index lookup + clustered index fetch — secondary \
                     index leaves contain the primary key, requiring a second B-tree traversal"));
        examples.push(String::from_str("SQLite index scan — walks the index B-tree, then fetches rows by rowid"));
        examples.push(String::from_str("Oracle index range scan — efficiently handles BETWEEN and inequality predicates"));
        let mut suggested_questions: Vec<String> = Vec::new();
        suggested_questions.push(String::from_str("Why does MySQL InnoDB require a 'double lookup' for secondary index scans, \
                     and how do covering indexes avoid this?"));
        suggested_questions.push(String::from_str("What is the difference between an Index Scan and an Index Only Scan in \
                     PostgreSQL, and when can the planner use each?"));
        suggested_questions.push(String::from_str("How does the correlation between index order and physical row order affect \
                     index scan performance?"));
        let mut parameter_guide: Vec<(String, String)> = Vec::new();
        parameter_guide.push((String::from_str("limit"), String::from_str("Maximum number of records to return, simulating a SQL LIMIT \
                                      clause. Set to 0 for unlimited. When set, the scan stops \
                                      early after finding enough matches, which can dramatically \
                                      reduce the number of page reads. This is especially powerful \
                                      with sorted indexes: 'SELECT * FROM users ORDER BY created_at \
                                      DESC LIMIT 10' only needs to read the last 10 index entries. \
                                      Try setting limit to 1, 10, and 100 to see how it affects \
                                      pages_read and random_ios.")));
        let mut alternatives: Vec<Alternative> = Vec::new();
        alternatives.push(Alternative { block_type: String::from_str("sequential-scan"), comparison: String::from_str("A sequential scan reads every page in order — O(n) but with \
                                     efficient sequential I/O. An index scan reads only matching \
                                     pages — O(k) but with expensive random I/O. The crossover \
                                     point is typically 5-15% selectivity: if more than ~10% of \
                                     rows match, the sequential scan's efficient I/O pattern often \
                                     wins. Databases choose automatically based on cost estimation.") });
        BlockDocumentation {
            overview: String::from_str("An index scan uses a secondary index (such as a B-tree or hash index) \
                           to find the exact locations of matching records, then fetches only \
                           those records from the storage layer. Instead of reading every page \
                           in the table, it reads only the pages that contain matching rows.\n\n\
                           In a database system, the query optimizer chooses an index scan when \
                           it estimates that the query is selective enough — meaning only a small \
                           fraction of rows match the predicate. The index provides a shortcut: \
                           it maps search keys to TupleIds (page_id, slot_id), which tell the \
                           storage layer exactly where to find each matching row.\n\n\
                           Think of it like using the index at the back of a textbook: instead \
                           of reading every page to find references to 'B-tree', you look up \
                           'B-tree' in the index, get the page numbers, and flip directly to \
                           those pages. This is fast when there are few references, but slower \
                           than reading straight through if almost every page contains the term."),
            algorithm: String::from_str("Index Scan Algorithm:\n\
                            \n\
                            FUNCTION index_scan(index_results, storage, limit):\n  \
                              // Phase 1: Collect TupleIds from index\n  \
                              index_set = SET of (page_id, slot_id) from index_results\n  \
                              pages_accessed = empty SET\n  \
                              matched = []\n  \
                              \n  \
                              // Phase 2: Fetch matching records from storage\n  \
                              FOR EACH record IN storage:\n    \
                                pid = record._page_id\n    \
                                sid = record._slot_id\n    \
                                IF (pid, sid) IN index_set:\n      \
                                  pages_accessed.add(pid)\n      \
                                  matched.append(record)\n      \
                                  IF limit > 0 AND matched.len >= limit:\n        \
                                    BREAK\n  \
                              \n  \
                              random_ios = pages_accessed.size  // each distinct page = 1 I/O\n  \
                              RETURN matched"),
            complexity: Complexity { time: String::from_str("O(k × log n) for k results using a B-tree index, O(k) with hash index"), space: String::from_str("O(k) — only matching records buffered") },
            use_cases,
            tradeoffs,
            examples,
            motivation: String::from_str("Without index scans, every query would require a full table scan, \
                             reading every page even when only a handful of rows match. For a \
                             table with millions of rows, finding a single row by ID would mean \
                             reading the entire table — an O(n) operation that could take seconds \
                             or minutes.\n\n\
                             Index scans turn selective lookups into O(log n) or O(1) operations \
                             by using a prebuilt data structure to jump directly to the matching \
                             rows. They are the reason database queries can return results in \
                             milliseconds even on tables with billions of rows."),
            parameter_guide,
            alternatives,
            suggested_questions,
        }
    }

    fn build_references() -> (r: Vec<Reference>)
        ensures
            r@.len() == 1,
            r@[0].ref_type == ReferenceType::Book,
            r@[0].title@ == "Database Internals by Alex Petrov — Chapter 5: Query Processing"@,
            r@[0].url is None,
            r@[0].citation matches Some(t) && t@ == "Petrov, A. (2019). Database Internals. O'Reilly."@,
    {
        let mut r: Vec<Reference> = Vec::new();
        r.push(Reference { ref_type: ReferenceType::Book, title: String::from_str("Database Internals by Alex Petrov — Chapter 5: Query Processing"), url: None, citation: Some(String::from_str("Petrov, A. (2019). Database Internals. O'Reilly.")) });
        r
    }

    fn build_metadata() -> (m: BlockMetadata)
        ensures
            m.documentation.overview@ == "An index scan uses a secondary index (such as a B-tree or hash index) \
                           to find the exact locations of matching records, then fetches only \
                           those records from the storage layer. Instead of reading every page \
                           in the table, it reads only the pages that contain matching rows.\n\n\
                           In a database system, the query optimizer chooses an index scan when \
                           it estimates that the query is selective enough — meaning only a small \
                           fraction of rows match the predicate. The index provides a shortcut: \
                           it maps search keys to TupleIds (page_id, slot_id), which tell the \
                           storage layer exactly where to find each matching row.\n\n\
                           Think of it like using the index at the back of a textbook: instead \
                           of reading every page to find references to 'B-tree', you look up \
                           'B-tree' in the index, get the page numbers, and flip directly to \
                           those pages. This is fast when there are few references, but slower \
                           than reading straight through if almost every page contains the term."@,
            m.references@.len() == 1,
            m.id@ == "index-scan"@,
            m.category == BlockCategory::Execution,
            m.name@ == "Index Scan"@,
            m.description@ == "Uses an index to fetch only matching records from storage"@,
            m.version@ == "1.0.0"@,
            m.icon@ == "search"@,
            m.color@ == "#14B8A6"@,
    {
        BlockMetadata::new(
            "index-scan",
            "Index Scan",
            BlockCategory::Execution,
            "Uses an index to fetch only matching records from storage",
            "search",
            "#14B8A6",
            Self::build_documentation(),
            Self::build_references(),
        )
    }

    fn build_inputs() -> (p: Vec<Port>)
        ensures
            p@.len() == 2,
            p@[0].id@ == "records"@,
            p@[1].id@ == "index_results"@,
    {
        let mut p: Vec<Port> = Vec::new();
        p.push(
            Port::new(
                "records",
                "Storage Records",
                PortDirection::Input,
                true,
                false,
                "Full records from storage (with _page_id, _slot_id)",
            ),
        );
        p.push(
            Port::new(
                "index_results",
                "Index Results",
                PortDirection::Input,
                false,
                false,
                "TupleIds from index lookup (with _page_id, _slot_id)",
            ),
        );
        p
    }

    fn build_outputs() -> (p: Vec<Port>)
        ensures
            p@.len() == 1,
            p@[0].id@ == "results"@,
    {
        let mut p: Vec<Port> = Vec::new();
        p.push(
            Port::new(
                "results",
                "Fetched Records",
                PortDirection::Output,
                false,
                true,
                "Records fetched via index lookup",
            ),
        );
        p
    }

    fn build_metrics() -> (v: Vec<MetricDefinition>)
        ensures
            v@.len() == 4,
            v@[0].id@ == "index_hits"@,
            v@[1].id@ == "pages_read"@,
            v@[2].id@ == "rows_returned"@,
            v@[3].id@ == "random_ios"@,
    {
        let mut v: Vec<MetricDefinition> = Vec::new();
        v.push(
            MetricDefinition::new(
                "index_hits",
                "Index Hits",
                MetricType::Counter,
                "records",
                "Records found via index",
                AggregationType::Sum,
            ),
        );
        v.push(
            MetricDefinition::new(
                "pages_read",
                "Pages Read",
                MetricType::Counter,
                "pages",
                "Distinct pages accessed",
                AggregationType::Sum,
            ),
        );
        v.push(
            MetricDefinition::new(
                "rows_returned",
                "Rows Returned",
                MetricType::Counter,
                "rows",
                "Rows returned to caller",
                AggregationType::Sum,
            ),
        );
        v.push(
            MetricDefinition::new(
                "random_ios",
                "Random I/Os",
                MetricType::Counter,
                "ops",
                "Random I/O operations (page fetches)",
                AggregationType::Sum,
            ),
        );
        v
    }

    /// What the block says about itself.
    pub fn metadata(&self) -> (m: &BlockMetadata)
        ensures
            m == self.spec_metadata(),
    {
        &self.metadata
    }

    pub closed spec fn spec_metadata(&self) -> BlockMetadata {
        self.metadata
    }

    /// The block's input ports.
    pub fn inputs(&self) -> (p: &Vec<Port>)
        ensures
            p == self.spec_inputs(),
    {
        &self.input_ports
    }

    pub closed spec fn spec_inputs(&self) -> Vec<Port> {
        self.input_ports
    }

    /// The block's output ports.
    pub fn outputs(&self) -> (p: &Vec<Port>)
        ensures
            p == self.spec_outputs(),
    {
        &self.output_ports
    }

    pub closed spec fn spec_outputs(&self) -> Vec<Port> {
        self.output_ports
    }

    /// The metrics the block reports.
    pub fn metrics(&self) -> (m: &Vec<MetricDefinition>)
        ensures
            m == self.spec_metrics(),
    {
        &self.metric_defs
    }

    pub closed spec fn spec_metrics(&self) -> Vec<MetricDefinition> {
        self.metric_defs
    }
}

} // verus!
