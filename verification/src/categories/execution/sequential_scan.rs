//! Sequential Scan Block
//!
//! Reads every record, page after page, and returns those that pass an
//! optional equality filter on one column. Every record is examined,
//! whether it passes or not; the pages read are counted from a fixed
//! number of records per page.
use serde_json::Value as JsonValue;
use vstd::prelude::*;
use vstd::string::*;

use crate::categories::text::{parse_i64, parsed_i64};
use crate::common::block::{Alternative, BlockCategory, BlockDocumentation, BlockMetadata, Complexity, Reference, ReferenceType};
use crate::common::json::{json_eq, json_equal, json_from_i64, json_from_string, json_number, json_string};
use crate::common::keyed::value_of;
use crate::common::metrics::{AggregationType, MetricDefinition, MetricType};
use crate::common::port::{Port, PortDirection};
use crate::common::record::{field_value, fields_view, well_formed_record};

verus! {

/// The pages that `rows` records fill at `per_page` records a page; with
/// no page size set, one page per record.
pub open spec fn page_count(rows: nat, per_page: nat) -> nat {
    if per_page > 0 {
        ((rows + per_page - 1) / per_page as int) as nat
    } else {
        rows
    }
}

/// The records as values.
pub open spec fn records_view(rs: Seq<Vec<(String, JsonValue)>>) -> Seq<Seq<(Seq<char>, JsonValue)>> {
    rs.map_values(|r: Vec<(String, JsonValue)>| fields_view(r@))
}

/// What a scan returns: the positions of the records that passed, in
/// input order, the records examined and the pages read.
pub struct ScanOutcome {
    pub rows: Vec<usize>,
    pub rows_scanned: usize,
    pub pages_read: usize,
}

/// A full scan with an optional equality filter.
pub struct SequentialScanBlock {
    metadata: BlockMetadata,
    input_ports: Vec<Port>,
    output_ports: Vec<Port>,
    metric_defs: Vec<MetricDefinition>,
    filter_column: Option<String>,
    filter_value: Option<JsonValue>,
    records_per_page: usize,
}

/// The value a filter text stands for: the number it spells, else the
/// text as a JSON string.
pub open spec fn filter_value_of(s: Seq<char>) -> JsonValue {
    match parsed_i64(s) {
        Some(n) => json_number(n),
        None => json_string(s),
    }
}

impl SequentialScanBlock {
    pub closed spec fn spec_filter_column(&self) -> Option<Seq<char>> {
        match self.filter_column {
            Some(c) => Some(c@),
            None => None,
        }
    }

    pub closed spec fn spec_filter_value(&self) -> Option<JsonValue> {
        self.filter_value
    }

    pub closed spec fn spec_records_per_page(&self) -> usize {
        self.records_per_page
    }

    /// Whether a record passes: with both a column and a value set, it
    /// must have the column, holding a value equal to the filter's; with
    /// either unset, every record passes.
    pub open spec fn keeps(&self, record: Seq<(Seq<char>, JsonValue)>) -> bool {
        match (self.spec_filter_column(), self.spec_filter_value()) {
            (Some(c), Some(v)) => match value_of(record, c) {
                Some(f) => json_equal(f, v),
                None => false,
            },
            _ => true,
        }
    }

    /// The positions of the records of `rs` that pass, in order.
    pub open spec fn kept_rows(&self, rs: Seq<Seq<(Seq<char>, JsonValue)>>) -> Seq<usize>
        decreases rs.len(),
    {
        if rs.len() == 0 {
            Seq::empty()
        } else {
            self.kept_rows(rs.drop_last()) + if self.keeps(rs.last()) {
                seq![(rs.len() - 1) as usize]
            } else {
                Seq::<usize>::empty()
            }
        }
    }

    /// No filter, and 100 records a page.
    pub fn new() -> (b: Self)
        ensures
            b.spec_filter_column() == None::<Seq<char>>,
            b.spec_filter_value() == None::<JsonValue>,
            b.spec_records_per_page() == 100,
            b.spec_metadata().id@ == "sequential-scan"@,
            b.spec_metadata().category == BlockCategory::Execution,
    {
        Self {
            metadata: Self::build_metadata(),
            input_ports: Self::build_inputs(),
            output_ports: Self::build_outputs(),
            metric_defs: Self::build_metrics(),
            filter_column: None,
            filter_value: None,
            records_per_page: 100,
        }
    }

    /// Sets what is given: a non-empty column name becomes the filter
    /// column; a non-empty value text becomes the filter value, the
    /// number it spells or else the text itself; a page size is taken as
    /// `usize`, as a cast does.
    pub fn configure(&mut self, filter_column: Option<String>, filter_value: Option<String>, records_per_page: Option<i64>)
        ensures
            final(self).spec_filter_column() == match filter_column {
                Some(c) if c@.len() > 0 => Some(c@),
                _ => old(self).spec_filter_column(),
            },
            final(self).spec_filter_value() == match filter_value {
                Some(v) if v@.len() > 0 => Some(filter_value_of(v@)),
                _ => old(self).spec_filter_value(),
            },
            final(self).spec_records_per_page() == match records_per_page {
                Some(n) => #[verifier::truncate] (n as usize),
                None => old(self).spec_records_per_page(),
            },
            final(self).spec_metadata() == old(self).spec_metadata(),
    {
        if let Some(c) = filter_column {
            if !c.as_str().is_empty() {
                self.filter_column = Some(c);
            }
        }
        if let Some(v) = filter_value {
            if !v.as_str().is_empty() {
                let value = match parse_i64(v.as_str()) {
                    Some(n) => json_from_i64(n),
                    None => json_from_string(v),
                };
                self.filter_value = Some(value);
            }
        }
        if let Some(n) = records_per_page {
            self.records_per_page = #[verifier::truncate] (n as usize);
        }
    }

    /// Filters on `column` equal to `value`.
    pub fn set_filter(&mut self, column: String, value: JsonValue)
        ensures
            final(self).spec_filter_column() == Some(column@),
            final(self).spec_filter_value() == Some(value),
            final(self).spec_records_per_page() == old(self).spec_records_per_page(),
            final(self).spec_metadata() == old(self).spec_metadata(),
    {
        self.filter_column = Some(column);
        self.filter_value = Some(value);
    }

    /// Sets the records per page.
    pub fn set_records_per_page(&mut self, records_per_page: usize)
        ensures
            final(self).spec_records_per_page() == records_per_page,
            final(self).spec_filter_column() == old(self).spec_filter_column(),
            final(self).spec_filter_value() == old(self).spec_filter_value(),
            final(self).spec_metadata() == old(self).spec_metadata(),
    {
        self.records_per_page = records_per_page;
    }

    /// The records per page.
    pub fn records_per_page(&self) -> (n: usize)
        ensures
            n == self.spec_records_per_page(),
    {
        self.records_per_page
    }

    /// Whether `record` passes the filter.
    pub fn matches_filter(&self, record: &Vec<(String, JsonValue)>) -> (r: bool)
        requires
            well_formed_record(record@),
        ensures
            r == self.keeps(fields_view(record@)),
    {
        match (&self.filter_column, &self.filter_value) {
            (Some(col), Some(val)) => match field_value(record, col.as_str()) {
                Some(v) => json_eq(v, val),
                None => false,
            },
            _ => true,
        }
    }

    /// Scans `records`: which pass, how many were examined, and how many
    /// pages they fill.
    pub fn scan(&self, records: &Vec<Vec<(String, JsonValue)>>) -> (r: ScanOutcome)
        requires
            forall|i: int| 0 <= i < records@.len() ==> well_formed_record(#[trigger] records@[i]@),
        ensures
            r.rows@ == self.kept_rows(records_view(records@)),
            r.rows_scanned == records@.len(),
            r.pages_read == page_count(records@.len() as nat, self.spec_records_per_page() as nat),
    {
        let ghost all = records_view(records@);
        let mut rows: Vec<usize> = Vec::new();
        let mut i: usize = 0;
        while i < records.len()
            invariant
                all == records_view(records@),
                0 <= i <= records@.len(),
                forall|j: int| 0 <= j < records@.len() ==> well_formed_record(#[trigger] records@[j]@),
                rows@ == self.kept_rows(all.take(i as int)),
            decreases records@.len() - i,
        {
            proof {
                assert(all.take(i as int + 1).drop_last() =~= all.take(i as int));
                assert(all.take(i as int + 1).last() == fields_view(records@[i as int]@));
            }
            if self.matches_filter(&records[i]) {
                rows.push(i);
            }
            proof {
                assert(rows@ =~= self.kept_rows(all.take(i as int + 1)));
            }
            i = i + 1;
        }
        proof {
            assert(all.take(i as int) =~= all);
        }
        let n = records.len();
        let per_page = self.records_per_page;
        proof {
            if per_page > 0 {
                let q = n / per_page;
                let m = n % per_page;
                assert(q * per_page + m == n && 0 <= m < per_page) by (nonlinear_arith)
                    requires per_page > 0, q == n / per_page, m == n % per_page;
                assert(m > 0 ==> q < n) by (nonlinear_arith)
                    requires per_page > 0, q * per_page + m == n, 0 <= m < per_page, q >= 0;
                assert((n + per_page - 1) / per_page as int == q + if m > 0 { 1int } else { 0int }) by (nonlinear_arith)
                    requires per_page > 0, q * per_page + m == n, 0 <= m < per_page;
            }
        }
        let pages = if per_page > 0 {
            n / per_page + if n % per_page > 0 {
                1usize
            } else {
                0usize
            }
        } else {
            n
        };
        ScanOutcome { rows, rows_scanned: n, pages_read: pages }
    }
}

impl SequentialScanBlock {
    fn build_documentation() -> (d: BlockDocumentation)
        ensures
            d.overview@ == "A sequential scan (also called a full table scan or seq scan) reads \
                           every page of a table from first to last. It is the simplest and \
                           most fundamental scan strategy in any database — no index is needed, \
                           no special data structure is required. The scan simply walks through \
                           every page and examines every record.\n\n\
                           Sequential scans are the fallback plan when no suitable index exists \
                           for the query's predicates. But they are not always bad: for queries \
                           that need to touch most rows anyway (analytics, aggregations, reports), \
                           a sequential scan is actually the optimal choice because it reads \
                           pages in order, which is friendly to disk prefetching and OS read-ahead \
                           caches.\n\n\
                           Think of it like reading a phone book from cover to cover to find \
                           everyone named 'Smith'. You will definitely find all of them, but \
                           you have to read every single page. If 80% of entries are named \
                           Smith, this is perfectly reasonable. If only 1 entry is named Smith, \
                           you would rather use the index at the back of the book."@,
            d.algorithm@ == "Sequential Scan Algorithm:\n\
                            \n\
                            FUNCTION sequential_scan(table, predicate):\n  \
                              results = []\n  \
                              pages_read = 0\n  \
                              FOR EACH page IN table.pages (in order):\n    \
                                pages_read += 1\n    \
                                FOR EACH record IN page.records:\n      \
                                  rows_scanned += 1\n      \
                                  IF predicate IS NULL OR predicate(record) == true:\n        \
                                    results.append(record)\n        \
                                    rows_returned += 1\n  \
                              selectivity = rows_returned / rows_scanned\n  \
                              RETURN results\n\
                            \n\
                            NOTE: Even when a predicate filters out most rows,\n\
                            ALL pages are still read — the I/O cost is the same."@,
            d.motivation@ == "Every database needs a way to read data when no index is available. \
                             The sequential scan is the universal fallback that always works, \
                             regardless of what indexes exist. Without it, queries on un-indexed \
                             columns would simply fail.\n\n\
                             Sequential scans also serve as the baseline for understanding query \
                             performance: if an index scan is not significantly faster than a seq \
                             scan, the optimizer may choose the simpler scan instead. Understanding \
                             when and why a sequential scan is chosen is fundamental to query \
                             tuning."@,
            d.complexity.time@ == "O(n) — must read every record"@,
            d.complexity.space@ == "O(1) — streams results, no buffering needed"@,
            d.use_cases@.len() == 5,
            d.use_cases@[0]@ == "Queries without an applicable index"@,
            d.use_cases@[1]@ == "Aggregations that need all rows (COUNT(*), SUM)"@,
            d.use_cases@[2]@ == "Small tables where index overhead isn't worthwhile"@,
            d.use_cases@[3]@ == "OLAP/analytics queries that process the majority of the table"@,
            d.use_cases@[4]@ == "Data export or ETL operations that read entire tables"@,
            d.tradeoffs@.len() == 5,
            d.tradeoffs@[0]@ == "Simple and reliable but slow on large tables"@,
            d.tradeoffs@[1]@ == "Predictable I/O pattern (sequential reads are cache-friendly)"@,
            d.tradeoffs@[2]@ == "Doesn't benefit from selectivity — reads everything regardless"@,
            d.tradeoffs@[3]@ == "Can pollute the buffer pool by loading pages that are only needed once, \
                     pushing out frequently accessed pages from other queries"@,
            d.tradeoffs@[4]@ == "Performs well on SSDs since random vs sequential I/O gap is smaller, \
                     but still reads unnecessary data when selectivity is low"@,
            d.examples@.len() == 3,
            d.examples@[0]@ == "PostgreSQL Seq Scan node — the query planner chooses this when the \
                     estimated selectivity is too high for an index scan to be worthwhile"@,
            d.examples@[1]@ == "MySQL full table scan — chosen when no usable index covers the WHERE \
                     clause columns"@,
            d.examples@[2]@ == "SQLite table scan — walks the B-tree leaf pages left to right"@,
            d.suggested_questions@.len() == 3,
            d.suggested_questions@[0]@ == "At what selectivity percentage does a sequential scan become faster \
                     than an index scan, and why?"@,
            d.suggested_questions@[1]@ == "How does the operating system's read-ahead optimization help sequential \
                     scans but not index scans?"@,
            d.suggested_questions@[2]@ == "Why might a database choose a sequential scan even when an index exists \
                     on the filtered column?"@,
            d.parameter_guide@.len() == 3,
            d.parameter_guide@[0].0@ == "filter_column"@,
            d.parameter_guide@[0].1@ == "The column name to filter on. When left empty, \
                                              no filter is applied and all rows are returned. \
                                              Setting a filter column simulates a WHERE clause — \
                                              the scan still reads every page, but only returns \
                                              rows where this column matches the filter value. \
                                              Use this to observe the difference between rows \
                                              scanned and rows returned."@,
            d.parameter_guide@[1].0@ == "filter_value"@,
            d.parameter_guide@[1].1@ == "The value to match in the filter column. Only rows \
                                             where filter_column equals this value are returned. \
                                             Try different values to see how selectivity changes. \
                                             A highly selective value (matching few rows) shows \
                                             why an index scan would be better — the seq scan \
                                             still reads every page regardless."@,
            d.parameter_guide@[2].0@ == "records_per_page"@,
            d.parameter_guide@[2].1@ == "Controls how many records fit on a simulated \
                                                 page. This affects the pages_read metric. Lower \
                                                 values simulate wider rows (fewer per page, more \
                                                 pages to read). Higher values simulate narrow rows. \
                                                 Typical databases fit 50-200 rows per 8 KB page \
                                                 depending on row width. Changing this helps you \
                                                 understand the relationship between row size and \
                                                 I/O cost."@,
            d.alternatives@.len() == 1,
            d.alternatives@[0].block_type@ == "index-scan"@,
            d.alternatives@[0].comparison@ == "An index scan reads only the pages containing matching \
                                     records, making it far faster for selective queries (e.g., \
                                     WHERE id = 42). However, index scans use random I/O \
                                     (jumping between pages) which is slower per page than \
                                     sequential I/O. The crossover point is typically around \
                                     5-15% selectivity: below that, index scan wins; above it, \
                                     sequential scan is often faster. Choose sequential scan \
                                     for analytics and bulk reads; choose index scan for \
                                     selective point queries."@,
    {
        let mut use_cases: Vec<String> = Vec::new();
        use_cases.push(String::from_str("Queries without an applicable index"));
        use_cases.push(String::from_str("Aggregations that need all rows (COUNT(*), SUM)"));
        use_cases.push(String::from_str("Small tables where index overhead isn't worthwhile"));
        use_cases.push(String::from_str("OLAP/analytics queries that process the majority of the table"));
        use_cases.push(String::from_str("Data export or ETL operations that read entire tables"));
        let mut tradeoffs: Vec<String> = Vec::new();
        tradeoffs.push(String::from_str("Simple and reliable but slow on large tables"));
        tradeoffs.push(String::from_str("Predictable I/O pattern (sequential reads are cache-friendly)"));
        tradeoffs.push(String::from_str("Doesn't benefit from selectivity — reads everything regardless"));
        tradeoffs.push(String::from_str("Can pollute the buffer pool by loading pages that are only needed once, \
                     pushing out frequently accessed pages from other queries"));
        tradeoffs.push(String::from_str("Performs well on SSDs since random vs sequential I/O gap is smaller, \
                     but still reads unnecessary data when selectivity is low"));
        let mut examples: Vec<String> = Vec::new();
        examples.push(String::from_str("PostgreSQL Seq Scan node — the query planner chooses this when the \
                     estimated selectivity is too high for an index scan to be worthwhile"));
        examples.push(String::from_str("MySQL full table scan — chosen when no usable index covers the WHERE \
                     clause columns"));
        examples.push(String::from_str("SQLite table scan — walks the B-tree leaf pages left to right"));
        let mut suggested_questions: Vec<String> = Vec::new();
        suggested_questions.push(String::from_str("At what selectivity percentage does a sequential scan become faster \
                     than an index scan, and why?"));
        suggested_questions.push(String::from_str("How does the operating system's read-ahead optimization help sequential \
                     scans but not index scans?"));
        suggested_questions.push(String::from_str("Why might a database choose a sequential scan even when an index exists \
                     on the filtered column?"));
        let mut parameter_guide: Vec<(String, String)> = Vec::new();
        parameter_guide.push((String::from_str("filter_column"), String::from_str("The column name to filter on. When left empty, \
                                              no filter is applied and all rows are returned. \
                                              Setting a filter column simulates a WHERE clause — \
                                              the scan still reads every page, but only returns \
                                              rows where this column matches the filter value. \
                                              Use this to observe the difference between rows \
                                              scanned and rows returned.")));
        parameter_guide.push((String::from_str("filter_value"), String::from_str("The value to match in the filter column. Only rows \
                                             where filter_column equals this value are returned. \
                                             Try different values to see how selectivity changes. \
                                             A highly selective value (matching few rows) shows \
                                             why an index scan would be better — the seq scan \
                                             still reads every page regardless.")));
        parameter_guide.push((String::from_str("records_per_page"), String::from_str("Controls how many records fit on a simulated \
                                                 page. This affects the pages_read metric. Lower \
                                                 values simulate wider rows (fewer per page, more \
                                                 pages to read). Higher values simulate narrow rows. \
                                                 Typical databases fit 50-200 rows per 8 KB page \
                                                 depending on row width. Changing this helps you \
                                                 understand the relationship between row size and \
                                                 I/O cost.")));
        let mut alternatives: Vec<Alternative> = Vec::new();
        alternatives.push(Alternative { block_type: String::from_str("index-scan"), comparison: String::from_str("An index scan reads only the pages containing matching \
                                     records, making it far faster for selective queries (e.g., \
                                     WHERE id = 42). However, index scans use random I/O \
                                     (jumping between pages) which is slower per page than \
                                     sequential I/O. The crossover point is typically around \
                                     5-15% selectivity: below that, index scan wins; above it, \
                                     sequential scan is often faster. Choose sequential scan \
                                     for analytics and bulk reads; choose index scan for \
                                     selective point queries.") });
        BlockDocumentation {
            overview: String::from_str("A sequential scan (also called a full table scan or seq scan) reads \
                           every page of a table from first to last. It is the simplest and \
                           most fundamental scan strategy in any database — no index is needed, \
                           no special data structure is required. The scan simply walks through \
                           every page and examines every record.\n\n\
                           Sequential scans are the fallback plan when no suitable index exists \
                           for the query's predicates. But they are not always bad: for queries \
                           that need to touch most rows anyway (analytics, aggregations, reports), \
                           a sequential scan is actually the optimal choice because it reads \
                           pages in order, which is friendly to disk prefetching and OS read-ahead \
                           caches.\n\n\
                           Think of it like reading a phone book from cover to cover to find \
                           everyone named 'Smith'. You will definitely find all of them, but \
                           you have to read every single page. If 80% of entries are named \
                           Smith, this is perfectly reasonable. If only 1 entry is named Smith, \
                           you would rather use the index at the back of the book."),
            algorithm: String::from_str("Sequential Scan Algorithm:\n\
                            \n\
                            FUNCTION sequential_scan(table, predicate):\n  \
                              results = []\n  \
                              pages_read = 0\n  \
                              FOR EACH page IN table.pages (in order):\n    \
                                pages_read += 1\n    \
                                FOR EACH record IN page.records:\n      \
                                  rows_scanned += 1\n      \
                                  IF predicate IS NULL OR predicate(record) == true:\n        \
                                    results.append(record)\n        \
                                    rows_returned += 1\n  \
                              selectivity = rows_returned / rows_scanned\n  \
                              RETURN results\n\
                            \n\
                            NOTE: Even when a predicate filters out most rows,\n\
                            ALL pages are still read — the I/O cost is the same."),
            complexity: Complexity { time: String::from_str("O(n) — must read every record"), space: String::from_str("O(1) — streams results, no buffering needed") },
            use_cases,
            tradeoffs,
            examples,
            motivation: String::from_str("Every database needs a way to read data when no index is available. \
                             The sequential scan is the universal fallback that always works, \
                             regardless of what indexes exist. Without it, queries on un-indexed \
                             columns would simply fail.\n\n\
                             Sequential scans also serve as the baseline for understanding query \
                             performance: if an index scan is not significantly faster than a seq \
                             scan, the optimizer may choose the simpler scan instead. Understanding \
                             when and why a sequential scan is chosen is fundamental to query \
                             tuning."),
            parameter_guide,
            alternatives,
            suggested_questions,
        }
    }

    fn build_references() -> (r: Vec<Reference>)
        ensures
            r@.len() == 1,
            r@[0].ref_type == ReferenceType::Book,
            r@[0].title@ == "Database Internals by Alex Petrov — Chapter 5: Query Processing"@,
            r@[0].url is None,
            r@[0].citation matches Some(t) && t@ == "Petrov, A. (2019). Database Internals. O'Reilly."@,
    {
        let mut r: Vec<Reference> = Vec::new();
        r.push(Reference { ref_type: ReferenceType::Book, title: String::from_str("Database Internals by Alex Petrov — Chapter 5: Query Processing"), url: None, citation: Some(String::from_str("Petrov, A. (2019). Database Internals. O'Reilly.")) });
        r
    }

    fn build_metadata() -> (m: BlockMetadata)
        ensures
            m.documentation.overview@ == "A sequential scan (also called a full table scan or seq scan) reads \
                           every page of a table from first to last. It is the simplest and \
                           most fundamental scan strategy in any database — no index is needed, \
                           no special data structure is required. The scan simply walks through \
                           every page and examines every record.\n\n\
                           Sequential scans are the fallback plan when no suitable index exists \
                           for the query's predicates. But they are not always bad: for queries \
                           that need to touch most rows anyway (analytics, aggregations, reports), \
                           a sequential scan is actually the optimal choice because it reads \
                           pages in order, which is friendly to disk prefetching and OS read-ahead \
                           caches.\n\n\
                           Think of it like reading a phone book from cover to cover to find \
                           everyone named 'Smith'. You will definitely find all of them, but \
                           you have to read every single page. If 80% of entries are named \
                           Smith, this is perfectly reasonable. If only 1 entry is named Smith, \
                           you would rather use the index at the back of the book."@,
            m.references@.len() == 1,
            m.id@ == "sequential-scan"@,
            m.category == BlockCategory::Execution,
            m.name@ == "Sequential Scan"@,
            m.description@ == "Full table scan that reads every page sequentially"@,
            m.version@ == "1.0.0"@,
            m.icon@ == "scan-line"@,
            m.color@ == "#06B6D4"@,
    {
        BlockMetadata::new(
            "sequential-scan",
            "Sequential Scan",
            BlockCategory::Execution,
            "Full table scan that reads every page sequentially",
            "scan-line",
            "#06B6D4",
            Self::build_documentation(),
            Self::build_references(),
        )
    }

    fn build_inputs() -> (p: Vec<Port>)
        ensures
            p@.len() == 1,
            p@[0].id@ == "records"@,
    {
        let mut p: Vec<Port> = Vec::new();
        p.push(
            Port::new(
                "records",
                "Records",
                PortDirection::Input,
                true,
                false,
                "Records from a storage block to scan",
            ),
        );
        p
    }

    fn build_outputs() -> (p: Vec<Port>)
        ensures
            p@.len() == 1,
            p@[0].id@ == "results"@,
    {
        let mut p: Vec<Port> = Vec::new();
        p.push(
            Port::new(
                "results",
                "Scan Results",
                PortDirection::Output,
                false,
                true,
                "Records that passed the scan filter",
            ),
        );
        p
    }

    fn build_metrics() -> (v: Vec<MetricDefinition>)
        ensures
            v@.len() == 4,
            v@[0].id@ == "rows_scanned"@,
            v@[1].id@ == "rows_returned"@,
            v@[2].id@ == "pages_read"@,
            v@[3].id@ == "selectivity"@,
    {
        let mut v: Vec<MetricDefinition> = Vec::new();
        v.push(
            MetricDefinition::new(
                "rows_scanned",
                "Rows Scanned",
                MetricType::Counter,
                "rows",
                "Total rows examined",
                AggregationType::Sum,
            ),
        );
        v.push(
            MetricDefinition::new(
                "rows_returned",
                "Rows Returned",
                MetricType::Counter,
                "rows",
                "Rows that passed the filter",
                AggregationType::Sum,
            ),
        );
        v.push(
            MetricDefinition::new(
                "pages_read",
                "Pages Read",
                MetricType::Counter,
                "pages",
                "Simulated page reads",
                AggregationType::Sum,
            ),
        );
        v.push(
            MetricDefinition::new(
                "selectivity",
                "Selectivity",
                MetricType::Gauge,
                "%",
                "Fraction of rows returned",
                AggregationType::Avg,
            ),
        );
        v
    }

    /// What the block says about itself.
    pub fn metadata(&self) -> (m: &BlockMetadata)
        ensures
            m == self.spec_metadata(),
    {
        &self.metadata
    }

    pub closed spec fn spec_metadata(&self) -> BlockMetadata {
        self.metadata
    }

    /// The block's input ports.
    pub fn inputs(&self) -> (p: &Vec<Port>)
        ensures
            p == self.spec_inputs(),
    {
        &self.input_ports
    }

    pub closed spec fn spec_inputs(&self) -> Vec<Port> {
        self.input_ports
    }

    /// The block's output ports.
    pub fn outputs(&self) -> (p: &Vec<Port>)
        ensures
            p == self.spec_outputs(),
    {
        &self.output_ports
    }

    pub closed spec fn spec_outputs(&self) -> Vec<Port> {
        self.output_ports
    }

    /// The metrics the block reports.
    pub fn metrics(&self) -> (m: &Vec<MetricDefinition>)
        ensures
            m == self.spec_metrics(),
    {
        &self.metric_defs
    }

    pub closed spec fn spec_metrics(&self) -> Vec<MetricDefinition> {
        self.metric_defs
    }
}

} // verus!
