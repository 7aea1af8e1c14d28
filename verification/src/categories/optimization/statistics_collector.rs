//! Statistics Collector Block
//!
//! Samples every `step`-th row (the step comes from the sample rate: 1
//! when every row is sampled, else the reciprocal of the rate rounded up)
//! and gathers, over the sampled rows, the distinct keys, the rows
//! without a key, the smallest and largest key and the total row width
//! (8 bytes a field).
use std::collections::HashSet;
use vstd::prelude::*;
use vstd::string::*;

use crate::common::block::{Alternative, BlockCategory, BlockDocumentation, BlockMetadata, Complexity, Reference, ReferenceType};
use crate::common::metrics::{AggregationType, MetricDefinition, MetricType};
use crate::common::port::{Port, PortDirection};

verus! {

broadcast use vstd::std_specs::hash::group_hash_axioms;

/// Row `i` is sampled.
pub open spec fn sampled(i: int, step: usize) -> bool {
    i % (step as int) == 0
}

/// The number of sampled rows among the first `n`.
pub open spec fn sampled_count(n: int, step: usize) -> nat
    decreases n,
{
    if n <= 0 {
        0
    } else {
        sampled_count(n - 1, step) + if sampled(n - 1, step) {
            1nat
        } else {
            0nat
        }
    }
}

/// The number of sampled rows among the first `n` without a key.
pub open spec fn null_count_of(keys: Seq<Option<u64>>, n: int, step: usize) -> nat
    decreases n,
{
    if n <= 0 {
        0
    } else {
        null_count_of(keys, n - 1, step) + if sampled(n - 1, step) && keys[n - 1] is None {
            1nat
        } else {
            0nat
        }
    }
}

/// The total width, 8 bytes a field, of the sampled rows among the first
/// `n`.
pub open spec fn width_of(fields: Seq<usize>, n: int, step: usize) -> nat
    decreases n,
{
    if n <= 0 {
        0
    } else {
        width_of(fields, n - 1, step) + if sampled(n - 1, step) {
            (8 * fields[n - 1]) as nat
        } else {
            0nat
        }
    }
}

/// The keys of the sampled rows among the first `n`.
pub open spec fn keys_of(keys: Seq<Option<u64>>, n: int, step: usize) -> Set<u64> {
    Set::new(|k: u64| exists|i: int| 0 <= i < n && sampled(i, step) && #[trigger] keys[i] == Some(k))
}

/// The smaller of a running minimum and a key.
pub open spec fn min_with(m: Option<u64>, k: u64) -> Option<u64> {
    match m {
        Some(x) => if k < x {
            Some(k)
        } else {
            Some(x)
        },
        None => Some(k),
    }
}

/// The larger of a running maximum and a key.
pub open spec fn max_with(m: Option<u64>, k: u64) -> Option<u64> {
    match m {
        Some(x) => if k > x {
            Some(k)
        } else {
            Some(x)
        },
        None => Some(k),
    }
}

/// The running minimum after the sampled keys among the first `n`.
pub open spec fn min_of(m: Option<u64>, keys: Seq<Option<u64>>, n: int, step: usize) -> Option<u64>
    decreases n,
{
    if n <= 0 {
        m
    } else {
        match keys[n - 1] {
            Some(k) if sampled(n - 1, step) => min_with(min_of(m, keys, n - 1, step), k),
            _ => min_of(m, keys, n - 1, step),
        }
    }
}

/// The running maximum after the sampled keys among the first `n`.
pub open spec fn max_of(m: Option<u64>, keys: Seq<Option<u64>>, n: int, step: usize) -> Option<u64>
    decreases n,
{
    if n <= 0 {
        m
    } else {
        match keys[n - 1] {
            Some(k) if sampled(n - 1, step) => max_with(max_of(m, keys, n - 1, step), k),
            _ => max_of(m, keys, n - 1, step),
        }
    }
}

/// What one collection reports: the rows seen, and the total width of
/// the rows sampled.
pub struct CollectResult {
    pub total_rows: usize,
    pub total_width: usize,
}

/// Gathers column statistics over sampled rows.
pub struct StatisticsCollectorBlock {
    metadata: BlockMetadata,
    input_ports: Vec<Port>,
    output_ports: Vec<Port>,
    metric_defs: Vec<MetricDefinition>,
    sample_step: usize,
    histogram_buckets: usize,
    rows_sampled: usize,
    distinct_values: usize,
    null_count: usize,
    min_key: Option<u64>,
    max_key: Option<u64>,
}

impl StatisticsCollectorBlock {
    pub closed spec fn spec_sample_step(&self) -> usize {
        self.sample_step
    }

    pub closed spec fn spec_histogram_buckets(&self) -> usize {
        self.histogram_buckets
    }

    pub closed spec fn spec_rows_sampled(&self) -> usize {
        self.rows_sampled
    }

    pub closed spec fn spec_distinct_values(&self) -> usize {
        self.distinct_values
    }

    pub closed spec fn spec_null_count(&self) -> usize {
        self.null_count
    }

    pub closed spec fn spec_min_key(&self) -> Option<u64> {
        self.min_key
    }

    pub closed spec fn spec_max_key(&self) -> Option<u64> {
        self.max_key
    }

    /// The sampling step is at least 1.
    pub open spec fn wf(&self) -> bool {
        self.spec_sample_step() > 0
    }

    /// A collector sampling every tenth row (a rate of 0.1) into 100
    /// histogram buckets.
    pub fn new() -> (c: Self)
        ensures
            c.wf(),
            c.spec_sample_step() == 10,
            c.spec_histogram_buckets() == 100,
            c.spec_rows_sampled() == 0,
            c.spec_distinct_values() == 0,
            c.spec_null_count() == 0,
            c.spec_min_key() == None::<u64>,
            c.spec_max_key() == None::<u64>,
            c.spec_metadata().id@ == "statistics-collector"@,
            c.spec_metadata().category == BlockCategory::Optimization,
    {
        Self {
            metadata: Self::build_metadata(),
            input_ports: Self::build_inputs(),
            output_ports: Self::build_outputs(),
            metric_defs: Self::build_metrics(),
            sample_step: 10,
            histogram_buckets: 100,
            rows_sampled: 0,
            distinct_values: 0,
            null_count: 0,
            min_key: None,
            max_key: None,
        }
    }

    /// Sets the sampling step: every `step`-th row is sampled.
    pub fn set_sample_step(&mut self, step: usize)
        requires
            step > 0,
        ensures
            final(self).wf(),
            final(self).spec_sample_step() == step,
            final(self).spec_histogram_buckets() == old(self).spec_histogram_buckets(),
            final(self).spec_rows_sampled() == old(self).spec_rows_sampled(),
            final(self).spec_distinct_values() == old(self).spec_distinct_values(),
            final(self).spec_null_count() == old(self).spec_null_count(),
            final(self).spec_min_key() == old(self).spec_min_key(),
            final(self).spec_max_key() == old(self).spec_max_key(),
    {
        self.sample_step = step;
    }

    pub fn set_histogram_buckets(&mut self, buckets: usize)
        ensures
            final(self).spec_histogram_buckets() == buckets,
            final(self).spec_sample_step() == old(self).spec_sample_step(),
    {
        self.histogram_buckets = buckets;
    }

    /// Samples rows whose keys are `keys` and whose field counts are
    /// `field_counts` (one of each per row). Rows sampled and rows without
    /// a key add to the running counts, the smallest and largest key
    /// carry over, and the distinct keys are those of this sample.
    pub fn collect(&mut self, keys: &Vec<Option<u64>>, field_counts: &Vec<usize>) -> (r: CollectResult)
        requires
            old(self).wf(),
            keys@.len() == field_counts@.len(),
            old(self).spec_rows_sampled() + keys@.len() <= usize::MAX,
            old(self).spec_null_count() + keys@.len() <= usize::MAX,
            width_of(field_counts@, keys@.len() as int, old(self).spec_sample_step()) <= usize::MAX,
        ensures
            final(self).wf(),
            r.total_rows == keys@.len(),
            r.total_width == width_of(field_counts@, keys@.len() as int, old(self).spec_sample_step()),
            final(self).spec_rows_sampled() == old(self).spec_rows_sampled() + sampled_count(keys@.len() as int, old(self).spec_sample_step()),
            final(self).spec_null_count() == old(self).spec_null_count() + null_count_of(keys@, keys@.len() as int, old(self).spec_sample_step()),
            final(self).spec_distinct_values() == keys_of(keys@, keys@.len() as int, old(self).spec_sample_step()).len(),
            final(self).spec_min_key() == min_of(old(self).spec_min_key(), keys@, keys@.len() as int, old(self).spec_sample_step()),
            final(self).spec_max_key() == max_of(old(self).spec_max_key(), keys@, keys@.len() as int, old(self).spec_sample_step()),
            final(self).spec_sample_step() == old(self).spec_sample_step(),
            final(self).spec_histogram_buckets() == old(self).spec_histogram_buckets(),
    {
        let step = self.sample_step;
        let n = keys.len();
        let mut distinct: HashSet<u64> = HashSet::new();
        let mut total_width: usize = 0;
        let mut i: usize = 0;
        while i < n
            invariant
                n == keys@.len(),
                n == field_counts@.len(),
                step == old(self).spec_sample_step(),
                step > 0,
                self.sample_step == step,
                self.histogram_buckets == old(self).histogram_buckets,
                0 <= i <= n,
                self.rows_sampled == old(self).rows_sampled + sampled_count(i as int, step),
                self.null_count == old(self).null_count + null_count_of(keys@, i as int, step),
                sampled_count(i as int, step) <= i,
                null_count_of(keys@, i as int, step) <= i,
                old(self).spec_rows_sampled() + n <= usize::MAX,
                old(self).spec_null_count() + n <= usize::MAX,
                width_of(field_counts@, n as int, step) <= usize::MAX,
                total_width == width_of(field_counts@, i as int, step),
                distinct@ == keys_of(keys@, i as int, step),
                self.min_key == min_of(old(self).min_key, keys@, i as int, step),
                self.max_key == max_of(old(self).max_key, keys@, i as int, step),
            decreases n - i,
        {
            proof {
                lemma_width_prefix(field_counts@, i as int + 1, n as int, step);
            }
            if i % step == 0 {
                self.rows_sampled = self.rows_sampled + 1;
                match keys[i] {
                    Some(k) => {
                        distinct.insert(k);
                        self.min_key = match self.min_key {
                            Some(m) => if k < m { Some(k) } else { Some(m) },
                            None => Some(k),
                        };
                        self.max_key = match self.max_key {
                            Some(m) => if k > m { Some(k) } else { Some(m) },
                            None => Some(k),
                        };
                    },
                    None => {
                        self.null_count = self.null_count + 1;
                    },
                }
                total_width = total_width + field_counts[i] * 8;
            }
            proof {
                assert(distinct@ =~= keys_of(keys@, i as int + 1, step)) by {
                    assert forall|k: u64| distinct@.contains(k) <==> keys_of(keys@, i as int + 1, step).contains(k) by {
                        if keys_of(keys@, i as int + 1, step).contains(k) {
                            let t = choose|t: int| 0 <= t < i + 1 && sampled(t, step) && #[trigger] keys@[t] == Some(k);
                            if t < i {
                                assert(keys_of(keys@, i as int, step).contains(k));
                            }
                        }
                        if keys_of(keys@, i as int, step).contains(k) {
                            let t = choose|t: int| 0 <= t < i && sampled(t, step) && #[trigger] keys@[t] == Some(k);
                            assert(0 <= t < i + 1 && sampled(t, step) && keys@[t] == Some(k));
                        }
                    }
                }
            }
            i = i + 1;
        }
        self.distinct_values = distinct.len();
        CollectResult { total_rows: n, total_width }
    }

    #[verifier::when_used_as_spec(spec_sample_step)]
    pub fn sample_step(&self) -> (r: usize)
        ensures
            r == self.spec_sample_step(),
    {
        self.sample_step
    }

    #[verifier::when_used_as_spec(spec_histogram_buckets)]
    pub fn histogram_buckets(&self) -> (r: usize)
        ensures
            r == self.spec_histogram_buckets(),
    {
        self.histogram_buckets
    }

    /// Rows sampled so far.
    #[verifier::when_used_as_spec(spec_rows_sampled)]
    pub fn rows_sampled(&self) -> (r: usize)
        ensures
            r == self.spec_rows_sampled(),
    {
        self.rows_sampled
    }

    /// Distinct keys in the last sample.
    #[verifier::when_used_as_spec(spec_distinct_values)]
    pub fn distinct_values(&self) -> (r: usize)
        ensures
            r == self.spec_distinct_values(),
    {
        self.distinct_values
    }

    /// Sampled rows without a key so far.
    #[verifier::when_used_as_spec(spec_null_count)]
    pub fn null_count(&self) -> (r: usize)
        ensures
            r == self.spec_null_count(),
    {
        self.null_count
    }

    /// The smallest key sampled so far.
    #[verifier::when_used_as_spec(spec_min_key)]
    pub fn min_key(&self) -> (r: Option<u64>)
        ensures
            r == self.spec_min_key(),
    {
        self.min_key
    }

    /// The largest key sampled so far.
    #[verifier::when_used_as_spec(spec_max_key)]
    pub fn max_key(&self) -> (r: Option<u64>)
        ensures
            r == self.spec_max_key(),
    {
        self.max_key
    }
}

proof fn lemma_width_prefix(fields: Seq<usize>, k: int, n: int, step: usize)
    requires
        0 <= k <= n,
    ensures
        width_of(fields, k, step) <= width_of(fields, n, step),
    decreases n - k,
{
    if k < n {
        lemma_width_prefix(fields, k, n - 1, step);
    }
}

impl StatisticsCollectorBlock {
    fn build_documentation() -> (d: BlockDocumentation)
        ensures
            d.overview@ == "The statistics collector analyzes table data to build statistics \
                           that query planners use for cost estimation. It samples rows, \
                           estimates cardinality (distinct values), tracks value distributions, \
                           and calculates selectivity estimates. This is what PostgreSQL's \
                           ANALYZE command does internally."@,
            d.algorithm@ == "Sample rows at the configured rate. For each sampled row, track \
                            distinct values using a hash set (HyperLogLog in production), \
                            compute min/max, count NULLs, and build an equi-depth histogram."@,
            d.motivation@ == Seq::<char>::empty(),
            d.complexity.time@ == "O(n × sample_rate) — reads a fraction of the table"@,
            d.complexity.space@ == "O(distinct_values + histogram_buckets)"@,
            d.use_cases@.len() == 3,
            d.use_cases@[0]@ == "PostgreSQL's ANALYZE populates pg_statistic for the query planner"@,
            d.use_cases@[1]@ == "MySQL's InnoDB samples pages for index statistics"@,
            d.use_cases@[2]@ == "Cost-based optimizer uses cardinality to choose join order"@,
            d.tradeoffs@.len() == 4,
            d.tradeoffs@[0]@ == "Higher sample rate = more accurate but slower"@,
            d.tradeoffs@[1]@ == "Stale statistics lead to suboptimal query plans"@,
            d.tradeoffs@[2]@ == "More histogram buckets = better selectivity estimates"@,
            d.tradeoffs@[3]@ == "Auto-analyze in PostgreSQL triggers after enough row changes"@,
            d.examples@.len() == 3,
            d.examples@[0]@ == "PostgreSQL: ANALYZE tablename"@,
            d.examples@[1]@ == "MySQL: ANALYZE TABLE tablename"@,
            d.examples@[2]@ == "Oracle: DBMS_STATS.GATHER_TABLE_STATS"@,
            d.suggested_questions@.len() == 0,
            d.parameter_guide@.len() == 0,
            d.alternatives@.len() == 0,
    {
        let mut use_cases: Vec<String> = Vec::new();
        use_cases.push(String::from_str("PostgreSQL's ANALYZE populates pg_statistic for the query planner"));
        use_cases.push(String::from_str("MySQL's InnoDB samples pages for index statistics"));
        use_cases.push(String::from_str("Cost-based optimizer uses cardinality to choose join order"));
        let mut tradeoffs: Vec<String> = Vec::new();
        tradeoffs.push(String::from_str("Higher sample rate = more accurate but slower"));
        tradeoffs.push(String::from_str("Stale statistics lead to suboptimal query plans"));
        tradeoffs.push(String::from_str("More histogram buckets = better selectivity estimates"));
        tradeoffs.push(String::from_str("Auto-analyze in PostgreSQL triggers after enough row changes"));
        let mut examples: Vec<String> = Vec::new();
        examples.push(String::from_str("PostgreSQL: ANALYZE tablename"));
        examples.push(String::from_str("MySQL: ANALYZE TABLE tablename"));
        examples.push(String::from_str("Oracle: DBMS_STATS.GATHER_TABLE_STATS"));
        let mut suggested_questions: Vec<String> = Vec::new();
        let mut parameter_guide: Vec<(String, String)> = Vec::new();
        let mut alternatives: Vec<Alternative> = Vec::new();
        BlockDocumentation {
            overview: String::from_str("The statistics collector analyzes table data to build statistics \
                           that query planners use for cost estimation. It samples rows, \
                           estimates cardinality (distinct values), tracks value distributions, \
                           and calculates selectivity estimates. This is what PostgreSQL's \
                           ANALYZE command does internally."),
            algorithm: String::from_str("Sample rows at the configured rate. For each sampled row, track \
                            distinct values using a hash set (HyperLogLog in production), \
                            compute min/max, count NULLs, and build an equi-depth histogram."),
            complexity: Complexity { time: String::from_str("O(n × sample_rate) — reads a fraction of the table"), space: String::from_str("O(distinct_values + histogram_buckets)") },
            use_cases,
            tradeoffs,
            examples,
            motivation: String::new(),
            parameter_guide,
            alternatives,
            suggested_questions,
        }
    }

    fn build_references() -> (r: Vec<Reference>)
        ensures
            r@.len() == 1,
            r@[0].ref_type == ReferenceType::Book,
            r@[0].title@ == "Database Internals by Alex Petrov — Chapter 13: Query Optimization"@,
            r@[0].url is None,
            r@[0].citation matches Some(t) && t@ == "Petrov, A. (2019). Database Internals. O'Reilly."@,
    {
        let mut r: Vec<Reference> = Vec::new();
        r.push(Reference { ref_type: ReferenceType::Book, title: String::from_str("Database Internals by Alex Petrov — Chapter 13: Query Optimization"), url: None, citation: Some(String::from_str("Petrov, A. (2019). Database Internals. O'Reilly.")) });
        r
    }

    fn build_metadata() -> (m: BlockMetadata)
        ensures
            m.documentation.overview@ == "The statistics collector analyzes table data to build statistics \
                           that query planners use for cost estimation. It samples rows, \
                           estimates cardinality (distinct values), tracks value distributions, \
                           and calculates selectivity estimates. This is what PostgreSQL's \
                           ANALYZE command does internally."@,
            m.references@.len() == 1,
            m.id@ == "statistics-collector"@,
            m.category == BlockCategory::Optimization,
            m.name@ == "Statistics Collector"@,
            m.description@ == "Gathers table/column statistics for cost-based query planning"@,
            m.version@ == "1.0.0"@,
            m.icon@ == "sparkles"@,
            m.color@ == "#8B5CF6"@,
    {
        BlockMetadata::new(
            "statistics-collector",
            "Statistics Collector",
            BlockCategory::Optimization,
            "Gathers table/column statistics for cost-based query planning",
            "sparkles",
            "#8B5CF6",
            Self::build_documentation(),
            Self::build_references(),
        )
    }

    fn build_inputs() -> (p: Vec<Port>)
        ensures
            p@.len() == 1,
            p@[0].id@ == "records"@,
    {
        let mut p: Vec<Port> = Vec::new();
        p.push(
            Port::new(
                "records",
                "Table Data",
                PortDirection::Input,
                true,
                false,
                "Records to analyze for statistics collection",
            ),
        );
        p
    }

    fn build_outputs() -> (p: Vec<Port>)
        ensures
            p@.len() == 1,
            p@[0].id@ == "statistics"@,
    {
        let mut p: Vec<Port> = Vec::new();
        p.push(
            Port::new(
                "statistics",
                "Statistics",
                PortDirection::Output,
                false,
                true,
                "Statistics summary records with cardinality, distribution info",
            ),
        );
        p
    }

    fn build_metrics() -> (v: Vec<MetricDefinition>)
        ensures
            v@.len() == 6,
            v@[0].id@ == "rows_sampled"@,
            v@[1].id@ == "distinct_values"@,
            v@[2].id@ == "null_count"@,
            v@[3].id@ == "min_value"@,
            v@[4].id@ == "max_value"@,
            v@[5].id@ == "avg_row_width"@,
    {
        let mut v: Vec<MetricDefinition> = Vec::new();
        v.push(
            MetricDefinition::new(
                "rows_sampled",
                "Rows Sampled",
                MetricType::Counter,
                "rows",
                "Number of rows analyzed",
                AggregationType::Sum,
            ),
        );
        v.push(
            MetricDefinition::new(
                "distinct_values",
                "Distinct Values",
                MetricType::Gauge,
                "values",
                "Estimated number of distinct values (cardinality)",
                AggregationType::Max,
            ),
        );
        v.push(
            MetricDefinition::new(
                "null_count",
                "NULL Count",
                MetricType::Counter,
                "rows",
                "Number of NULL values encountered",
                AggregationType::Sum,
            ),
        );
        v.push(
            MetricDefinition::new(
                "min_value",
                "Min Value",
                MetricType::Gauge,
                "",
                "Minimum value in the sampled data",
                AggregationType::Min,
            ),
        );
        v.push(
            MetricDefinition::new(
                "max_value",
                "Max Value",
                MetricType::Gauge,
                "",
                "Maximum value in the sampled data",
                AggregationType::Max,
            ),
        );
        v.push(
            MetricDefinition::new(
                "avg_row_width",
                "Avg Row Width",
                MetricType::Gauge,
                "bytes",
                "Average row size in bytes (estimated)",
                AggregationType::Avg,
            ),
        );
        v
    }

    /// What the block says about itself.
    pub fn metadata(&self) -> (m: &BlockMetadata)
        ensures
            m == self.spec_metadata(),
    {
        &self.metadata
    }

    pub closed spec fn spec_metadata(&self) -> BlockMetadata {
        self.metadata
    }

    /// The block's input ports.
    pub fn inputs(&self) -> (p: &Vec<Port>)
        ensures
            p == self.spec_inputs(),
    {
        &self.input_ports
    }

    pub closed spec fn spec_inputs(&self) -> Vec<Port> {
        self.input_ports
    }

    /// The block's output ports.
    pub fn outputs(&self) -> (p: &Vec<Port>)
        ensures
            p == self.spec_outputs(),
    {
        &self.output_ports
    }

    pub closed spec fn spec_outputs(&self) -> Vec<Port> {
        self.output_ports
    }

    /// The metrics the block reports.
    pub fn metrics(&self) -> (m: &Vec<MetricDefinition>)
        ensures
            m == self.spec_metrics(),
    {
        &self.metric_defs
    }

    pub closed spec fn spec_metrics(&self) -> Vec<MetricDefinition> {
        self.metric_defs
    }
}
} // verus!
