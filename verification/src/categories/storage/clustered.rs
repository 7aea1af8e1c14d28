//! Clustered Storage Block
//!
//! Keeps records in the order of a cluster key: one record per key text, a
//! later record replacing an earlier one with the same key. An insert
//! whose key sorts before the previous insert's counts as a page split;
//! one that does not counts as an in-order insert.
use serde_json::Value as JsonValue;
use vstd::prelude::*;
use vstd::string::*;

use crate::common::block::{Alternative, BlockCategory, BlockDocumentation, BlockMetadata, Complexity, Reference, ReferenceType};
use crate::common::json::{json_text, json_text_of};
use crate::common::keyed::{distinct_keys, has_key, lemma_key_index, lemma_push_row, lemma_update_value, value_of};
use crate::common::metrics::{AggregationType, MetricDefinition, MetricType};
use crate::common::port::{Port, PortDirection};

verus! {

/// Records stored by cluster key.
pub struct ClusteredStorageBlock {
    metadata: BlockMetadata,
    input_ports: Vec<Port>,
    output_ports: Vec<Port>,
    metric_defs: Vec<MetricDefinition>,
    cluster_key: String,
    page_size: usize,
    store: Vec<(String, JsonValue)>,
    page_splits: usize,
    inserts_in_order: usize,
    last_key_value: Option<JsonValue>,
}

impl ClusteredStorageBlock {
    /// The stored records, by key text.
    pub closed spec fn rows(&self) -> Seq<(Seq<char>, JsonValue)> {
        self.store@.map_values(|e: (String, JsonValue)| (e.0@, e.1))
    }

    /// The record stored under key text `k`, if any.
    pub open spec fn record_of(&self, k: Seq<char>) -> Option<JsonValue> {
        value_of(self.rows(), k)
    }

    pub closed spec fn spec_cluster_key(&self) -> Seq<char> {
        self.cluster_key@
    }

    pub closed spec fn spec_page_size(&self) -> usize {
        self.page_size
    }

    pub closed spec fn spec_page_splits(&self) -> usize {
        self.page_splits
    }

    pub closed spec fn spec_inserts_in_order(&self) -> usize {
        self.inserts_in_order
    }

    pub closed spec fn spec_last_key(&self) -> Option<JsonValue> {
        self.last_key_value
    }

    /// One record per key text.
    pub closed spec fn wf(&self) -> bool {
        distinct_keys(self.rows())
    }

    pub fn new() -> (cs: Self)
        ensures
            cs.wf(),
            cs.rows() == Seq::<(Seq<char>, JsonValue)>::empty(),
            cs.spec_cluster_key() == "id"@,
            cs.spec_page_size() == 100,
            cs.spec_page_splits() == 0,
            cs.spec_inserts_in_order() == 0,
            cs.spec_last_key() == None::<JsonValue>,
            cs.spec_metadata().id@ == "clustered-storage"@,
            cs.spec_metadata().category == BlockCategory::Storage,
    {
        let cs = Self {
            metadata: Self::build_metadata(),
            input_ports: Self::build_inputs(),
            output_ports: Self::build_outputs(),
            metric_defs: Self::build_metrics(),
            cluster_key: String::from_str("id"),
            page_size: 100,
            store: Vec::new(),
            page_splits: 0,
            inserts_in_order: 0,
            last_key_value: None,
        };
        proof {
            assert(cs.rows() =~= Seq::<(Seq<char>, JsonValue)>::empty());
        }
        cs
    }

    /// Stores `record` under the JSON text of its key, replacing any
    /// record with the same text, and counts the insert as in order or as
    /// a page split; `key` becomes the last key seen.
    pub fn store_record(&mut self, key: JsonValue, record: JsonValue, in_order: bool)
        requires
            old(self).wf(),
            old(self).spec_inserts_in_order() < usize::MAX,
            old(self).spec_page_splits() < usize::MAX,
        ensures
            final(self).wf(),
            forall|k: Seq<char>| #[trigger] final(self).record_of(k) == if k == json_text_of(key) {
                Some(record)
            } else {
                old(self).record_of(k)
            },
            final(self).spec_inserts_in_order() == old(self).spec_inserts_in_order() + if in_order {
                1int
            } else {
                0int
            },
            final(self).spec_page_splits() == old(self).spec_page_splits() + if in_order {
                0int
            } else {
                1int
            },
            final(self).spec_last_key() == Some(key),
            final(self).spec_cluster_key() == old(self).spec_cluster_key(),
            final(self).spec_page_size() == old(self).spec_page_size(),
    {
        let key_text = json_text(&key);
        if in_order {
            self.inserts_in_order = self.inserts_in_order + 1;
        } else {
            self.page_splits = self.page_splits + 1;
        }
        self.last_key_value = Some(key);
        let ghost t0 = self.rows();
        let ghost s1 = *self;
        let mut i: usize = 0;
        while i < self.store.len()
            invariant
                *self == s1,
                distinct_keys(t0),
                t0 == old(self).rows(),
                s1.inserts_in_order == old(self).inserts_in_order + if in_order {
                    1int
                } else {
                    0int
                },
                s1.page_splits == old(self).page_splits + if in_order {
                    0int
                } else {
                    1int
                },
                s1.last_key_value == Some(key),
                s1.cluster_key == old(self).cluster_key,
                s1.page_size == old(self).page_size,
                0 <= i <= self.store@.len(),
                t0 == self.rows(),
                t0.len() == self.store@.len(),
                forall|j: int| 0 <= j < i ==> t0[j].0 != key_text@,
                key_text@ == json_text_of(key),
            decreases self.store@.len() - i,
        {
            if self.store[i].0 == key_text {
                let ghost name = t0[i as int].0;
                self.store.set(i, (key_text, record));
                proof {
                    assert(self.rows() =~= t0.update(i as int, (name, record)));
                    lemma_update_value(t0, i as int, record);
                }
                return;
            }
            i = i + 1;
        }
        let ghost e = (key_text@, record);
        self.store.push((key_text, record));
        proof {
            assert(!has_key(t0, e.0));
            assert(self.rows() =~= t0.push(e));
            lemma_push_row(t0, e);
        }
    }

    /// The number of records stored.
    pub fn records_stored(&self) -> (n: usize)
        ensures
            n == self.rows().len(),
    {
        self.store.len()
    }

    /// The pages the records fill: none for no records, else the records
    /// over the page size, rounded up.
    pub fn pages_used(&self) -> (n: usize)
        requires
            self.rows().len() == 0 || self.spec_page_size() > 0,
        ensures
            n == if self.rows().len() == 0 {
                0
            } else {
                (self.rows().len() + self.spec_page_size() - 1) / (self.spec_page_size() as int)
            },
    {
        let len = self.store.len();
        if len == 0 {
            return 0;
        }
        let r = (len - 1) / self.page_size + 1;
        proof {
            assert((len - 1) / (self.page_size as int) + 1 == (len + self.page_size - 1) / (self.page_size as int)) by (nonlinear_arith)
                requires
                    self.page_size > 0,
                    len > 0,
            ;
        }
        r
    }

    pub fn set_cluster_key(&mut self, key: String)
        requires
            old(self).wf(),
        ensures
            final(self).wf(),
            final(self).spec_cluster_key() == key@,
            final(self).rows() == old(self).rows(),
            final(self).spec_page_size() == old(self).spec_page_size(),
    {
        self.cluster_key = key;
    }

    /// The column whose value orders the records.
    pub fn cluster_key(&self) -> (r: &String)
        ensures
            r@ == self.spec_cluster_key(),
    {
        &self.cluster_key
    }

    pub fn set_page_size(&mut self, page_size: usize)
        requires
            old(self).wf(),
        ensures
            final(self).wf(),
            final(self).spec_page_size() == page_size,
            final(self).rows() == old(self).rows(),
            final(self).spec_cluster_key() == old(self).spec_cluster_key(),
    {
        self.page_size = page_size;
    }

    #[verifier::when_used_as_spec(spec_page_size)]
    pub fn page_size(&self) -> (r: usize)
        ensures
            r == self.spec_page_size(),
    {
        self.page_size
    }

    /// Inserts that sorted before the previous one.
    #[verifier::when_used_as_spec(spec_page_splits)]
    pub fn page_splits(&self) -> (r: usize)
        ensures
            r == self.spec_page_splits(),
    {
        self.page_splits
    }

    /// Inserts that kept the order.
    #[verifier::when_used_as_spec(spec_inserts_in_order)]
    pub fn inserts_in_order(&self) -> (r: usize)
        ensures
            r == self.spec_inserts_in_order(),
    {
        self.inserts_in_order
    }

    /// The key of the last record stored.
    pub fn last_key(&self) -> (r: &Option<JsonValue>)
        ensures
            *r == self.spec_last_key(),
    {
        &self.last_key_value
    }
}

impl ClusteredStorageBlock {
    fn build_documentation() -> (d: BlockDocumentation)
        ensures
            d.overview@ == "Clustered storage keeps records physically sorted by a cluster key. \
                           This makes range scans on that key sequential I/O instead of random. \
                           InnoDB tables are always clustered by the primary key."@,
            d.algorithm@ == "Insert: place record in sorted position by cluster key. If the \
                            record doesn't fit page order, simulate a page split. Range scan: \
                            read pages sequentially since data is already sorted."@,
            d.motivation@ == Seq::<char>::empty(),
            d.complexity.time@ == "Range scan O(k) for k matching pages, Insert O(log n)"@,
            d.complexity.space@ == "O(n) — one copy of each record"@,
            d.use_cases@.len() == 3,
            d.use_cases@[0]@ == "Primary key range queries"@,
            d.use_cases@[1]@ == "Time-series data ordered by timestamp"@,
            d.use_cases@[2]@ == "Sequential access patterns"@,
            d.tradeoffs@.len() == 3,
            d.tradeoffs@[0]@ == "Fast range scans on cluster key, slow on other columns"@,
            d.tradeoffs@[1]@ == "Random inserts cause page splits"@,
            d.tradeoffs@[2]@ == "Only one cluster key per table"@,
            d.examples@.len() == 2,
            d.examples@[0]@ == "MySQL InnoDB clustered index"@,
            d.examples@[1]@ == "SQL Server clustered index"@,
            d.suggested_questions@.len() == 0,
            d.parameter_guide@.len() == 0,
            d.alternatives@.len() == 0,
    {
        let mut use_cases: Vec<String> = Vec::new();
        use_cases.push(String::from_str("Primary key range queries"));
        use_cases.push(String::from_str("Time-series data ordered by timestamp"));
        use_cases.push(String::from_str("Sequential access patterns"));
        let mut tradeoffs: Vec<String> = Vec::new();
        tradeoffs.push(String::from_str("Fast range scans on cluster key, slow on other columns"));
        tradeoffs.push(String::from_str("Random inserts cause page splits"));
        tradeoffs.push(String::from_str("Only one cluster key per table"));
        let mut examples: Vec<String> = Vec::new();
        examples.push(String::from_str("MySQL InnoDB clustered index"));
        examples.push(String::from_str("SQL Server clustered index"));
        let mut suggested_questions: Vec<String> = Vec::new();
        let mut parameter_guide: Vec<(String, String)> = Vec::new();
        let mut alternatives: Vec<Alternative> = Vec::new();
        BlockDocumentation {
            overview: String::from_str("Clustered storage keeps records physically sorted by a cluster key. \
                           This makes range scans on that key sequential I/O instead of random. \
                           InnoDB tables are always clustered by the primary key."),
            algorithm: String::from_str("Insert: place record in sorted position by cluster key. If the \
                            record doesn't fit page order, simulate a page split. Range scan: \
                            read pages sequentially since data is already sorted."),
            complexity: Complexity { time: String::from_str("Range scan O(k) for k matching pages, Insert O(log n)"), space: String::from_str("O(n) — one copy of each record") },
            use_cases,
            tradeoffs,
            examples,
            motivation: String::new(),
            parameter_guide,
            alternatives,
            suggested_questions,
        }
    }

    fn build_references() -> (r: Vec<Reference>)
        ensures
            r@.len() == 1,
            r@[0].ref_type == ReferenceType::Book,
            r@[0].title@ == "Database Internals by Alex Petrov — Chapter 3"@,
            r@[0].url is None,
            r@[0].citation matches Some(t) && t@ == "Petrov, A. (2019). Database Internals. O'Reilly."@,
    {
        let mut r: Vec<Reference> = Vec::new();
        r.push(Reference { ref_type: ReferenceType::Book, title: String::from_str("Database Internals by Alex Petrov — Chapter 3"), url: None, citation: Some(String::from_str("Petrov, A. (2019). Database Internals. O'Reilly.")) });
        r
    }

    fn build_metadata() -> (m: BlockMetadata)
        ensures
            m.documentation.overview@ == "Clustered storage keeps records physically sorted by a cluster key. \
                           This makes range scans on that key sequential I/O instead of random. \
                           InnoDB tables are always clustered by the primary key."@,
            m.references@.len() == 1,
            m.id@ == "clustered-storage"@,
            m.category == BlockCategory::Storage,
            m.name@ == "Clustered Storage"@,
            m.description@ == "Records physically ordered by cluster key for fast range scans"@,
            m.version@ == "1.0.0"@,
            m.icon@ == "table"@,
            m.color@ == "#059669"@,
    {
        BlockMetadata::new(
            "clustered-storage",
            "Clustered Storage",
            BlockCategory::Storage,
            "Records physically ordered by cluster key for fast range scans",
            "table",
            "#059669",
            Self::build_documentation(),
            Self::build_references(),
        )
    }

    fn build_inputs() -> (p: Vec<Port>)
        ensures
            p@.len() == 1,
            p@[0].id@ == "records"@,
    {
        let mut p: Vec<Port> = Vec::new();
        p.push(Port::new("records", "Records", PortDirection::Input, true, false, "Records to store in clustered order"));
        p
    }

    fn build_outputs() -> (p: Vec<Port>)
        ensures
            p@.len() == 1,
            p@[0].id@ == "stored"@,
    {
        let mut p: Vec<Port> = Vec::new();
        p.push(Port::new("stored", "Stored Records", PortDirection::Output, false, true, "Records in clustered order"));
        p
    }

    fn build_metrics() -> (v: Vec<MetricDefinition>)
        ensures
            v@.len() == 4,
            v@[0].id@ == "pages_used"@,
            v@[1].id@ == "records_stored"@,
            v@[2].id@ == "inserts_in_order"@,
            v@[3].id@ == "page_splits"@,
    {
        let mut v: Vec<MetricDefinition> = Vec::new();
        v.push(
            MetricDefinition::new(
                "pages_used",
                "Pages Used",
                MetricType::Gauge,
                "pages",
                "Pages with records",
                AggregationType::Max,
            ),
        );
        v.push(
            MetricDefinition::new(
                "records_stored",
                "Records Stored",
                MetricType::Gauge,
                "records",
                "Total records",
                AggregationType::Max,
            ),
        );
        v.push(
            MetricDefinition::new(
                "inserts_in_order",
                "In-Order Inserts",
                MetricType::Counter,
                "ops",
                "Inserts that maintained order",
                AggregationType::Sum,
            ),
        );
        v.push(
            MetricDefinition::new(
                "page_splits",
                "Page Splits",
                MetricType::Counter,
                "ops",
                "Out-of-order page splits",
                AggregationType::Sum,
            ),
        );
        v
    }

    /// What the block says about itself.
    pub fn metadata(&self) -> (m: &BlockMetadata)
        ensures
            m == self.spec_metadata(),
    {
        &self.metadata
    }

    pub closed spec fn spec_metadata(&self) -> BlockMetadata {
        self.metadata
    }

    /// The block's input ports.
    pub fn inputs(&self) -> (p: &Vec<Port>)
        ensures
            p == self.spec_inputs(),
    {
        &self.input_ports
    }

    pub closed spec fn spec_inputs(&self) -> Vec<Port> {
        self.input_ports
    }

    /// The block's output ports.
    pub fn outputs(&self) -> (p: &Vec<Port>)
        ensures
            p == self.spec_outputs(),
    {
        &self.output_ports
    }

    pub closed spec fn spec_outputs(&self) -> Vec<Port> {
        self.output_ports
    }

    /// The metrics the block reports.
    pub fn metrics(&self) -> (m: &Vec<MetricDefinition>)
        ensures
            m == self.spec_metrics(),
    {
        &self.metric_defs
    }

    pub closed spec fn spec_metrics(&self) -> Vec<MetricDefinition> {
        self.metric_defs
    }
}
} // verus!
