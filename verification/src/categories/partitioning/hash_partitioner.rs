//! Hash Partitioner Block
//!
//! Sends each record to partition `hash(key) % num_partitions` and counts
//! how many records each partition received.
use vstd::prelude::*;
use vstd::string::*;

use crate::common::block::{Alternative, BlockCategory, BlockDocumentation, BlockError, BlockMetadata, Complexity, Reference, ReferenceType};
use crate::common::metrics::{AggregationType, MetricDefinition, MetricType};
use crate::common::port::{Port, PortDirection};

verus! {

/// The 64-bit finalizer that scatters keys over the partitions.
#[verifier::opaque]
pub open spec fn partition_mix(key: u64) -> u64 {
    let h0 = key ^ (key >> 33u64);
    let h1 = h0.wrapping_mul(0xff51afd7ed558ccdu64);
    let h2 = h1 ^ (h1 >> 33u64);
    let h3 = h2.wrapping_mul(0xc4ceb9fe1a85ec53u64);
    h3 ^ (h3 >> 33u64)
}

/// The partition of a key among `num_partitions`.
pub open spec fn partition_of(key: u64, num_partitions: usize) -> int {
    ((partition_mix(key) as usize) % num_partitions) as int
}

/// A key's partition is the remainder of its hash divided by the number of
/// partitions: the hash is that many whole rounds of the partitions plus
/// the partition, which is below the number of partitions.
pub proof fn law_partition_is_remainder(key: u64, num_partitions: usize)
    requires
        num_partitions > 0,
    ensures
        0 <= partition_of(key, num_partitions) < num_partitions,
        exists|q: int| 0 <= q && #[trigger] (q * num_partitions) + partition_of(key, num_partitions) == partition_mix(key) as usize as int,
{
    let h = partition_mix(key) as usize;
    let n = num_partitions as int;
    let q = h as int / n;
    vstd::arithmetic::div_mod::lemma_fundamental_div_mod(h as int, n);
    assert(q >= 0) by (nonlinear_arith)
        requires h >= 0, n > 0, q == h as int / n;
    assert((q * n) + partition_of(key, num_partitions) == h as int);
}

/// The number of nonzero counts.
pub open spec fn count_nonzero(counts: Seq<usize>) -> nat
    decreases counts.len(),
{
    if counts.len() == 0 {
        0
    } else {
        count_nonzero(counts.drop_last()) + if counts.last() > 0 {
            1nat
        } else {
            0nat
        }
    }
}

/// A hash partitioner with per-partition record counts.
pub struct HashPartitionerBlock {
    metadata: BlockMetadata,
    input_ports: Vec<Port>,
    output_ports: Vec<Port>,
    metric_defs: Vec<MetricDefinition>,
    num_partitions: usize,
    partition_counts: Vec<usize>,
    records_partitioned: usize,
}

impl HashPartitionerBlock {
    /// Records sent to each partition.
    pub closed spec fn counts(&self) -> Seq<usize> {
        self.partition_counts@
    }

    pub closed spec fn spec_num_partitions(&self) -> usize {
        self.num_partitions
    }

    pub closed spec fn spec_records_partitioned(&self) -> usize {
        self.records_partitioned
    }

    /// No partition has received more records than were partitioned.
    pub closed spec fn wf(&self) -> bool {
        forall|i: int|
            0 <= i < self.partition_counts@.len() ==> #[trigger] self.partition_counts@[i]
                <= self.records_partitioned
    }

    /// The partition count and the per-partition counters agree, so records
    /// can be partitioned.
    pub open spec fn ready(&self) -> bool {
        &&& self.wf()
        &&& self.num_partitions() > 0
        &&& self.counts().len() == self.num_partitions()
    }

    #[verifier::when_used_as_spec(spec_num_partitions)]
    pub fn num_partitions(&self) -> (r: usize)
        ensures
            r == self.spec_num_partitions(),
    {
        self.num_partitions
    }

    /// Records partitioned so far.
    #[verifier::when_used_as_spec(spec_records_partitioned)]
    pub fn records_partitioned(&self) -> (r: usize)
        ensures
            r == self.spec_records_partitioned(),
    {
        self.records_partitioned
    }

    /// The records sent to one partition.
    pub fn partition_count(&self, partition: usize) -> (r: usize)
        requires
            partition < self.counts().len(),
        ensures
            r == self.counts()[partition as int],
    {
        self.partition_counts[partition]
    }

    /// Four partitions, no records yet.
    pub fn new() -> (part: Self)
        ensures
            part.ready(),
            part.num_partitions() == 4,
            part.counts() == seq![0usize, 0usize, 0usize, 0usize],
            part.records_partitioned() == 0,
            part.spec_metadata().id@ == "hash-partitioner"@,
            part.spec_metadata().category == BlockCategory::Partitioning,
    {
        let num_partitions: usize = 4;
        let part = Self {
            metadata: Self::build_metadata(),
            input_ports: Self::build_inputs(),
            output_ports: Self::build_outputs(),
            metric_defs: Self::build_metrics(),
            num_partitions,
            partition_counts: vec![0; num_partitions],
            records_partitioned: 0,
        };
        proof {
            assert(part.partition_counts@ =~= seq![0usize, 0usize, 0usize, 0usize]);
        }
        part
    }

    /// Sets the number of partitions and clears the per-partition counts.
    /// Fewer than 2 partitions is refused: the number is then recorded but
    /// the counts are left as they were.
    pub fn set_num_partitions(&mut self, num_partitions: usize) -> (r: Result<(), BlockError>)
        requires
            old(self).wf(),
        ensures
            final(self).wf(),
            final(self).num_partitions() == num_partitions,
            final(self).records_partitioned() == old(self).records_partitioned(),
            r is Err <==> num_partitions < 2,
            r is Err ==> final(self).counts() == old(self).counts(),
            r is Ok ==> final(self).counts() == Seq::new(num_partitions as nat, |i: int| 0usize),
    {
        self.num_partitions = num_partitions;
        if self.num_partitions < 2 {
            return Err(BlockError::InvalidParameter(String::from_str("num_partitions must be at least 2")));
        }
        self.partition_counts = vec![0; self.num_partitions];
        proof {
            assert(self.partition_counts@ =~= Seq::new(num_partitions as nat, |i: int| 0usize));
        }
        Ok(())
    }

    /// The partition of a key: a deterministic hash of the key modulo the
    /// number of partitions.
    pub fn hash_key(&self, key: u64) -> (p: usize)
        requires
            self.num_partitions() > 0,
        ensures
            p == partition_of(key, self.num_partitions()),
            p < self.num_partitions(),
            p as int == (partition_mix(key) as usize) as int % (self.num_partitions() as int),
    {
        proof {
            reveal(partition_mix);
        }
        let mut h = key;
        h ^= h >> 33;
        h = h.wrapping_mul(0xff51afd7ed558ccd);
        h ^= h >> 33;
        h = h.wrapping_mul(0xc4ceb9fe1a85ec53);
        h ^= h >> 33;
        (h as usize) % self.num_partitions
    }

    /// Sends one record with the given key to its partition and returns the
    /// partition.
    pub fn partition_record(&mut self, key: u64) -> (p: usize)
        requires
            old(self).ready(),
            old(self).records_partitioned() < usize::MAX,
        ensures
            final(self).ready(),
            p == partition_of(key, old(self).num_partitions()),
            p as int == (partition_mix(key) as usize) as int % (old(self).num_partitions() as int),
            final(self).counts() == old(self).counts().update(p as int, (old(self).counts()[p as int] + 1) as usize),
            final(self).records_partitioned() == old(self).records_partitioned() + 1,
            final(self).num_partitions() == old(self).num_partitions(),
    {
        let partition = self.hash_key(key);
        let c = self.partition_counts[partition];
        self.partition_counts.set(partition, c + 1);
        self.records_partitioned = self.records_partitioned + 1;
        partition
    }

    /// The number of partitions that received at least one record.
    pub fn partitions_used(&self) -> (r: usize)
        ensures
            r == count_nonzero(self.counts()),
    {
        let mut used: usize = 0;
        let mut i: usize = 0;
        while i < self.partition_counts.len()
            invariant
                0 <= i <= self.partition_counts@.len(),
                used == count_nonzero(self.partition_counts@.subrange(0, i as int)),
                used <= i,
            decreases self.partition_counts@.len() - i,
        {
            proof {
                assert(self.partition_counts@.subrange(0, i as int + 1).drop_last()
                    =~= self.partition_counts@.subrange(0, i as int));
            }
            if self.partition_counts[i] > 0 {
                used = used + 1;
            }
            i = i + 1;
        }
        proof {
            assert(self.partition_counts@.subrange(0, i as int) =~= self.partition_counts@);
        }
        used
    }
}

impl HashPartitionerBlock {
    fn build_documentation() -> (d: BlockDocumentation)
        ensures
            d.overview@ == "Hash partitioning distributes data across multiple partitions by computing a \
                           hash of the partition key and using modulo to assign each record to a partition. \
                           This enables horizontal scaling — each partition can live on a different node, \
                           allowing the system to handle more data and more queries by adding machines.\n\n\
                           In a distributed database, the hash partitioner is one of the first components a \
                           write request encounters. It determines which node owns each piece of data. The \
                           hash function must be deterministic (same key always maps to the same partition) \
                           and should distribute keys uniformly to avoid hot spots.\n\n\
                           Think of hash partitioning like assigning students to classrooms by the first letter \
                           of their last name. But instead of letters (which produce uneven groups), you use a \
                           hash function that scrambles the name into a number and then takes modulo N to get \
                           the classroom number. This produces much more even groups. The downside: if you \
                           want to find all students whose names start with 'S', you have to check every \
                           classroom (scatter-gather) because hashing destroyed the alphabetical ordering."@,
            d.algorithm@ == "PARTITION(record):\n  \
                           1. Extract partition key from record\n  \
                           2. Compute hash: h = hash_mix(key)\n     \
                              h ^= h >> 33\n     \
                              h *= 0xff51afd7ed558ccd\n     \
                              h ^= h >> 33\n     \
                              h *= 0xc4ceb9fe1a85ec53\n     \
                              h ^= h >> 33\n  \
                           3. Assign partition: partition_id = h % num_partitions\n  \
                           4. Route record to partition_id\n\n\
                           REBALANCE (when adding partition):\n  \
                           Simple modulo: ALL records potentially need reassignment\n  \
                           Consistent hashing: only K/N records move on average\n  \
                           (where K = total keys, N = total partitions)"@,
            d.motivation@ == "Without partitioning, all data lives on a single node, which creates a hard \
                             ceiling on both storage capacity and query throughput. When a table grows beyond \
                             what one machine can handle, you need to split it across multiple machines.\n\n\
                             Hash partitioning solves the distribution problem by providing a deterministic, \
                             uniform mapping from keys to nodes. Any node in the cluster can instantly compute \
                             which node owns a given key without consulting a central directory. This enables \
                             both writes and reads to be routed directly to the right node in O(1) time."@,
            d.complexity.time@ == "O(1) per record — single hash computation"@,
            d.complexity.space@ == "O(num_partitions) for partition metadata"@,
            d.use_cases@.len() == 5,
            d.use_cases@[0]@ == "Cassandra distributes rows across nodes using Murmur3 hash"@,
            d.use_cases@[1]@ == "DynamoDB partitions items by hash of the partition key"@,
            d.use_cases@[2]@ == "CockroachDB splits ranges using hash-based sharding"@,
            d.use_cases@[3]@ == "Kafka distributes messages across topic partitions by key hash"@,
            d.use_cases@[4]@ == "Redis Cluster uses CRC16 hash slots to partition keys across nodes"@,
            d.tradeoffs@.len() == 6,
            d.tradeoffs@[0]@ == "Even distribution depends on key cardinality and hash quality"@,
            d.tradeoffs@[1]@ == "Range queries across partitions require scatter-gather"@,
            d.tradeoffs@[2]@ == "Adding partitions requires data reshuffling (consistent hashing helps)"@,
            d.tradeoffs@[3]@ == "Hot keys defeat the purpose — one partition gets all traffic"@,
            d.tradeoffs@[4]@ == "Cannot efficiently answer range queries (e.g., 'all users with ID 1000-2000')"@,
            d.tradeoffs@[5]@ == "Hash function quality matters — poor hash functions create skewed distributions"@,
            d.examples@.len() == 4,
            d.examples@[0]@ == "Cassandra's Murmur3Partitioner (default since 1.2) — maps token range to nodes"@,
            d.examples@[1]@ == "DynamoDB — partitions by hash of partition key, supports sort key for range queries within partition"@,
            d.examples@[2]@ == "Kafka — DefaultPartitioner hashes message key to assign topic partitions"@,
            d.examples@[3]@ == "Redis Cluster — 16384 hash slots distributed across nodes using CRC16"@,
            d.suggested_questions@.len() == 3,
            d.suggested_questions@[0]@ == "What is consistent hashing, and how does it reduce data movement when adding or removing nodes?"@,
            d.suggested_questions@[1]@ == "How do you handle hot keys (e.g., a celebrity's profile) that all hash to the same partition?"@,
            d.suggested_questions@[2]@ == "Why does DynamoDB require a partition key AND optional sort key — how does this combine hash and range partitioning?"@,
            d.parameter_guide@.len() == 1,
            d.parameter_guide@[0].0@ == "num_partitions"@,
            d.parameter_guide@[0].1@ == "The number of partitions to distribute data across. Each partition can be assigned to \
                      a different node for horizontal scaling. More partitions enable finer-grained load \
                      balancing but add overhead for cross-partition queries (scatter-gather). Fewer partitions \
                      are simpler but limit scalability. In Cassandra, the virtual node count (num_tokens) \
                      serves a similar purpose — default is 256 vnodes per physical node. For Kafka, the \
                      partition count is typically 3-12 per topic. Recommended: start with 4-8 for development, \
                      scale to match the number of nodes in production."@,
            d.alternatives@.len() == 1,
            d.alternatives@[0].block_type@ == "range-partitioner"@,
            d.alternatives@[0].comparison@ == "Range partitioning assigns contiguous key ranges to partitions (e.g., \
                                     A-F to partition 1, G-M to partition 2). This preserves key ordering, \
                                     enabling efficient range queries within a partition, but is prone to hot \
                                     spots when certain ranges receive more traffic. Hash partitioning distributes \
                                     keys uniformly but destroys ordering. Choose hash partitioning for even \
                                     distribution with point lookups. Choose range partitioning when range queries \
                                     are common and you can tolerate potential skew."@,
    {
        let mut use_cases: Vec<String> = Vec::new();
        use_cases.push(String::from_str("Cassandra distributes rows across nodes using Murmur3 hash"));
        use_cases.push(String::from_str("DynamoDB partitions items by hash of the partition key"));
        use_cases.push(String::from_str("CockroachDB splits ranges using hash-based sharding"));
        use_cases.push(String::from_str("Kafka distributes messages across topic partitions by key hash"));
        use_cases.push(String::from_str("Redis Cluster uses CRC16 hash slots to partition keys across nodes"));
        let mut tradeoffs: Vec<String> = Vec::new();
        tradeoffs.push(String::from_str("Even distribution depends on key cardinality and hash quality"));
        tradeoffs.push(String::from_str("Range queries across partitions require scatter-gather"));
        tradeoffs.push(String::from_str("Adding partitions requires data reshuffling (consistent hashing helps)"));
        tradeoffs.push(String::from_str("Hot keys defeat the purpose — one partition gets all traffic"));
        tradeoffs.push(String::from_str("Cannot efficiently answer range queries (e.g., 'all users with ID 1000-2000')"));
        tradeoffs.push(String::from_str("Hash function quality matters — poor hash functions create skewed distributions"));
        let mut examples: Vec<String> = Vec::new();
        examples.push(String::from_str("Cassandra's Murmur3Partitioner (default since 1.2) — maps token range to nodes"));
        examples.push(String::from_str("DynamoDB — partitions by hash of partition key, supports sort key for range queries within partition"));
        examples.push(String::from_str("Kafka — DefaultPartitioner hashes message key to assign topic partitions"));
        examples.push(String::from_str("Redis Cluster — 16384 hash slots distributed across nodes using CRC16"));
        let mut suggested_questions: Vec<String> = Vec::new();
        suggested_questions.push(String::from_str("What is consistent hashing, and how does it reduce data movement when adding or removing nodes?"));
        suggested_questions.push(String::from_str("How do you handle hot keys (e.g., a celebrity's profile) that all hash to the same partition?"));
        suggested_questions.push(String::from_str("Why does DynamoDB require a partition key AND optional sort key — how does this combine hash and range partitioning?"));
        let mut parameter_guide: Vec<(String, String)> = Vec::new();
        parameter_guide.push((String::from_str("num_partitions"), String::from_str("The number of partitions to distribute data across. Each partition can be assigned to \
                      a different node for horizontal scaling. More partitions enable finer-grained load \
                      balancing but add overhead for cross-partition queries (scatter-gather). Fewer partitions \
                      are simpler but limit scalability. In Cassandra, the virtual node count (num_tokens) \
                      serves a similar purpose — default is 256 vnodes per physical node. For Kafka, the \
                      partition count is typically 3-12 per topic. Recommended: start with 4-8 for development, \
                      scale to match the number of nodes in production.")));
        let mut alternatives: Vec<Alternative> = Vec::new();
        alternatives.push(Alternative { block_type: String::from_str("range-partitioner"), comparison: String::from_str("Range partitioning assigns contiguous key ranges to partitions (e.g., \
                                     A-F to partition 1, G-M to partition 2). This preserves key ordering, \
                                     enabling efficient range queries within a partition, but is prone to hot \
                                     spots when certain ranges receive more traffic. Hash partitioning distributes \
                                     keys uniformly but destroys ordering. Choose hash partitioning for even \
                                     distribution with point lookups. Choose range partitioning when range queries \
                                     are common and you can tolerate potential skew.") });
        BlockDocumentation {
            overview: String::from_str("Hash partitioning distributes data across multiple partitions by computing a \
                           hash of the partition key and using modulo to assign each record to a partition. \
                           This enables horizontal scaling — each partition can live on a different node, \
                           allowing the system to handle more data and more queries by adding machines.\n\n\
                           In a distributed database, the hash partitioner is one of the first components a \
                           write request encounters. It determines which node owns each piece of data. The \
                           hash function must be deterministic (same key always maps to the same partition) \
                           and should distribute keys uniformly to avoid hot spots.\n\n\
                           Think of hash partitioning like assigning students to classrooms by the first letter \
                           of their last name. But instead of letters (which produce uneven groups), you use a \
                           hash function that scrambles the name into a number and then takes modulo N to get \
                           the classroom number. This produces much more even groups. The downside: if you \
                           want to find all students whose names start with 'S', you have to check every \
                           classroom (scatter-gather) because hashing destroyed the alphabetical ordering."),
            algorithm: String::from_str("PARTITION(record):\n  \
                           1. Extract partition key from record\n  \
                           2. Compute hash: h = hash_mix(key)\n     \
                              h ^= h >> 33\n     \
                              h *= 0xff51afd7ed558ccd\n     \
                              h ^= h >> 33\n     \
                              h *= 0xc4ceb9fe1a85ec53\n     \
                              h ^= h >> 33\n  \
                           3. Assign partition: partition_id = h % num_partitions\n  \
                           4. Route record to partition_id\n\n\
                           REBALANCE (when adding partition):\n  \
                           Simple modulo: ALL records potentially need reassignment\n  \
                           Consistent hashing: only K/N records move on average\n  \
                           (where K = total keys, N = total partitions)"),
            complexity: Complexity { time: String::from_str("O(1) per record — single hash computation"), space: String::from_str("O(num_partitions) for partition metadata") },
            use_cases,
            tradeoffs,
            examples,
            motivation: String::from_str("Without partitioning, all data lives on a single node, which creates a hard \
                             ceiling on both storage capacity and query throughput. When a table grows beyond \
                             what one machine can handle, you need to split it across multiple machines.\n\n\
                             Hash partitioning solves the distribution problem by providing a deterministic, \
                             uniform mapping from keys to nodes. Any node in the cluster can instantly compute \
                             which node owns a given key without consulting a central directory. This enables \
                             both writes and reads to be routed directly to the right node in O(1) time."),
            parameter_guide,
            alternatives,
            suggested_questions,
        }
    }

    fn build_references() -> (r: Vec<Reference>)
        ensures
            r@.len() == 1,
            r@[0].ref_type == ReferenceType::Book,
            r@[0].title@ == "Designing Data-Intensive Applications by Martin Kleppmann — Chapter 6: Partitioning"@,
            r@[0].url is None,
            r@[0].citation matches Some(t) && t@ == "Kleppmann, M. (2017). Designing Data-Intensive Applications. O'Reilly."@,
    {
        let mut r: Vec<Reference> = Vec::new();
        r.push(Reference { ref_type: ReferenceType::Book, title: String::from_str("Designing Data-Intensive Applications by Martin Kleppmann — Chapter 6: Partitioning"), url: None, citation: Some(String::from_str("Kleppmann, M. (2017). Designing Data-Intensive Applications. O'Reilly.")) });
        r
    }

    fn build_metadata() -> (m: BlockMetadata)
        ensures
            m.documentation.overview@ == "Hash partitioning distributes data across multiple partitions by computing a \
                           hash of the partition key and using modulo to assign each record to a partition. \
                           This enables horizontal scaling — each partition can live on a different node, \
                           allowing the system to handle more data and more queries by adding machines.\n\n\
                           In a distributed database, the hash partitioner is one of the first components a \
                           write request encounters. It determines which node owns each piece of data. The \
                           hash function must be deterministic (same key always maps to the same partition) \
                           and should distribute keys uniformly to avoid hot spots.\n\n\
                           Think of hash partitioning like assigning students to classrooms by the first letter \
                           of their last name. But instead of letters (which produce uneven groups), you use a \
                           hash function that scrambles the name into a number and then takes modulo N to get \
                           the classroom number. This produces much more even groups. The downside: if you \
                           want to find all students whose names start with 'S', you have to check every \
                           classroom (scatter-gather) because hashing destroyed the alphabetical ordering."@,
            m.references@.len() == 1,
            m.id@ == "hash-partitioner"@,
            m.category == BlockCategory::Partitioning,
            m.name@ == "Hash Partitioner"@,
            m.description@ == "Distributes records across partitions by hashing a key"@,
            m.version@ == "1.0.0"@,
            m.icon@ == "grid-3x3"@,
            m.color@ == "#EC4899"@,
    {
        BlockMetadata::new(
            "hash-partitioner",
            "Hash Partitioner",
            BlockCategory::Partitioning,
            "Distributes records across partitions by hashing a key",
            "grid-3x3",
            "#EC4899",
            Self::build_documentation(),
            Self::build_references(),
        )
    }

    fn build_inputs() -> (p: Vec<Port>)
        ensures
            p@.len() == 1,
            p@[0].id@ == "records"@,
    {
        let mut p: Vec<Port> = Vec::new();
        p.push(
            Port::new(
                "records",
                "Records",
                PortDirection::Input,
                true,
                false,
                "Records to partition. Uses `_key` field as the partition key.",
            ),
        );
        p
    }

    fn build_outputs() -> (p: Vec<Port>)
        ensures
            p@.len() == 1,
            p@[0].id@ == "partitioned"@,
    {
        let mut p: Vec<Port> = Vec::new();
        p.push(
            Port::new(
                "partitioned",
                "Partitioned Records",
                PortDirection::Output,
                false,
                true,
                "Records enriched with `_partition_id` field",
            ),
        );
        p
    }

    fn build_metrics() -> (v: Vec<MetricDefinition>)
        ensures
            v@.len() == 4,
            v@[0].id@ == "records_partitioned"@,
            v@[1].id@ == "partitions_used"@,
            v@[2].id@ == "hottest_partition_pct"@,
            v@[3].id@ == "evenness_score"@,
    {
        let mut v: Vec<MetricDefinition> = Vec::new();
        v.push(
            MetricDefinition::new(
                "records_partitioned",
                "Records Partitioned",
                MetricType::Counter,
                "records",
                "Total records assigned to partitions",
                AggregationType::Sum,
            ),
        );
        v.push(
            MetricDefinition::new(
                "partitions_used",
                "Partitions Used",
                MetricType::Gauge,
                "partitions",
                "Number of partitions that received at least one record",
                AggregationType::Max,
            ),
        );
        v.push(
            MetricDefinition::new(
                "hottest_partition_pct",
                "Hottest Partition",
                MetricType::Gauge,
                "%",
                "Percentage of records in the most loaded partition",
                AggregationType::Max,
            ),
        );
        v.push(
            MetricDefinition::new(
                "evenness_score",
                "Evenness Score",
                MetricType::Gauge,
                "score",
                "0–100 score of how evenly data is distributed (100 = perfect)",
                AggregationType::Avg,
            ),
        );
        v
    }

    /// What the block says about itself.
    pub fn metadata(&self) -> (m: &BlockMetadata)
        ensures
            m == self.spec_metadata(),
    {
        &self.metadata
    }

    pub closed spec fn spec_metadata(&self) -> BlockMetadata {
        self.metadata
    }

    /// The block's input ports.
    pub fn inputs(&self) -> (p: &Vec<Port>)
        ensures
            p == self.spec_inputs(),
    {
        &self.input_ports
    }

    pub closed spec fn spec_inputs(&self) -> Vec<Port> {
        self.input_ports
    }

    /// The block's output ports.
    pub fn outputs(&self) -> (p: &Vec<Port>)
        ensures
            p == self.spec_outputs(),
    {
        &self.output_ports
    }

    pub closed spec fn spec_outputs(&self) -> Vec<Port> {
        self.output_ports
    }

    /// The metrics the block reports.
    pub fn metrics(&self) -> (m: &Vec<MetricDefinition>)
        ensures
            m == self.spec_metrics(),
    {
        &self.metric_defs
    }

    pub closed spec fn spec_metrics(&self) -> Vec<MetricDefinition> {
        self.metric_defs
    }
}

} // verus!
