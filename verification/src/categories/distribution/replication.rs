//! Replication Block
//!
//! Writes each record to `replication_factor` replicas and checks the
//! acknowledgements against the configured consistency level: one replica,
//! a majority (quorum), or all of them.
use vstd::prelude::*;
use vstd::string::*;

use crate::common::block::{Alternative, BlockCategory, BlockDocumentation, BlockMetadata, Complexity, Reference, ReferenceType};
use crate::common::metrics::{AggregationType, MetricDefinition, MetricType};
use crate::common::port::{Port, PortDirection};
use crate::categories::text::matches_ignoring_ascii_case;

verus! {

/// How many replicas must acknowledge a write.
#[derive(Debug, Clone, Copy, PartialEq, Eq, Structural)]
pub enum ConsistencyLevel {
    One,
    Quorum,
    All,
}

/// The acknowledgements a level asks of `replication_factor` replicas.
pub open spec fn required_acks_spec(level: ConsistencyLevel, replication_factor: int) -> int {
    match level {
        ConsistencyLevel::One => 1,
        ConsistencyLevel::Quorum => replication_factor / 2 + 1,
        ConsistencyLevel::All => replication_factor,
    }
}

/// The spellings of each level, ASCII letter case aside: "one" and "1" are
/// One, "all" is All, and "quorum", like anything else, Quorum.
pub proof fn law_consistency_spellings(s: Seq<char>)
    ensures
        crate::categories::text::folds_to(s, "one"@) || crate::categories::text::folds_to(s, "1"@) ==> consistency_level_named(s) == ConsistencyLevel::One,
        crate::categories::text::folds_to(s, "all"@) ==> consistency_level_named(s) == ConsistencyLevel::All,
        crate::categories::text::folds_to(s, "quorum"@) || s.len() == 0 ==> consistency_level_named(s) == ConsistencyLevel::Quorum,
{
    reveal_strlit("one");
    reveal_strlit("1");
    reveal_strlit("all");
    reveal_strlit("quorum");
    if crate::categories::text::folds_to(s, "all"@) {
        assert(crate::categories::text::char_folds_to(s[0], "all"@[0]));
        assert(!crate::categories::text::char_folds_to(s[0], "one"@[0]));
    }
    if crate::categories::text::folds_to(s, "quorum"@) {
        assert(crate::categories::text::char_folds_to(s[0], "quorum"@[0]));
    }
}

/// A quorum is the smallest strict majority of the replicas: any two
/// quorums share a replica (twice a quorum exceeds the replicas), and one
/// acknowledgement fewer is no majority. One needs a single
/// acknowledgement, All every replica.
pub proof fn law_quorum_is_least_majority(replication_factor: int)
    requires
        replication_factor >= 0,
    ensures
        2 * required_acks_spec(ConsistencyLevel::Quorum, replication_factor) > replication_factor,
        2 * (required_acks_spec(ConsistencyLevel::Quorum, replication_factor) - 1) <= replication_factor,
        forall|q: int| #![trigger (2 * q)] 2 * q > replication_factor ==> q >= required_acks_spec(ConsistencyLevel::Quorum, replication_factor),
        required_acks_spec(ConsistencyLevel::One, replication_factor) == 1,
        required_acks_spec(ConsistencyLevel::All, replication_factor) == replication_factor,
{
}

/// The level a configuration string names, ASCII case aside: "one" or "1" is
/// One, "all" is All, anything else is Quorum.
pub open spec fn consistency_level_named(s: Seq<char>) -> ConsistencyLevel {
    if crate::categories::text::folds_to(s, "one"@) || crate::categories::text::folds_to(s, "1"@) {
        ConsistencyLevel::One
    } else if crate::categories::text::folds_to(s, "all"@) {
        ConsistencyLevel::All
    } else {
        ConsistencyLevel::Quorum
    }
}

/// Reads a consistency level from its configuration string.
pub fn parse_consistency_level(s: &str) -> (level: ConsistencyLevel)
    ensures
        level == consistency_level_named(s@),
        crate::categories::text::folds_to(s@, "one"@) || crate::categories::text::folds_to(s@, "1"@) ==> level == ConsistencyLevel::One,
        crate::categories::text::folds_to(s@, "all"@) ==> level == ConsistencyLevel::All,
        crate::categories::text::folds_to(s@, "quorum"@) || s@.len() == 0 ==> level == ConsistencyLevel::Quorum,
{
    proof {
        law_consistency_spellings(s@);
    }
    if matches_ignoring_ascii_case(s, "one") || matches_ignoring_ascii_case(s, "1") {
        ConsistencyLevel::One
    } else if matches_ignoring_ascii_case(s, "all") {
        ConsistencyLevel::All
    } else {
        ConsistencyLevel::Quorum
    }
}

/// Replicates writes and tracks how often the consistency level is met.
pub struct ReplicationBlock {
    metadata: BlockMetadata,
    input_ports: Vec<Port>,
    output_ports: Vec<Port>,
    metric_defs: Vec<MetricDefinition>,
    replication_factor: usize,
    consistency_level: ConsistencyLevel,
    async_replication: bool,
    writes_replicated: usize,
    acks_received: usize,
    consistency_met: usize,
    consistency_violations: usize,
}

impl ReplicationBlock {
    pub closed spec fn spec_replication_factor(&self) -> usize {
        self.replication_factor
    }

    pub closed spec fn spec_consistency_level(&self) -> ConsistencyLevel {
        self.consistency_level
    }

    pub closed spec fn spec_async_replication(&self) -> bool {
        self.async_replication
    }

    pub closed spec fn spec_writes_replicated(&self) -> usize {
        self.writes_replicated
    }

    pub closed spec fn spec_acks_received(&self) -> usize {
        self.acks_received
    }

    pub closed spec fn spec_consistency_met(&self) -> usize {
        self.consistency_met
    }

    pub closed spec fn spec_consistency_violations(&self) -> usize {
        self.consistency_violations
    }

    #[verifier::when_used_as_spec(spec_replication_factor)]
    pub fn replication_factor(&self) -> (r: usize)
        ensures
            r == self.spec_replication_factor(),
    {
        self.replication_factor
    }

    #[verifier::when_used_as_spec(spec_consistency_level)]
    pub fn consistency_level(&self) -> (r: ConsistencyLevel)
        ensures
            r == self.spec_consistency_level(),
    {
        self.consistency_level
    }

    #[verifier::when_used_as_spec(spec_async_replication)]
    pub fn async_replication(&self) -> (r: bool)
        ensures
            r == self.spec_async_replication(),
    {
        self.async_replication
    }

    #[verifier::when_used_as_spec(spec_writes_replicated)]
    pub fn writes_replicated(&self) -> (r: usize)
        ensures
            r == self.spec_writes_replicated(),
    {
        self.writes_replicated
    }

    #[verifier::when_used_as_spec(spec_acks_received)]
    pub fn acks_received(&self) -> (r: usize)
        ensures
            r == self.spec_acks_received(),
    {
        self.acks_received
    }

    #[verifier::when_used_as_spec(spec_consistency_met)]
    pub fn consistency_met(&self) -> (r: usize)
        ensures
            r == self.spec_consistency_met(),
    {
        self.consistency_met
    }

    #[verifier::when_used_as_spec(spec_consistency_violations)]
    pub fn consistency_violations(&self) -> (r: usize)
        ensures
            r == self.spec_consistency_violations(),
    {
        self.consistency_violations
    }

    /// Three replicas, quorum writes, synchronous replication.
    pub fn new() -> (rep: Self)
        ensures
            rep.replication_factor() == 3,
            rep.consistency_level() == ConsistencyLevel::Quorum,
            !rep.async_replication(),
            rep.writes_replicated() == 0,
            rep.acks_received() == 0,
            rep.consistency_met() == 0,
            rep.consistency_violations() == 0,
            rep.spec_metadata().id@ == "replication"@,
            rep.spec_metadata().category == BlockCategory::Distribution,
    {
        Self {
            metadata: Self::build_metadata(),
            input_ports: Self::build_inputs(),
            output_ports: Self::build_outputs(),
            metric_defs: Self::build_metrics(),
            replication_factor: 3,
            consistency_level: ConsistencyLevel::Quorum,
            async_replication: false,
            writes_replicated: 0,
            acks_received: 0,
            consistency_met: 0,
            consistency_violations: 0,
        }
    }

    pub fn set_replication_factor(&mut self, replication_factor: usize)
        ensures
            final(self).replication_factor() == replication_factor,
            final(self).consistency_level() == old(self).consistency_level(),
            final(self).async_replication() == old(self).async_replication(),
            final(self).writes_replicated() == old(self).writes_replicated(),
            final(self).acks_received() == old(self).acks_received(),
            final(self).consistency_met() == old(self).consistency_met(),
            final(self).consistency_violations() == old(self).consistency_violations(),
    {
        self.replication_factor = replication_factor;
    }

    pub fn set_consistency_level(&mut self, level: ConsistencyLevel)
        ensures
            final(self).consistency_level() == level,
            final(self).replication_factor() == old(self).replication_factor(),
            final(self).async_replication() == old(self).async_replication(),
            final(self).writes_replicated() == old(self).writes_replicated(),
            final(self).acks_received() == old(self).acks_received(),
            final(self).consistency_met() == old(self).consistency_met(),
            final(self).consistency_violations() == old(self).consistency_violations(),
    {
        self.consistency_level = level;
    }

    pub fn set_async_replication(&mut self, async_replication: bool)
        ensures
            final(self).async_replication() == async_replication,
            final(self).replication_factor() == old(self).replication_factor(),
            final(self).consistency_level() == old(self).consistency_level(),
            final(self).writes_replicated() == old(self).writes_replicated(),
            final(self).acks_received() == old(self).acks_received(),
            final(self).consistency_met() == old(self).consistency_met(),
            final(self).consistency_violations() == old(self).consistency_violations(),
    {
        self.async_replication = async_replication;
    }

    /// The acknowledgements a write needs: 1, a majority (half the replicas
    /// rounded down, plus one) or every replica.
    pub fn required_acks(&self) -> (r: usize)
        ensures
            r == required_acks_spec(self.consistency_level(), self.replication_factor() as int),
            self.consistency_level() == ConsistencyLevel::One ==> r == 1,
            self.consistency_level() == ConsistencyLevel::All ==> r == self.replication_factor(),
            self.consistency_level() == ConsistencyLevel::Quorum ==> {
                &&& 2 * r > self.replication_factor()
                &&& 2 * (r - 1) <= self.replication_factor()
            },
    {
        match self.consistency_level {
            ConsistencyLevel::One => 1,
            ConsistencyLevel::Quorum => self.replication_factor / 2 + 1,
            ConsistencyLevel::All => self.replication_factor,
        }
    }

    /// Replicates one write to every replica. Every replica acknowledges, so
    /// the result, whether the consistency level was met, is whether the
    /// replication factor reaches the required acknowledgements.
    pub fn replicate_write(&mut self) -> (met: bool)
        requires
            old(self).writes_replicated() < usize::MAX,
            old(self).acks_received() + old(self).replication_factor() <= usize::MAX,
            old(self).consistency_met() < usize::MAX,
            old(self).consistency_violations() < usize::MAX,
        ensures
            met == (old(self).replication_factor() >= required_acks_spec(
                old(self).consistency_level(),
                old(self).replication_factor() as int,
            )),
            final(self).writes_replicated() == old(self).writes_replicated() + 1,
            final(self).acks_received() == old(self).acks_received() + old(
                self,
            ).replication_factor(),
            final(self).consistency_met() == old(self).consistency_met() + (if met {
                1int
            } else {
                0int
            }),
            final(self).consistency_violations() == old(self).consistency_violations() + (if met {
                0int
            } else {
                1int
            }),
            final(self).replication_factor() == old(self).replication_factor(),
            final(self).consistency_level() == old(self).consistency_level(),
            final(self).async_replication() == old(self).async_replication(),
    {
        let required = self.required_acks();
        self.writes_replicated = self.writes_replicated + 1;
        let acks = self.replication_factor;
        self.acks_received = self.acks_received + acks;
        let meets_consistency = acks >= required;
        if meets_consistency {
            self.consistency_met = self.consistency_met + 1;
        } else {
            self.consistency_violations = self.consistency_violations + 1;
        }
        meets_consistency
    }
}

impl ReplicationBlock {
    fn build_documentation() -> (d: BlockDocumentation)
        ensures
            d.overview@ == "Replication copies data to multiple nodes for fault tolerance and \
                           availability. The consistency level determines how many replicas \
                           must acknowledge a write before it's considered successful. This \
                           is the core of the CAP theorem — you trade consistency for \
                           availability and partition tolerance."@,
            d.algorithm@ == "On write: send to all R replicas. Wait for acks based on consistency \
                            level. ONE = 1 ack, QUORUM = ⌊R/2⌋+1 acks, ALL = R acks. \
                            Async mode sends to one replica and propagates to others in background."@,
            d.motivation@ == Seq::<char>::empty(),
            d.complexity.time@ == "O(R) per write where R is replication factor; quorum latency = max of fastest ⌊R/2⌋+1 replicas"@,
            d.complexity.space@ == "O(R × data_size) — R copies of every record"@,
            d.use_cases@.len() == 4,
            d.use_cases@[0]@ == "Cassandra writes to R replicas with tunable consistency"@,
            d.use_cases@[1]@ == "MongoDB replica sets: primary + secondaries"@,
            d.use_cases@[2]@ == "DynamoDB replicates across 3 AZs automatically"@,
            d.use_cases@[3]@ == "PostgreSQL streaming replication for hot standby"@,
            d.tradeoffs@.len() == 5,
            d.tradeoffs@[0]@ == "Higher replication factor = better durability but more storage and write latency"@,
            d.tradeoffs@[1]@ == "ALL consistency = strong consistency but one slow replica blocks writes"@,
            d.tradeoffs@[2]@ == "ONE consistency = low latency but stale reads possible"@,
            d.tradeoffs@[3]@ == "QUORUM read + QUORUM write = linearizable consistency (R+W > N)"@,
            d.tradeoffs@[4]@ == "Async replication = lower latency but data loss risk on failure"@,
            d.examples@.len() == 3,
            d.examples@[0]@ == "Cassandra: replication_factor=3, consistency=QUORUM"@,
            d.examples@[1]@ == "MongoDB: 3-member replica set with write concern 'majority'"@,
            d.examples@[2]@ == "DynamoDB: always replicates to 3 AZs"@,
            d.suggested_questions@.len() == 0,
            d.parameter_guide@.len() == 0,
            d.alternatives@.len() == 0,
    {
        let mut use_cases: Vec<String> = Vec::new();
        use_cases.push(String::from_str("Cassandra writes to R replicas with tunable consistency"));
        use_cases.push(String::from_str("MongoDB replica sets: primary + secondaries"));
        use_cases.push(String::from_str("DynamoDB replicates across 3 AZs automatically"));
        use_cases.push(String::from_str("PostgreSQL streaming replication for hot standby"));
        let mut tradeoffs: Vec<String> = Vec::new();
        tradeoffs.push(String::from_str("Higher replication factor = better durability but more storage and write latency"));
        tradeoffs.push(String::from_str("ALL consistency = strong consistency but one slow replica blocks writes"));
        tradeoffs.push(String::from_str("ONE consistency = low latency but stale reads possible"));
        tradeoffs.push(String::from_str("QUORUM read + QUORUM write = linearizable consistency (R+W > N)"));
        tradeoffs.push(String::from_str("Async replication = lower latency but data loss risk on failure"));
        let mut examples: Vec<String> = Vec::new();
        examples.push(String::from_str("Cassandra: replication_factor=3, consistency=QUORUM"));
        examples.push(String::from_str("MongoDB: 3-member replica set with write concern 'majority'"));
        examples.push(String::from_str("DynamoDB: always replicates to 3 AZs"));
        let mut suggested_questions: Vec<String> = Vec::new();
        let mut parameter_guide: Vec<(String, String)> = Vec::new();
        let mut alternatives: Vec<Alternative> = Vec::new();
        BlockDocumentation {
            overview: String::from_str("Replication copies data to multiple nodes for fault tolerance and \
                           availability. The consistency level determines how many replicas \
                           must acknowledge a write before it's considered successful. This \
                           is the core of the CAP theorem — you trade consistency for \
                           availability and partition tolerance."),
            algorithm: String::from_str("On write: send to all R replicas. Wait for acks based on consistency \
                            level. ONE = 1 ack, QUORUM = ⌊R/2⌋+1 acks, ALL = R acks. \
                            Async mode sends to one replica and propagates to others in background."),
            complexity: Complexity { time: String::from_str("O(R) per write where R is replication factor; quorum latency = max of fastest ⌊R/2⌋+1 replicas"), space: String::from_str("O(R × data_size) — R copies of every record") },
            use_cases,
            tradeoffs,
            examples,
            motivation: String::new(),
            parameter_guide,
            alternatives,
            suggested_questions,
        }
    }

    fn build_references() -> (r: Vec<Reference>)
        ensures
            r@.len() == 1,
            r@[0].ref_type == ReferenceType::Book,
            r@[0].title@ == "Designing Data-Intensive Applications by Martin Kleppmann — Chapter 5: Replication"@,
            r@[0].url is None,
            r@[0].citation matches Some(t) && t@ == "Kleppmann, M. (2017). Designing Data-Intensive Applications. O'Reilly."@,
    {
        let mut r: Vec<Reference> = Vec::new();
        r.push(Reference { ref_type: ReferenceType::Book, title: String::from_str("Designing Data-Intensive Applications by Martin Kleppmann — Chapter 5: Replication"), url: None, citation: Some(String::from_str("Kleppmann, M. (2017). Designing Data-Intensive Applications. O'Reilly.")) });
        r
    }

    fn build_metadata() -> (m: BlockMetadata)
        ensures
            m.documentation.overview@ == "Replication copies data to multiple nodes for fault tolerance and \
                           availability. The consistency level determines how many replicas \
                           must acknowledge a write before it's considered successful. This \
                           is the core of the CAP theorem — you trade consistency for \
                           availability and partition tolerance."@,
            m.references@.len() == 1,
            m.id@ == "replication"@,
            m.category == BlockCategory::Distribution,
            m.name@ == "Replication"@,
            m.description@ == "Writes data to multiple replicas with configurable consistency"@,
            m.version@ == "1.0.0"@,
            m.icon@ == "network"@,
            m.color@ == "#06B6D4"@,
    {
        BlockMetadata::new(
            "replication",
            "Replication",
            BlockCategory::Distribution,
            "Writes data to multiple replicas with configurable consistency",
            "network",
            "#06B6D4",
            Self::build_documentation(),
            Self::build_references(),
        )
    }

    fn build_inputs() -> (p: Vec<Port>)
        ensures
            p@.len() == 1,
            p@[0].id@ == "requests"@,
    {
        let mut p: Vec<Port> = Vec::new();
        p.push(
            Port::new(
                "requests",
                "Write Requests",
                PortDirection::Input,
                true,
                false,
                "Records to replicate across nodes",
            ),
        );
        p
    }

    fn build_outputs() -> (p: Vec<Port>)
        ensures
            p@.len() == 1,
            p@[0].id@ == "replicated"@,
    {
        let mut p: Vec<Port> = Vec::new();
        p.push(
            Port::new(
                "replicated",
                "Replicated Records",
                PortDirection::Output,
                false,
                true,
                "Records enriched with `_replicas` and `_acks` fields",
            ),
        );
        p
    }

    fn build_metrics() -> (v: Vec<MetricDefinition>)
        ensures
            v@.len() == 5,
            v@[0].id@ == "writes_replicated"@,
            v@[1].id@ == "acks_received"@,
            v@[2].id@ == "replication_lag_ms"@,
            v@[3].id@ == "consistency_met"@,
            v@[4].id@ == "consistency_violations"@,
    {
        let mut v: Vec<MetricDefinition> = Vec::new();
        v.push(
            MetricDefinition::new(
                "writes_replicated",
                "Writes Replicated",
                MetricType::Counter,
                "writes",
                "Total writes sent to replica set",
                AggregationType::Sum,
            ),
        );
        v.push(
            MetricDefinition::new(
                "acks_received",
                "Acks Received",
                MetricType::Counter,
                "acks",
                "Total acknowledgments from replicas",
                AggregationType::Sum,
            ),
        );
        v.push(
            MetricDefinition::new(
                "replication_lag_ms",
                "Replication Lag",
                MetricType::Gauge,
                "ms",
                "Simulated replication lag for async mode",
                AggregationType::Avg,
            ),
        );
        v.push(
            MetricDefinition::new(
                "consistency_met",
                "Consistency Met",
                MetricType::Counter,
                "writes",
                "Writes that met the required consistency level",
                AggregationType::Sum,
            ),
        );
        v.push(
            MetricDefinition::new(
                "consistency_violations",
                "Consistency Violations",
                MetricType::Counter,
                "writes",
                "Writes that didn't meet consistency (in simulation)",
                AggregationType::Sum,
            ),
        );
        v
    }

    /// What the block says about itself.
    pub fn metadata(&self) -> (m: &BlockMetadata)
        ensures
            m == self.spec_metadata(),
    {
        &self.metadata
    }

    pub closed spec fn spec_metadata(&self) -> BlockMetadata {
        self.metadata
    }

    /// The block's input ports.
    pub fn inputs(&self) -> (p: &Vec<Port>)
        ensures
            p == self.spec_inputs(),
    {
        &self.input_ports
    }

    pub closed spec fn spec_inputs(&self) -> Vec<Port> {
        self.input_ports
    }

    /// The block's output ports.
    pub fn outputs(&self) -> (p: &Vec<Port>)
        ensures
            p == self.spec_outputs(),
    {
        &self.output_ports
    }

    pub closed spec fn spec_outputs(&self) -> Vec<Port> {
        self.output_ports
    }

    /// The metrics the block reports.
    pub fn metrics(&self) -> (m: &Vec<MetricDefinition>)
        ensures
            m == self.spec_metrics(),
    {
        &self.metric_defs
    }

    pub closed spec fn spec_metrics(&self) -> Vec<MetricDefinition> {
        self.metric_defs
    }
}

} // verus!
