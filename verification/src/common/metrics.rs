use vstd::prelude::*;
use vstd::string::*;

verus! {

/// How a metric evolves over a run.
#[derive(Debug, Clone, Copy, PartialEq, Eq, Structural)]
pub enum MetricType {
    Counter,
    Gauge,
}

/// How samples of a metric are combined.
#[derive(Debug, Clone, Copy, PartialEq, Eq, Structural)]
pub enum AggregationType {
    Sum,
    Avg,
    Max,
    Min,
}

/// A metric that a block reports.
pub struct MetricDefinition {
    pub id: String,
    pub name: String,
    pub metric_type: MetricType,
    pub unit: String,
    pub description: String,
    pub aggregations: Vec<AggregationType>,
}

impl MetricDefinition {
    /// A metric aggregated one way.
    pub fn new(
        id: &str,
        name: &str,
        metric_type: MetricType,
        unit: &str,
        description: &str,
        aggregation: AggregationType,
    ) -> (d: Self)
        ensures
            d.id@ == id@,
            d.name@ == name@,
            d.metric_type == metric_type,
            d.unit@ == unit@,
            d.description@ == description@,
            d.aggregations@ == seq![aggregation],
    {
        let mut aggregations: Vec<AggregationType> = Vec::new();
        aggregations.push(aggregation);
        MetricDefinition {
            id: String::from_str(id),
            name: String::from_str(name),
            metric_type,
            unit: String::from_str(unit),
            description: String::from_str(description),
            aggregations,
        }
    }
}

} // verus!
