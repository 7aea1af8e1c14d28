use vstd::prelude::*;
use vstd::string::*;

verus! {

/// The family a block belongs to in the block palette.
#[derive(Debug, Clone, Copy, PartialEq, Eq, Structural)]
pub enum BlockCategory {
    Storage,
    Index,
    Buffer,
    Execution,
    Concurrency,
    Transaction,
    Optimization,
    Partitioning,
    Distribution,
    Compression,
}

/// The costs a block's documentation gives.
pub struct Complexity {
    pub time: String,
    pub space: String,
}

/// Another block that could stand in a block's place, and how they
/// compare.
pub struct Alternative {
    pub block_type: String,
    pub comparison: String,
}

/// The kind of a cited work.
#[derive(Debug, Clone, Copy, PartialEq, Eq, Structural)]
pub enum ReferenceType {
    Paper,
    Book,
}

/// A work a block's documentation cites.
pub struct Reference {
    pub ref_type: ReferenceType,
    pub title: String,
    pub url: Option<String>,
    pub citation: Option<String>,
}

/// What a block's documentation says: how it works, what it costs, where
/// it is used, its tradeoffs and alternatives, and what each parameter
/// does.
pub struct BlockDocumentation {
    pub overview: String,
    pub algorithm: String,
    pub complexity: Complexity,
    pub use_cases: Vec<String>,
    pub tradeoffs: Vec<String>,
    pub examples: Vec<String>,
    pub motivation: String,
    pub parameter_guide: Vec<(String, String)>,
    pub alternatives: Vec<Alternative>,
    pub suggested_questions: Vec<String>,
}

/// What a block says about itself.
pub struct BlockMetadata {
    pub id: String,
    pub name: String,
    pub category: BlockCategory,
    pub description: String,
    pub version: String,
    pub documentation: BlockDocumentation,
    pub references: Vec<Reference>,
    pub icon: String,
    pub color: String,
}

impl BlockMetadata {
    /// Metadata of a block at version 1.0.0.
    pub fn new(
        id: &str,
        name: &str,
        category: BlockCategory,
        description: &str,
        icon: &str,
        color: &str,
        documentation: BlockDocumentation,
        references: Vec<Reference>,
    ) -> (m: Self)
        ensures
            m.id@ == id@,
            m.name@ == name@,
            m.category == category,
            m.description@ == description@,
            m.version@ == "1.0.0"@,
            m.icon@ == icon@,
            m.color@ == color@,
            m.documentation == documentation,
            m.references == references,
    {
        BlockMetadata {
            id: String::from_str(id),
            name: String::from_str(name),
            category,
            description: String::from_str(description),
            version: String::from_str("1.0.0"),
            documentation,
            references,
            icon: String::from_str(icon),
            color: String::from_str(color),
        }
    }
}

/// Why a block refused a configuration or an input.
#[derive(Debug)]
pub enum BlockError {
    InvalidParameter(String),
    InvalidInput(String),
    ExecutionError(String),
}

} // verus!
