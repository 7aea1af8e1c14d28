//! Block implementations grouped by category, and the types they share.
pub mod buffer;
pub mod distribution;
pub mod execution;
pub mod index;
pub mod optimization;
pub mod partitioning;
pub mod storage;
pub mod text;
pub mod compression;
pub mod concurrency;
pub mod transaction;

use vstd::prelude::*;

verus! {

/// Category of a block in a data-flow graph.
#[derive(Debug, Clone, PartialEq, Eq, Hash)]
pub enum BlockCategory {
    /// Data source blocks (e.g., CSV, Database, API)
    DataSource,
    /// Data transformation blocks (e.g., Filter, Map, Join)
    Transformation,
    /// Data aggregation blocks (e.g., Group By, Count)
    Aggregation,
    /// Data output blocks (e.g., File, Database, API)
    Output,
    /// Control flow blocks (e.g., Conditional, Loop)
    ControlFlow,
    /// Custom user-defined blocks
    Custom(String),
}

impl BlockCategory {
    /// The human-readable name of a category.
    pub open spec fn display_name_spec(&self) -> Seq<char> {
        match self {
            BlockCategory::DataSource => "Data Source"@,
            BlockCategory::Transformation => "Transformation"@,
            BlockCategory::Aggregation => "Aggregation"@,
            BlockCategory::Output => "Output"@,
            BlockCategory::ControlFlow => "Control Flow"@,
            BlockCategory::Custom(name) => name@,
        }
    }

    /// Get a human-readable name for the category.
    pub fn display_name(&self) -> (r: &str)
        ensures
            r@ == self.display_name_spec(),
    {
        match self {
            BlockCategory::DataSource => "Data Source",
            BlockCategory::Transformation => "Transformation",
            BlockCategory::Aggregation => "Aggregation",
            BlockCategory::Output => "Output",
            BlockCategory::ControlFlow => "Control Flow",
            BlockCategory::Custom(name) => name.as_str(),
        }
    }
}

/// Identifies a specific record within a heap file.
///
/// A TupleId (also called a Record ID or RID) combines a page number
/// with a slot number to locate a record on disk.
#[derive(Debug, Clone, Copy, PartialEq, Eq, Hash, Structural)]
pub struct TupleId {
    /// The page containing this record
    pub page_id: usize,
    /// The slot within the page
    pub slot_id: usize,
}

impl TupleId {
    pub fn new(page_id: usize, slot_id: usize) -> (t: Self)
        ensures
            t.page_id == page_id,
            t.slot_id == slot_id,
    {
        Self { page_id, slot_id }
    }
}

} // verus!
