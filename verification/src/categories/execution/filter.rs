//! Filter Block
//!
//! Passes the records whose value in one column compares with a given
//! value as the operator asks. A record without the column never passes.
//! Equality is JSON equality; the order of two JSON values is the
//! caller's to give.
use serde_json::Value as JsonValue;
use vstd::prelude::*;
use vstd::string::*;

use crate::categories::text::{char_folds_to, folds_to, matches_ignoring_ascii_case};
use crate::common::block::{Alternative, BlockCategory, BlockDocumentation, BlockMetadata, Complexity, Reference, ReferenceType};
use crate::common::json::{json_eq, json_equal, json_null};
use crate::common::keyed::value_of;
use crate::common::metrics::{AggregationType, MetricDefinition, MetricType};
use crate::common::port::{Port, PortDirection};
use crate::common::record::{field_value, fields_view, well_formed_record};
use crate::categories::execution::sequential_scan::records_view;

verus! {

/// The comparison a filter applies between a column and a value.
#[derive(Debug, Clone, Copy, PartialEq, Eq, Structural)]
pub enum FilterOp {
    Eq,
    Ne,
    Lt,
    Le,
    Gt,
    Ge,
}

/// The operator a configuration string names, ASCII case aside:
/// "ne", "!=" or "<>" is Ne; "lt" or "<" is Lt; "le" or "<=" is Le;
/// "gt" or ">" is Gt; "ge" or ">=" is Ge; anything else is Eq.
pub open spec fn filter_op_named(s: Seq<char>) -> FilterOp {
    if folds_to(s, "ne"@) || folds_to(s, "!="@) || folds_to(s, "<>"@) {
        FilterOp::Ne
    } else if folds_to(s, "lt"@) || folds_to(s, "<"@) {
        FilterOp::Lt
    } else if folds_to(s, "le"@) || folds_to(s, "<="@) {
        FilterOp::Le
    } else if folds_to(s, "gt"@) || folds_to(s, ">"@) {
        FilterOp::Gt
    } else if folds_to(s, "ge"@) || folds_to(s, ">="@) {
        FilterOp::Ge
    } else {
        FilterOp::Eq
    }
}

/// The spellings of each operator, ASCII letter case aside: "ne", "!="
/// and "<>" are Ne; "lt" and "<" Lt; "le" and "<=" Le; "gt" and ">" Gt;
/// "ge" and ">=" Ge; "eq", "=", "==" and the empty string, like anything
/// unknown, Eq.
pub proof fn law_operator_spellings(s: Seq<char>)
    ensures
        folds_to(s, "ne"@) || folds_to(s, "!="@) || folds_to(s, "<>"@) ==> filter_op_named(s) == FilterOp::Ne,
        folds_to(s, "lt"@) || folds_to(s, "<"@) ==> filter_op_named(s) == FilterOp::Lt,
        folds_to(s, "le"@) || folds_to(s, "<="@) ==> filter_op_named(s) == FilterOp::Le,
        folds_to(s, "gt"@) || folds_to(s, ">"@) ==> filter_op_named(s) == FilterOp::Gt,
        folds_to(s, "ge"@) || folds_to(s, ">="@) ==> filter_op_named(s) == FilterOp::Ge,
        folds_to(s, "eq"@) || folds_to(s, "="@) || folds_to(s, "=="@) || s.len() == 0 ==> filter_op_named(s) == FilterOp::Eq,
{
    reveal_strlit("ne");
    reveal_strlit("!=");
    reveal_strlit("<>");
    reveal_strlit("lt");
    reveal_strlit("<");
    reveal_strlit("le");
    reveal_strlit("<=");
    reveal_strlit("gt");
    reveal_strlit(">");
    reveal_strlit("ge");
    reveal_strlit(">=");
    reveal_strlit("eq");
    reveal_strlit("=");
    reveal_strlit("==");
    if folds_to(s, "lt"@) {
        assert(char_folds_to(s[0], "lt"@[0]));
        assert(char_folds_to(s[1], "lt"@[1]));
        assert(!char_folds_to(s[0], "ne"@[0]));
        assert(!char_folds_to(s[0], "!="@[0]));
        assert(!char_folds_to(s[0], "<>"@[0]));
    }
    if folds_to(s, "le"@) {
        assert(char_folds_to(s[0], "le"@[0]));
        assert(char_folds_to(s[1], "le"@[1]));
        assert(!char_folds_to(s[0], "ne"@[0]));
        assert(!char_folds_to(s[0], "!="@[0]));
        assert(!char_folds_to(s[0], "<>"@[0]));
        assert(!char_folds_to(s[1], "lt"@[1]));
    }
    if folds_to(s, "<="@) {
        assert(char_folds_to(s[0], "<="@[0]));
        assert(char_folds_to(s[1], "<="@[1]));
        assert(!char_folds_to(s[0], "ne"@[0]));
        assert(!char_folds_to(s[0], "!="@[0]));
        assert(!char_folds_to(s[1], "<>"@[1]));
        assert(!char_folds_to(s[0], "lt"@[0]));
    }
    if folds_to(s, "gt"@) {
        assert(char_folds_to(s[0], "gt"@[0]));
        assert(char_folds_to(s[1], "gt"@[1]));
        assert(!char_folds_to(s[0], "ne"@[0]));
        assert(!char_folds_to(s[0], "!="@[0]));
        assert(!char_folds_to(s[0], "<>"@[0]));
        assert(!char_folds_to(s[0], "lt"@[0]));
        assert(!char_folds_to(s[0], "le"@[0]));
        assert(!char_folds_to(s[0], "<="@[0]));
    }
    if folds_to(s, ">"@) {
        assert(char_folds_to(s[0], ">"@[0]));
        assert(!char_folds_to(s[0], "<"@[0]));
    }
    if folds_to(s, "ge"@) {
        assert(char_folds_to(s[0], "ge"@[0]));
        assert(char_folds_to(s[1], "ge"@[1]));
        assert(!char_folds_to(s[0], "ne"@[0]));
        assert(!char_folds_to(s[0], "!="@[0]));
        assert(!char_folds_to(s[0], "<>"@[0]));
        assert(!char_folds_to(s[0], "lt"@[0]));
        assert(!char_folds_to(s[0], "le"@[0]));
        assert(!char_folds_to(s[0], "<="@[0]));
        assert(!char_folds_to(s[1], "gt"@[1]));
    }
    if folds_to(s, ">="@) {
        assert(char_folds_to(s[0], ">="@[0]));
        assert(char_folds_to(s[1], ">="@[1]));
        assert(!char_folds_to(s[0], "ne"@[0]));
        assert(!char_folds_to(s[0], "!="@[0]));
        assert(!char_folds_to(s[0], "<>"@[0]));
        assert(!char_folds_to(s[0], "lt"@[0]));
        assert(!char_folds_to(s[0], "le"@[0]));
        assert(!char_folds_to(s[0], "<="@[0]));
        assert(!char_folds_to(s[0], "gt"@[0]));
    }
    if folds_to(s, "eq"@) {
        assert(char_folds_to(s[0], "eq"@[0]));
        assert(char_folds_to(s[1], "eq"@[1]));
        assert(!char_folds_to(s[0], "ne"@[0]));
        assert(!char_folds_to(s[0], "!="@[0]));
        assert(!char_folds_to(s[0], "<>"@[0]));
        assert(!char_folds_to(s[0], "lt"@[0]));
        assert(!char_folds_to(s[0], "le"@[0]));
        assert(!char_folds_to(s[0], "<="@[0]));
        assert(!char_folds_to(s[0], "gt"@[0]));
        assert(!char_folds_to(s[0], "ge"@[0]));
        assert(!char_folds_to(s[0], ">="@[0]));
    }
    if folds_to(s, "="@) {
        assert(char_folds_to(s[0], "="@[0]));
        assert(!char_folds_to(s[0], "<"@[0]));
        assert(!char_folds_to(s[0], ">"@[0]));
    }
    if folds_to(s, "=="@) {
        assert(char_folds_to(s[0], "=="@[0]));
        assert(char_folds_to(s[1], "=="@[1]));
        assert(!char_folds_to(s[0], "ne"@[0]));
        assert(!char_folds_to(s[0], "!="@[0]));
        assert(!char_folds_to(s[0], "<>"@[0]));
        assert(!char_folds_to(s[0], "lt"@[0]));
        assert(!char_folds_to(s[0], "le"@[0]));
        assert(!char_folds_to(s[0], "<="@[0]));
        assert(!char_folds_to(s[0], "gt"@[0]));
        assert(!char_folds_to(s[0], "ge"@[0]));
        assert(!char_folds_to(s[0], ">="@[0]));
    }
}

/// Reads a filter operator from its configuration string.
pub fn parse_op(s: &str) -> (op: FilterOp)
    ensures
        op == filter_op_named(s@),
        folds_to(s@, "ne"@) || folds_to(s@, "!="@) || folds_to(s@, "<>"@) ==> op == FilterOp::Ne,
        folds_to(s@, "lt"@) || folds_to(s@, "<"@) ==> op == FilterOp::Lt,
        folds_to(s@, "le"@) || folds_to(s@, "<="@) ==> op == FilterOp::Le,
        folds_to(s@, "gt"@) || folds_to(s@, ">"@) ==> op == FilterOp::Gt,
        folds_to(s@, "ge"@) || folds_to(s@, ">="@) ==> op == FilterOp::Ge,
        folds_to(s@, "eq"@) || folds_to(s@, "="@) || folds_to(s@, "=="@) || s@.len() == 0 ==> op == FilterOp::Eq,
{
    proof {
        law_operator_spellings(s@);
    }
    if matches_ignoring_ascii_case(s, "ne") || matches_ignoring_ascii_case(s, "!=")
        || matches_ignoring_ascii_case(s, "<>") {
        FilterOp::Ne
    } else if matches_ignoring_ascii_case(s, "lt") || matches_ignoring_ascii_case(s, "<") {
        FilterOp::Lt
    } else if matches_ignoring_ascii_case(s, "le") || matches_ignoring_ascii_case(s, "<=") {
        FilterOp::Le
    } else if matches_ignoring_ascii_case(s, "gt") || matches_ignoring_ascii_case(s, ">") {
        FilterOp::Gt
    } else if matches_ignoring_ascii_case(s, "ge") || matches_ignoring_ascii_case(s, ">=") {
        FilterOp::Ge
    } else {
        FilterOp::Eq
    }
}

/// How a record's field compares with the filter's value.
#[derive(Debug, Clone, Copy, PartialEq, Eq, Structural)]
pub enum JsonOrder {
    Less,
    Equal,
    Greater,
}

/// Keeps the records whose column compares with a value as an operator
/// asks.
pub struct FilterBlock {
    metadata: BlockMetadata,
    input_ports: Vec<Port>,
    output_ports: Vec<Port>,
    metric_defs: Vec<MetricDefinition>,
    column: String,
    op: FilterOp,
    value: JsonValue,
}

impl FilterBlock {
    pub closed spec fn spec_column(&self) -> Seq<char> {
        self.column@
    }

    pub closed spec fn spec_op(&self) -> FilterOp {
        self.op
    }

    pub closed spec fn spec_value(&self) -> JsonValue {
        self.value
    }

    /// Whether a record passes, `order` being how its field compares
    /// with the value: it must have the column; equality and inequality
    /// are JSON equality, the others go by `order`.
    pub open spec fn passes(&self, record: Seq<(Seq<char>, JsonValue)>, order: JsonOrder) -> bool {
        match value_of(record, self.spec_column()) {
            None => false,
            Some(f) => match self.spec_op() {
                FilterOp::Eq => json_equal(f, self.spec_value()),
                FilterOp::Ne => !json_equal(f, self.spec_value()),
                FilterOp::Lt => order == JsonOrder::Less,
                FilterOp::Le => order != JsonOrder::Greater,
                FilterOp::Gt => order == JsonOrder::Greater,
                FilterOp::Ge => order != JsonOrder::Less,
            },
        }
    }

    /// The positions of the records that pass, in order, `orders[i]`
    /// being how record `i` compares.
    pub open spec fn passing_rows(&self, rs: Seq<Seq<(Seq<char>, JsonValue)>>, orders: Seq<JsonOrder>) -> Seq<usize>
        decreases rs.len(),
    {
        if rs.len() == 0 {
            Seq::empty()
        } else {
            self.passing_rows(rs.drop_last(), orders) + if self.passes(rs.last(), orders[rs.len() - 1]) {
                seq![(rs.len() - 1) as usize]
            } else {
                Seq::<usize>::empty()
            }
        }
    }

    /// A filter on column "id" with operator Eq and the JSON null value.
    pub fn new() -> (b: Self)
        ensures
            b.spec_column() == "id"@,
            b.spec_op() == FilterOp::Eq,
            b.spec_metadata().id@ == "filter"@,
            b.spec_metadata().category == BlockCategory::Execution,
    {
        Self {
            metadata: Self::build_metadata(),
            input_ports: Self::build_inputs(),
            output_ports: Self::build_outputs(),
            metric_defs: Self::build_metrics(),
            column: String::from_str("id"),
            op: FilterOp::Eq,
            value: json_null(),
        }
    }

    /// Sets what is given: the column, and the operator read from its
    /// configuration string.
    pub fn configure(&mut self, column: Option<String>, operator: Option<&str>)
        ensures
            final(self).spec_column() == match column {
                Some(c) => c@,
                None => old(self).spec_column(),
            },
            final(self).spec_op() == match operator {
                Some(o) => filter_op_named(o@),
                None => old(self).spec_op(),
            },
            final(self).spec_value() == old(self).spec_value(),
            final(self).spec_metadata() == old(self).spec_metadata(),
    {
        if let Some(c) = column {
            self.column = c;
        }
        if let Some(o) = operator {
            self.op = parse_op(o);
        }
    }

    /// Filters on `column`, `op` and `value`.
    pub fn set_filter(&mut self, column: String, op: FilterOp, value: JsonValue)
        ensures
            final(self).spec_column() == column@,
            final(self).spec_op() == op,
            final(self).spec_value() == value,
            final(self).spec_metadata() == old(self).spec_metadata(),
    {
        self.column = column;
        self.op = op;
        self.value = value;
    }

    /// The column filtered on.
    pub fn column(&self) -> (r: &String)
        ensures
            r@ == self.spec_column(),
    {
        &self.column
    }

    /// The operator.
    pub fn op(&self) -> (r: FilterOp)
        ensures
            r == self.spec_op(),
    {
        self.op
    }

    /// The value compared with.
    pub fn value(&self) -> (r: &JsonValue)
        ensures
            *r == self.spec_value(),
    {
        &self.value
    }

    /// Whether `record` passes, `order` being how its field compares
    /// with the value.
    pub fn evaluate(&self, record: &Vec<(String, JsonValue)>, order: JsonOrder) -> (r: bool)
        requires
            well_formed_record(record@),
        ensures
            r == self.passes(fields_view(record@), order),
    {
        let field = match field_value(record, self.column.as_str()) {
            Some(v) => v,
            None => return false,
        };
        match self.op {
            FilterOp::Eq => json_eq(field, &self.value),
            FilterOp::Ne => !json_eq(field, &self.value),
            FilterOp::Lt => order == JsonOrder::Less,
            FilterOp::Le => order != JsonOrder::Greater,
            FilterOp::Gt => order == JsonOrder::Greater,
            FilterOp::Ge => order != JsonOrder::Less,
        }
    }

    /// The positions of the records that pass, in input order.
    pub fn filter(&self, records: &Vec<Vec<(String, JsonValue)>>, orders: &Vec<JsonOrder>) -> (r: Vec<usize>)
        requires
            orders@.len() == records@.len(),
            forall|i: int| 0 <= i < records@.len() ==> well_formed_record(#[trigger] records@[i]@),
        ensures
            r@ == self.passing_rows(records_view(records@), orders@),
    {
        let ghost all = records_view(records@);
        let mut rows: Vec<usize> = Vec::new();
        let mut i: usize = 0;
        while i < records.len()
            invariant
                all == records_view(records@),
                orders@.len() == records@.len(),
                0 <= i <= records@.len(),
                forall|j: int| 0 <= j < records@.len() ==> well_formed_record(#[trigger] records@[j]@),
                rows@ == self.passing_rows(all.take(i as int), orders@),
            decreases records@.len() - i,
        {
            proof {
                assert(all.take(i as int + 1).drop_last() =~= all.take(i as int));
                assert(all.take(i as int + 1).last() == fields_view(records@[i as int]@));
            }
            if self.evaluate(&records[i], orders[i]) {
                rows.push(i);
            }
            proof {
                assert(rows@ =~= self.passing_rows(all.take(i as int + 1), orders@));
            }
            i = i + 1;
        }
        proof {
            assert(all.take(i as int) =~= all);
        }
        rows
    }

    fn build_documentation() -> (d: BlockDocumentation)
        ensures
            d.overview@ == "A filter operator evaluates a predicate on each input row and \
                           outputs only the rows that match. This corresponds to the WHERE \
                           clause in SQL."@,
            d.algorithm@ == "For each input record, evaluate column <op> value. If true, \
                            emit the record to output. O(n) with no extra space."@,
            d.motivation@ == Seq::<char>::empty(),
            d.complexity.time@ == "O(n) — evaluates predicate on each row"@,
            d.complexity.space@ == "O(1) — streaming, no buffering"@,
            d.use_cases@.len() == 3,
            d.use_cases@[0]@ == "WHERE clause evaluation"@,
            d.use_cases@[1]@ == "Post-scan filtering"@,
            d.use_cases@[2]@ == "HAVING clause in aggregations"@,
            d.tradeoffs@.len() == 2,
            d.tradeoffs@[0]@ == "Simple and fast but must evaluate every input row"@,
            d.tradeoffs@[1]@ == "Push-down to storage can avoid reading unneeded pages"@,
            d.examples@.len() == 2,
            d.examples@[0]@ == "PostgreSQL Filter node"@,
            d.examples@[1]@ == "MySQL WHERE evaluation"@,
            d.suggested_questions@.len() == 0,
            d.parameter_guide@.len() == 0,
            d.alternatives@.len() == 0,
    {
        let mut use_cases: Vec<String> = Vec::new();
        use_cases.push(String::from_str("WHERE clause evaluation"));
        use_cases.push(String::from_str("Post-scan filtering"));
        use_cases.push(String::from_str("HAVING clause in aggregations"));
        let mut tradeoffs: Vec<String> = Vec::new();
        tradeoffs.push(String::from_str("Simple and fast but must evaluate every input row"));
        tradeoffs.push(String::from_str("Push-down to storage can avoid reading unneeded pages"));
        let mut examples: Vec<String> = Vec::new();
        examples.push(String::from_str("PostgreSQL Filter node"));
        examples.push(String::from_str("MySQL WHERE evaluation"));
        let mut suggested_questions: Vec<String> = Vec::new();
        let mut parameter_guide: Vec<(String, String)> = Vec::new();
        let mut alternatives: Vec<Alternative> = Vec::new();
        BlockDocumentation {
            overview: String::from_str("A filter operator evaluates a predicate on each input row and \
                           outputs only the rows that match. This corresponds to the WHERE \
                           clause in SQL."),
            algorithm: String::from_str("For each input record, evaluate column <op> value. If true, \
                            emit the record to output. O(n) with no extra space."),
            complexity: Complexity { time: String::from_str("O(n) — evaluates predicate on each row"), space: String::from_str("O(1) — streaming, no buffering") },
            use_cases,
            tradeoffs,
            examples,
            motivation: String::new(),
            parameter_guide,
            alternatives,
            suggested_questions,
        }
    }

    fn build_references() -> (r: Vec<Reference>)
        ensures
            r@.len() == 1,
            r@[0].ref_type == ReferenceType::Book,
            r@[0].title@ == "Database System Concepts — Chapter 13: Query Processing"@,
            r@[0].url is None,
            r@[0].citation matches Some(t) && t@ == "Silberschatz, A. et al. (2019). McGraw-Hill."@,
    {
        let mut r: Vec<Reference> = Vec::new();
        r.push(Reference { ref_type: ReferenceType::Book, title: String::from_str("Database System Concepts — Chapter 13: Query Processing"), url: None, citation: Some(String::from_str("Silberschatz, A. et al. (2019). McGraw-Hill.")) });
        r
    }

    fn build_metadata() -> (m: BlockMetadata)
        ensures
            m.documentation.overview@ == "A filter operator evaluates a predicate on each input row and \
                           outputs only the rows that match. This corresponds to the WHERE \
                           clause in SQL."@,
            m.references@.len() == 1,
            m.id@ == "filter"@,
            m.category == BlockCategory::Execution,
            m.name@ == "Filter"@,
            m.description@ == "Predicate filter that passes only matching rows"@,
            m.version@ == "1.0.0"@,
            m.icon@ == "filter"@,
            m.color@ == "#EC4899"@,
    {
        BlockMetadata::new(
            "filter",
            "Filter",
            BlockCategory::Execution,
            "Predicate filter that passes only matching rows",
            "filter",
            "#EC4899",
            Self::build_documentation(),
            Self::build_references(),
        )
    }

    fn build_inputs() -> (p: Vec<Port>)
        ensures
            p@.len() == 1,
            p@[0].id@ == "records"@,
    {
        let mut p: Vec<Port> = Vec::new();
        p.push(Port::new("records", "Records", PortDirection::Input, true, false, "Records to filter"));
        p
    }

    fn build_outputs() -> (p: Vec<Port>)
        ensures
            p@.len() == 1,
            p@[0].id@ == "results"@,
    {
        let mut p: Vec<Port> = Vec::new();
        p.push(
            Port::new(
                "results",
                "Filtered Results",
                PortDirection::Output,
                false,
                true,
                "Records that passed the filter",
            ),
        );
        p
    }

    fn build_metrics() -> (v: Vec<MetricDefinition>)
        ensures
            v@.len() == 3,
            v@[0].id@ == "rows_in"@,
            v@[1].id@ == "rows_out"@,
            v@[2].id@ == "selectivity"@,
    {
        let mut v: Vec<MetricDefinition> = Vec::new();
        v.push(
            MetricDefinition::new(
                "rows_in",
                "Rows In",
                MetricType::Counter,
                "rows",
                "Total rows evaluated",
                AggregationType::Sum,
            ),
        );
        v.push(
            MetricDefinition::new(
                "rows_out",
                "Rows Out",
                MetricType::Counter,
                "rows",
                "Rows that passed",
                AggregationType::Sum,
            ),
        );
        v.push(
            MetricDefinition::new(
                "selectivity",
                "Selectivity",
                MetricType::Gauge,
                "%",
                "Fraction of rows that passed",
                AggregationType::Avg,
            ),
        );
        v
    }

    /// What the block says about itself.
    pub fn metadata(&self) -> (m: &BlockMetadata)
        ensures
            m == self.spec_metadata(),
    {
        &self.metadata
    }

    pub closed spec fn spec_metadata(&self) -> BlockMetadata {
        self.metadata
    }

    /// The block's input ports.
    pub fn inputs(&self) -> (p: &Vec<Port>)
        ensures
            p == self.spec_inputs(),
    {
        &self.input_ports
    }

    pub closed spec fn spec_inputs(&self) -> Vec<Port> {
        self.input_ports
    }

    /// The block's output ports.
    pub fn outputs(&self) -> (p: &Vec<Port>)
        ensures
            p == self.spec_outputs(),
    {
        &self.output_ports
    }

    pub closed spec fn spec_outputs(&self) -> Vec<Port> {
        self.output_ports
    }

    /// The metrics the block reports.
    pub fn metrics(&self) -> (m: &Vec<MetricDefinition>)
        ensures
            m == self.spec_metrics(),
    {
        &self.metric_defs
    }

    pub closed spec fn spec_metrics(&self) -> Vec<MetricDefinition> {
        self.metric_defs
    }
}

} // verus!
