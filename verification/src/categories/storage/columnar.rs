//! Columnar Storage Block
//!
//! Stores rows column by column: each column holds one value per row
//! ingested. A column first seen in a later row is filled with nulls for
//! the rows before it, and a row without some column stores a null there.
//! A projection reads chosen columns (all of them when none is chosen)
//! back into rows. Here a null is `None`.
use serde_json::Value as JsonValue;
use vstd::prelude::*;
use vstd::string::*;

use crate::common::block::{Alternative, BlockCategory, BlockDocumentation, BlockMetadata, Complexity, Reference, ReferenceType};
use crate::common::json::{clone_value, json_text, json_text_of};
use crate::common::keyed::{distinct_keys, has_key, key_index, lemma_key_index, lemma_push_row, lemma_update_value, value_of};
use crate::common::metrics::{AggregationType, MetricDefinition, MetricType};
use crate::common::port::{Port, PortDirection};

verus! {

/// A column as a value: its name and one value per row.
pub type ColumnView = (Seq<char>, Seq<Option<JsonValue>>);

/// The value a row gives column `name`, if it has the column.
pub open spec fn field_of(fields: Seq<(Seq<char>, JsonValue)>, name: Seq<char>) -> Option<JsonValue> {
    value_of(fields, name)
}

/// Column `name` after a row with `fields` is ingested into a store of
/// `rows` rows where the column was `before`.
pub open spec fn column_after(before: Option<Seq<Option<JsonValue>>>, fields: Seq<(Seq<char>, JsonValue)>, name: Seq<char>, rows: nat) -> Option<Seq<Option<JsonValue>>> {
    match field_of(fields, name) {
        Some(v) => match before {
            Some(c) => Some(c.push(Some(v))),
            None => Some(Seq::new(rows, |i: int| None::<JsonValue>).push(Some(v))),
        },
        None => match before {
            Some(c) => Some(c.push(None)),
            None => None,
        },
    }
}

/// The rows of a projection: a column list and one value list per row.
pub struct Projection {
    pub columns: Vec<String>,
    pub rows: Vec<Vec<Option<JsonValue>>>,
}

/// Column-oriented row storage.
pub struct ColumnarStorageBlock {
    metadata: BlockMetadata,
    input_ports: Vec<Port>,
    output_ports: Vec<Port>,
    metric_defs: Vec<MetricDefinition>,
    columns: Vec<(String, Vec<Option<JsonValue>>)>,
    row_count: usize,
    columns_read: usize,
}

impl ColumnarStorageBlock {
    /// The columns, in the order first seen.
    pub closed spec fn cols(&self) -> Seq<ColumnView> {
        self.columns@.map_values(|c: (String, Vec<Option<JsonValue>>)| (c.0@, c.1@))
    }

    /// Column `name`, if stored.
    pub open spec fn column(&self, name: Seq<char>) -> Option<Seq<Option<JsonValue>>> {
        value_of(self.cols(), name)
    }

    pub closed spec fn spec_row_count(&self) -> usize {
        self.row_count
    }

    pub closed spec fn spec_columns_read(&self) -> usize {
        self.columns_read
    }

    /// Column names are distinct and every column holds one value per row.
    pub closed spec fn wf(&self) -> bool {
        &&& distinct_keys(self.cols())
        &&& forall|i: int| 0 <= i < self.cols().len() ==> (#[trigger] self.cols()[i]).1.len() == self.row_count
    }

    pub fn new() -> (c: Self)
        ensures
            c.wf(),
            c.cols() == Seq::<ColumnView>::empty(),
            c.spec_row_count() == 0,
            c.spec_columns_read() == 0,
            c.spec_metadata().id@ == "columnar-storage"@,
            c.spec_metadata().category == BlockCategory::Storage,
    {
        let c = Self {
            metadata: Self::build_metadata(),
            input_ports: Self::build_inputs(),
            output_ports: Self::build_outputs(),
            metric_defs: Self::build_metrics(),
            columns: Vec::new(),
            row_count: 0,
            columns_read: 0,
        };
        proof {
            assert(c.cols() =~= Seq::<ColumnView>::empty());
        }
        c
    }

    /// The position of column `name`, if stored.
    fn find_column(&self, name: &String) -> (r: Option<usize>)
        ensures
            match r {
                Some(i) => i < self.cols().len() && self.cols()[i as int].0 == name@,
                None => !has_key(self.cols(), name@),
            },
    {
        let mut i: usize = 0;
        while i < self.columns.len()
            invariant
                0 <= i <= self.columns@.len(),
                self.cols().len() == self.columns@.len(),
                forall|j: int| 0 <= j < i ==> self.cols()[j].0 != name@,
            decreases self.columns@.len() - i,
        {
            if self.columns[i].0 == *name {
                return Some(i);
            }
            i = i + 1;
        }
        None
    }

    /// Ingests one row, given as its fields (distinct names).
    pub fn ingest_row(&mut self, fields: &Vec<(String, JsonValue)>)
        requires
            old(self).wf(),
            old(self).spec_row_count() < usize::MAX,
            distinct_keys(fields@.map_values(|f: (String, JsonValue)| (f.0@, f.1))),
        ensures
            final(self).wf(),
            final(self).spec_row_count() == old(self).spec_row_count() + 1,
            forall|name: Seq<char>| #[trigger] final(self).column(name) == column_after(
                old(self).column(name),
                fields@.map_values(|f: (String, JsonValue)| (f.0@, f.1)),
                name,
                old(self).spec_row_count() as nat,
            ),
            final(self).spec_columns_read() == old(self).spec_columns_read(),
    {
        let ghost fv = fields@.map_values(|f: (String, JsonValue)| (f.0@, f.1));
        let ghost t0 = self.cols();
        let rows = self.row_count;
        let mut k: usize = 0;
        // Each field's value goes to its column, a new column first
        // filled with nulls for the earlier rows.
        while k < fields.len()
            invariant
                fv == fields@.map_values(|f: (String, JsonValue)| (f.0@, f.1)),
                distinct_keys(fv),
                distinct_keys(self.cols()),
                rows == self.row_count,
                rows == old(self).row_count,
                self.columns_read == old(self).columns_read,
                t0 == old(self).cols(),
                0 <= k <= fields@.len(),
                forall|i: int| 0 <= i < self.cols().len() ==> (#[trigger] self.cols()[i]).1.len() == rows || self.cols()[i].1.len() == rows + 1,
                forall|i: int| 0 <= i < self.cols().len() ==> ((#[trigger] self.cols()[i]).1.len() == rows + 1 <==> has_key(fv.take(k as int), self.cols()[i].0)),
                forall|name: Seq<char>| #[trigger] self.column(name) == if has_key(fv.take(k as int), name) {
                    column_after(value_of(t0, name), fv, name, rows as nat)
                } else {
                    value_of(t0, name)
                },
            decreases fields@.len() - k,
        {
            let name = &fields[k].0;
            let value = clone_value(&fields[k].1);
            let ghost t1 = self.cols();
            let ghost s1 = *self;
            proof {
                lemma_key_index(fv, k as int);
                assert(fv[k as int] == (name@, fields@[k as int].1));
                assert(!has_key(fv.take(k as int), name@)) by {
                    if has_key(fv.take(k as int), name@) {
                        let p0 = fv.take(k as int);
                        let j = choose|j: int| 0 <= j < p0.len() && (#[trigger] p0[j]).0 == name@;
                        assert(fv[j].0 == fv[k as int].0);
                    }
                }
                assert forall|x: Seq<char>| has_key(fv.take(k as int + 1), x) <==> (has_key(fv.take(k as int), x) || x == name@) by {
                    let p1 = fv.take(k as int + 1);
                    let p0 = fv.take(k as int);
                    if has_key(p1, x) {
                        let j = choose|j: int| 0 <= j < p1.len() && (#[trigger] p1[j]).0 == x;
                        if j < k {
                            assert(p0[j].0 == x);
                        }
                    }
                    if has_key(p0, x) {
                        let j = choose|j: int| 0 <= j < p0.len() && (#[trigger] p0[j]).0 == x;
                        assert(p1[j].0 == x);
                    }
                    if x == name@ {
                        assert(fv.take(k as int + 1)[k as int].0 == x);
                    }
                }
            }
            match self.find_column(name) {
                Some(i) => {
                    proof {
                        lemma_key_index(t1, i as int);
                        assert(t1[i as int].1.len() == rows);
                    }
                    let ghost c0 = t1[i as int].1;
                    self.columns[i].1.push(Some(value));
                    proof {
                        assert(self.cols()[i as int].1 =~= c0.push(Some(fields@[k as int].1)));
                        assert(self.cols() =~= t1.update(i as int, (t1[i as int].0, c0.push(Some(fields@[k as int].1)))));
                        lemma_update_value(t1, i as int, c0.push(Some(fields@[k as int].1)));
                        assert(s1.column(name@) == Some(c0));
                        assert(!has_key(fv.take(k as int), name@));
                        assert(value_of(t0, name@) == Some(c0));
                        assert(field_of(fv, name@) == Some(fields@[k as int].1));
                    }
                },
                None => {
                    let mut col: Vec<Option<JsonValue>> = Vec::new();
                    let mut r: usize = 0;
                    while r < rows
                        invariant
                            0 <= r <= rows,
                            col@ == Seq::new(r as nat, |i: int| None::<JsonValue>),
                        decreases rows - r,
                    {
                        col.push(None);
                        proof {
                            assert(col@ =~= Seq::new(r as nat + 1, |i: int| None::<JsonValue>));
                        }
                        r = r + 1;
                    }
                    let ghost c0 = col@;
                    col.push(Some(value));
                    let ghost e = (name@, col@);
                    self.columns.push((name.clone(), col));
                    proof {
                        assert(self.cols() =~= t1.push(e));
                        lemma_push_row(t1, e);
                        assert(s1.column(name@) == None::<Seq<Option<JsonValue>>>);
                        assert(value_of(t0, name@) == None::<Seq<Option<JsonValue>>>);
                        assert(field_of(fv, name@) == Some(fields@[k as int].1));
                    }
                },
            }
            proof {
                assert forall|i: int| 0 <= i < self.cols().len() implies ((#[trigger] self.cols()[i]).1.len() == rows + 1 <==> has_key(fv.take(k as int + 1), self.cols()[i].0)) by {
                    let nm = self.cols()[i].0;
                    lemma_key_index(self.cols(), i);
                    if nm != name@ {
                        assert(self.column(nm) == s1.column(nm));
                        if has_key(t1, nm) {
                            let ti = key_index(t1, nm);
                            lemma_key_index(t1, ti);
                        }
                    }
                }
                assert forall|i: int| 0 <= i < self.cols().len() implies (#[trigger] self.cols()[i]).1.len() == rows || self.cols()[i].1.len() == rows + 1 by {
                    let nm = self.cols()[i].0;
                    lemma_key_index(self.cols(), i);
                    if nm != name@ {
                        assert(self.column(nm) == s1.column(nm));
                        let ti = key_index(t1, nm);
                        lemma_key_index(t1, ti);
                    }
                }
                assert forall|x: Seq<char>| #[trigger] self.column(x) == if has_key(fv.take(k as int + 1), x) {
                    column_after(value_of(t0, x), fv, x, rows as nat)
                } else {
                    value_of(t0, x)
                } by {
                    if x != name@ {
                        assert(self.column(x) == s1.column(x));
                    }
                }
            }
            k = k + 1;
        }
        // A column the row lacks gets a null.
        let ghost t2 = self.cols();
        proof {
            assert(fv.take(fv.len() as int) =~= fv);
            assert forall|x: Seq<char>| #[trigger] value_of(t2, x) == if has_key(fv, x) {
                column_after(value_of(t0, x), fv, x, rows as nat)
            } else {
                value_of(t0, x)
            } by {
                assert(self.column(x) == value_of(t2, x));
            }
            assert forall|j: int| 0 <= j < t2.len() implies ((#[trigger] t2[j]).1.len() == rows + 1 <==> has_key(fv, t2[j].0)) by {
                assert(has_key(fv.take(k as int), t2[j].0) == has_key(fv, t2[j].0));
            }
        }
        let mut i: usize = 0;
        while i < self.columns.len()
            invariant
                fv == fields@.map_values(|f: (String, JsonValue)| (f.0@, f.1)),
                rows == self.row_count,
                rows == old(self).row_count,
                self.columns_read == old(self).columns_read,
                0 <= i <= self.columns@.len(),
                self.cols().len() == t2.len(),
                distinct_keys(t2),
                forall|j: int| 0 <= j < t2.len() ==> (#[trigger] t2[j]).1.len() == rows || t2[j].1.len() == rows + 1,
                forall|j: int| 0 <= j < t2.len() ==> ((#[trigger] t2[j]).1.len() == rows + 1 <==> has_key(fv, t2[j].0)),
                forall|x: Seq<char>| #[trigger] value_of(t2, x) == if has_key(fv, x) {
                    column_after(value_of(t0, x), fv, x, rows as nat)
                } else {
                    value_of(t0, x)
                },
                t0 == old(self).cols(),
                forall|j: int| 0 <= j < t2.len() ==> (#[trigger] self.cols()[j]).0 == t2[j].0,
                forall|j: int| 0 <= j < i ==> (#[trigger] self.cols()[j]).1 == if t2[j].1.len() == rows {
                    t2[j].1.push(None)
                } else {
                    t2[j].1
                },
                forall|j: int| i <= j < t2.len() ==> (#[trigger] self.cols()[j]) == t2[j],
            decreases self.columns@.len() - i,
        {
            if self.columns[i].1.len() <= rows {
                let ghost before = self.cols();
                let ghost bc = self.columns@[i as int];
                self.columns[i].1.push(None);
                proof {
                    assert(self.columns@[i as int].0 == bc.0);
                    assert(self.columns@[i as int].1@ == bc.1@.push(None));
                    assert(before[i as int] == t2[i as int]);
                    assert(self.cols()[i as int] == (t2[i as int].0, t2[i as int].1.push(None)));
                    assert forall|j: int| 0 <= j < t2.len() implies (#[trigger] self.cols()[j]).0 == t2[j].0 by {
                        if j != i {
                            assert(self.cols()[j] == before[j]);
                        }
                    }
                    assert forall|j: int| 0 <= j < i + 1 implies (#[trigger] self.cols()[j]).1 == if t2[j].1.len() == rows {
                        t2[j].1.push(None)
                    } else {
                        t2[j].1
                    } by {
                        if j != i {
                            assert(self.cols()[j] == before[j]);
                        }
                    }
                    assert forall|j: int| i + 1 <= j < t2.len() implies (#[trigger] self.cols()[j]) == t2[j] by {
                        assert(self.cols()[j] == before[j]);
                    }
                }
            }
            i = i + 1;
        }
        self.row_count = self.row_count + 1;
        proof {
            let t3 = self.cols();
            assert(distinct_keys(t3)) by {
                assert forall|a: int, b: int| 0 <= a < t3.len() && 0 <= b < t3.len() && a != b implies #[trigger] t3[a].0 != #[trigger] t3[b].0 by {
                    assert(t3[a].0 == t2[a].0 && t3[b].0 == t2[b].0);
                }
            }
            assert forall|x: Seq<char>| #[trigger] self.column(x) == column_after(old(self).column(x), fv, x, rows as nat) by {
                assert(value_of(t2, x) == if has_key(fv, x) {
                    column_after(value_of(t0, x), fv, x, rows as nat)
                } else {
                    value_of(t0, x)
                });
                if has_key(fv, x) {
                    let fi = key_index(fv, x);
                    lemma_key_index(fv, fi);
                }
                if has_key(t3, x) {
                    let j = key_index(t3, x);
                    lemma_key_index(t3, j);
                    assert(t2[j].0 == x);
                    lemma_key_index(t2, j);
                } else if has_key(t2, x) {
                    let j = key_index(t2, x);
                    lemma_key_index(t2, j);
                    assert(t3[j].0 == x);
                }
            }
        }
    }

    /// The columns a projection of `names` reads: every column when
    /// `names` is empty, else the stored ones among `names`, in order.
    pub open spec fn selection(&self, names: Seq<Seq<char>>) -> Seq<Seq<char>> {
        if names.len() == 0 {
            self.cols().map_values(|c: ColumnView| c.0)
        } else {
            names.filter(|n: Seq<char>| has_key(self.cols(), n))
        }
    }

    /// The value column `name` holds at row `i`.
    pub open spec fn cell(&self, name: Seq<char>, i: int) -> Option<JsonValue> {
        match self.column(name) {
            Some(c) => c[i],
            None => None,
        }
    }

    /// The column names `names` selects.
    fn select(&self, names: &Vec<String>) -> (sel: Vec<String>)
        requires
            self.wf(),
        ensures
            sel@.map_values(|n: String| n@) == self.selection(names@.map_values(|n: String| n@)),
    {
        let ghost nv = names@.map_values(|n: String| n@);
        let mut sel: Vec<String> = Vec::new();
        if names.len() == 0 {
            let mut i: usize = 0;
            while i < self.columns.len()
                invariant
                    0 <= i <= self.columns@.len(),
                    self.cols().len() == self.columns@.len(),
                    sel@.map_values(|n: String| n@) == self.cols().map_values(|c: ColumnView| c.0).take(i as int),
                decreases self.columns@.len() - i,
            {
                let ghost s0 = sel@;
                sel.push(self.columns[i].0.clone());
                proof {
                    assert(sel@.map_values(|n: String| n@) =~= s0.map_values(|n: String| n@).push(self.cols()[i as int].0));
                    assert(self.cols().map_values(|c: ColumnView| c.0).take(i as int + 1) =~= self.cols().map_values(|c: ColumnView| c.0).take(i as int).push(self.cols()[i as int].0));
                }
                i = i + 1;
            }
            proof {
                assert(self.cols().map_values(|c: ColumnView| c.0).take(i as int) =~= self.cols().map_values(|c: ColumnView| c.0));
                assert(nv.len() == 0);
            }
            return sel;
        }
        let mut k: usize = 0;
        while k < names.len()
            invariant
                nv == names@.map_values(|n: String| n@),
                0 <= k <= names@.len(),
                sel@.map_values(|n: String| n@) == nv.take(k as int).filter(|n: Seq<char>| has_key(self.cols(), n)),
            decreases names@.len() - k,
        {
            let ghost s0 = sel@;
            proof {
                assert(nv.take(k as int + 1) =~= nv.take(k as int).push(nv[k as int]));
                nv.take(k as int).lemma_filter_push(nv[k as int], |n: Seq<char>| has_key(self.cols(), n));
            }
            if self.find_column(&names[k]).is_some() {
                sel.push(names[k].clone());
                proof {
                    assert(sel@.map_values(|n: String| n@) =~= s0.map_values(|n: String| n@).push(nv[k as int]));
                }
            }
            k = k + 1;
        }
        proof {
            assert(nv.take(k as int) =~= nv);
        }
        sel
    }

    /// Reads the columns `names` selects back into rows: row `i` holds
    /// each selected column's value at row `i`, in selection order.
    pub fn project(&mut self, names: &Vec<String>) -> (p: Projection)
        requires
            old(self).wf(),
            old(self).spec_columns_read() + old(self).selection(names@.map_values(|n: String| n@)).len() <= usize::MAX,
        ensures
            final(self).wf(),
            p.columns@.map_values(|n: String| n@) == old(self).selection(names@.map_values(|n: String| n@)),
            p.rows@.len() == old(self).spec_row_count(),
            forall|i: int| 0 <= i < p.rows@.len() ==> (#[trigger] p.rows@[i])@ == old(self).selection(
                names@.map_values(|n: String| n@),
            ).map_values(|n: Seq<char>| old(self).cell(n, i)),
            final(self).cols() == old(self).cols(),
            final(self).spec_row_count() == old(self).spec_row_count(),
            final(self).spec_columns_read() == old(self).spec_columns_read() + old(self).selection(names@.map_values(|n: String| n@)).len(),
    {
        let sel = self.select(names);
        let ghost sv = sel@.map_values(|n: String| n@);
        self.columns_read = self.columns_read + sel.len();
        let mut rows: Vec<Vec<Option<JsonValue>>> = Vec::new();
        let mut i: usize = 0;
        while i < self.row_count
            invariant
                self.wf(),
                self.cols() == old(self).cols(),
                self.row_count == old(self).row_count,
                sv == sel@.map_values(|n: String| n@),
                0 <= i <= self.row_count,
                rows@.len() == i,
                forall|r: int| 0 <= r < i ==> (#[trigger] rows@[r])@ == sv.map_values(|n: Seq<char>| self.cell(n, r)),
            decreases self.row_count - i,
        {
            let mut row: Vec<Option<JsonValue>> = Vec::new();
            let mut t: usize = 0;
            while t < sel.len()
                invariant
                    self.wf(),
                    sv == sel@.map_values(|n: String| n@),
                    0 <= i < self.row_count,
                    0 <= t <= sel@.len(),
                    row@ == sv.take(t as int).map_values(|n: Seq<char>| self.cell(n, i as int)),
                decreases sel@.len() - t,
            {
                let ghost r0 = row@;
                let v = match self.find_column(&sel[t]) {
                    Some(c) => {
                        proof {
                            lemma_key_index(self.cols(), c as int);
                            assert(self.cols()[c as int].1.len() == self.row_count);
                            assert(self.columns@[c as int].1@ == self.cols()[c as int].1);
                        }
                        match &self.columns[c].1[i] {
                            Some(x) => Some(clone_value(x)),
                            None => None,
                        }
                    },
                    None => None,
                };
                row.push(v);
                proof {
                    assert(sv.take(t as int + 1) =~= sv.take(t as int).push(sv[t as int]));
                    assert(row@ =~= sv.take(t as int + 1).map_values(|n: Seq<char>| self.cell(n, i as int)));
                }
                t = t + 1;
            }
            proof {
                assert(sv.take(t as int) =~= sv);
            }
            rows.push(row);
            i = i + 1;
        }
        Projection { columns: sel, rows }
    }

    /// The number of columns.
    pub fn column_count(&self) -> (n: usize)
        ensures
            n == self.cols().len(),
    {
        self.columns.len()
    }

    /// The number of rows ingested.
    #[verifier::when_used_as_spec(spec_row_count)]
    pub fn row_count(&self) -> (r: usize)
        ensures
            r == self.spec_row_count(),
    {
        self.row_count
    }

    /// Column reads made by projections.
    #[verifier::when_used_as_spec(spec_columns_read)]
    pub fn columns_read(&self) -> (r: usize)
        ensures
            r == self.spec_columns_read(),
    {
        self.columns_read
    }
}

/// The JSON text a cell is compared by: its value's text, "null" for a
/// null.
pub open spec fn cell_text(c: Option<JsonValue>) -> Seq<char> {
    match c {
        Some(v) => json_text_of(v),
        None => "null"@,
    }
}

/// The number of distinct texts among a column's cells.
pub open spec fn distinct_cells(values: Seq<Option<JsonValue>>) -> nat {
    values.map_values(|c: Option<JsonValue>| cell_text(c)).to_set().len()
}

/// The number of distinct texts among `values`.
fn count_distinct(values: &Vec<Option<JsonValue>>) -> (n: usize)
    ensures
        n == distinct_cells(values@),
{
    let ghost texts = values@.map_values(|c: Option<JsonValue>| cell_text(c));
    let mut seen: Vec<String> = Vec::new();
    let mut j: usize = 0;
    proof {
        assert(seen@.map_values(|s: String| s@) =~= Seq::<Seq<char>>::empty());
        assert(texts.take(0) =~= Seq::<Seq<char>>::empty());
        assert(Seq::<Seq<char>>::empty().to_set() =~= Set::<Seq<char>>::empty());
    }
    while j < values.len()
        invariant
            texts == values@.map_values(|c: Option<JsonValue>| cell_text(c)),
            0 <= j <= values@.len(),
            seen@.map_values(|s: String| s@).no_duplicates(),
            seen@.map_values(|s: String| s@).to_set() == texts.take(j as int).to_set(),
        decreases values@.len() - j,
    {
        let text = match &values[j] {
            Some(v) => json_text(v),
            None => String::from_str("null"),
        };
        proof {
            reveal_strlit("null");
            assert(text@ == texts[j as int]);
        }
        let ghost sv = seen@.map_values(|s: String| s@);
        let mut k: usize = 0;
        let mut found = false;
        while k < seen.len()
            invariant
                sv == seen@.map_values(|s: String| s@),
                0 <= k <= seen@.len(),
                found == exists|x: int| 0 <= x < k && sv[x] == text@,
            decreases seen@.len() - k,
        {
            if seen[k] == text {
                found = true;
            }
            proof {
                if found {
                    if seen@[k as int]@ == text@ {
                        assert(sv[k as int] == text@);
                    }
                } else {
                    assert forall|x: int| 0 <= x < k + 1 implies sv[x] != text@ by {
                        if x == k {
                            assert(sv[x] == seen@[k as int]@);
                        }
                    }
                }
            }
            k = k + 1;
        }
        proof {
            assert(texts.take(j + 1) =~= texts.take(j as int).push(texts[j as int]));
            texts.take(j as int).lemma_push_to_set_commute(texts[j as int]);
        }
        if !found {
            seen.push(text);
            proof {
                let nv = seen@.map_values(|s: String| s@);
                assert(nv =~= sv.push(text@));
                sv.lemma_push_to_set_commute(text@);
                assert(!sv.contains(text@));
                assert(nv.no_duplicates()) by {
                    assert forall|a: int, b: int| 0 <= a < nv.len() && 0 <= b < nv.len() && a != b implies nv[a] != nv[b] by {
                        if a < sv.len() && b < sv.len() {
                            assert(nv[a] == sv[a] && nv[b] == sv[b]);
                        } else if a == sv.len() {
                            assert(nv[b] == sv[b]);
                        } else {
                            assert(nv[a] == sv[a]);
                        }
                    }
                }
            }
        } else {
            proof {
                let x = choose|x: int| 0 <= x < seen@.len() && sv[x] == text@;
                assert(sv.to_set().contains(sv[x]));
                assert(sv.to_set().insert(text@) =~= sv.to_set());
            }
        }
        j = j + 1;
    }
    proof {
        assert(texts.take(j as int) =~= texts);
        seen@.map_values(|s: String| s@).unique_seq_to_set();
    }
    seen.len()
}

impl ColumnarStorageBlock {
    /// For each column, in order, the number of distinct texts among its
    /// values (a null counted by the text "null").
    pub fn distinct_value_counts(&self) -> (r: Vec<usize>)
        requires
            self.wf(),
        ensures
            r@.len() == self.cols().len(),
            forall|i: int| 0 <= i < r@.len() ==> r@[i] == distinct_cells(#[trigger] self.cols()[i].1),
    {
        let mut r: Vec<usize> = Vec::new();
        let mut i: usize = 0;
        while i < self.columns.len()
            invariant
                0 <= i <= self.cols().len(),
                self.cols().len() == self.columns@.len(),
                r@.len() == i,
                forall|x: int| 0 <= x < i ==> r@[x] == distinct_cells(#[trigger] self.cols()[x].1),
            decreases self.columns@.len() - i,
        {
            let n = count_distinct(&self.columns[i].1);
            proof {
                assert(self.cols()[i as int].1 == self.columns@[i as int].1@);
            }
            r.push(n);
            i = i + 1;
        }
        r
    }
}

impl ColumnarStorageBlock {
    fn build_documentation() -> (d: BlockDocumentation)
        ensures
            d.overview@ == "Columnar storage organizes data by column rather than by row. Instead \
                           of storing all fields of a record together (as in a heap file), each \
                           column is stored as a separate contiguous array. This means analytical \
                           queries that only need a few columns can skip reading the rest entirely, \
                           dramatically reducing I/O.\n\n\
                           In a database system, columnar storage is the foundation of OLAP (Online \
                           Analytical Processing) engines and data warehouses. When you run a query \
                           like SELECT AVG(price) FROM sales WHERE year = 2024, a row-oriented \
                           engine must read every column of every row. A columnar engine reads only \
                           the 'price' and 'year' columns, skipping all others. This also enables \
                           excellent compression because values within a column are of the same type \
                           and often have low cardinality (e.g., a 'country' column with only 200 \
                           distinct values across millions of rows).\n\n\
                           Think of columnar storage like a spreadsheet where each column is stored \
                           in its own file. If you need to sum column C across a million rows, you \
                           only open file C — not files A, B, D, E. The tradeoff is that fetching \
                           a complete row requires opening every column file and reconstructing it."@,
            d.algorithm@ == "INGEST (decompose rows into columns):\n  \
                           1. For each incoming record:\n    \
                              a. For each (key, value) in the record:\n      \
                                 - Find or create the Column for that key\n      \
                                 - If column is new, backfill NULLs for previously ingested rows\n      \
                                 - Append the value to the column's value array\n    \
                              b. For columns not present in this record, push NULL\n    \
                              c. Increment row_count\n\n\
                           PROJECT (reconstruct rows from selected columns):\n  \
                           1. Determine which columns to read (empty projection = all)\n  \
                           2. For row index i = 0..row_count:\n    \
                              a. Create a new Record\n    \
                              b. For each selected column, read values[i]\n    \
                              c. Emit the reconstructed record\n  \
                           3. Track columns_read for I/O metrics\n\n\
                           COMPRESSION ESTIMATION:\n  \
                           1. For each column, count distinct values (cardinality)\n  \
                           2. compression_ratio = total_values / distinct_values\n  \
                           3. Low cardinality columns (e.g., status, category) compress very well"@,
            d.motivation@ == "Row-oriented storage engines (heap files, B-trees) must read entire rows \
                             even when a query only needs one or two columns. For a table with 100 \
                             columns, a query that aggregates a single column wastes 99% of the I/O \
                             bandwidth reading irrelevant data.\n\n\
                             Columnar storage solves this by physically separating columns so that \
                             only the requested columns are read from disk. For analytical workloads \
                             that scan millions of rows but touch only a few columns, this can reduce \
                             I/O by 10-100x. Additionally, since all values in a column share the \
                             same data type, columnar storage achieves much better compression ratios \
                             than row-oriented storage."@,
            d.complexity.time@ == "Insert O(c) per row where c = columns, Projection O(n) for n rows"@,
            d.complexity.space@ == "O(n * c) — same total data, different layout"@,
            d.use_cases@.len() == 5,
            d.use_cases@[0]@ == "OLAP / analytical queries (aggregations over few columns)"@,
            d.use_cases@[1]@ == "Data warehousing (star schema fact tables)"@,
            d.use_cases@[2]@ == "Column-level compression for low-cardinality data"@,
            d.use_cases@[3]@ == "Time-series analytics where queries aggregate over specific metrics"@,
            d.use_cases@[4]@ == "Business intelligence dashboards that compute rollups and summaries"@,
            d.tradeoffs@.len() == 6,
            d.tradeoffs@[0]@ == "Fast column scans but slow single-row lookups"@,
            d.tradeoffs@[1]@ == "Excellent compression for low-cardinality columns"@,
            d.tradeoffs@[2]@ == "Row reconstruction requires reading multiple columns"@,
            d.tradeoffs@[3]@ == "Updates are expensive — append-mostly workloads preferred"@,
            d.tradeoffs@[4]@ == "Schema changes (adding columns) require backfilling NULLs for existing rows"@,
            d.tradeoffs@[5]@ == "Not suitable for OLTP workloads that read/write individual rows frequently"@,
            d.examples@.len() == 4,
            d.examples@[0]@ == "Apache Parquet — the standard columnar file format for data lakes and Spark/Hadoop"@,
            d.examples@[1]@ == "ClickHouse MergeTree — high-performance columnar OLAP database with real-time ingestion"@,
            d.examples@[2]@ == "Amazon Redshift — cloud data warehouse using columnar storage with zone maps"@,
            d.examples@[3]@ == "DuckDB — in-process columnar analytics database, often called 'SQLite for analytics'"@,
            d.suggested_questions@.len() == 3,
            d.suggested_questions@[0]@ == "Why does columnar storage compress better than row-oriented storage?"@,
            d.suggested_questions@[1]@ == "How much I/O is saved by projecting 2 columns out of 20 in a columnar layout vs. a row layout?"@,
            d.suggested_questions@[2]@ == "What are zone maps and how do they help columnar engines skip irrelevant data blocks?"@,
            d.parameter_guide@.len() == 1,
            d.parameter_guide@[0].0@ == "projection"@,
            d.parameter_guide@[0].1@ == "A comma-separated list of column names to include in the output. When empty, \
                      all columns are projected (like SELECT *). When specified, only those columns \
                      are read, simulating the I/O savings of columnar storage. For example, \
                      'id,price' reads only those two columns. This is the key advantage of \
                      columnar layout: you pay I/O cost only for the columns you actually need. \
                      Try different projections to see how columns_read changes in the metrics."@,
            d.alternatives@.len() == 3,
            d.alternatives@[0].block_type@ == "heap-file-storage"@,
            d.alternatives@[0].comparison@ == "Heap files store complete rows together, making single-row \
                                     reads fast but column-only scans wasteful. Choose heap for \
                                     OLTP workloads that read/write full rows. Choose columnar for \
                                     analytical queries that scan many rows but only need a few \
                                     columns."@,
            d.alternatives@[1].block_type@ == "clustered-storage"@,
            d.alternatives@[1].comparison@ == "Clustered storage sorts rows by a key for fast range scans \
                                     but still reads entire rows. Choose clustered for OLTP range \
                                     queries on the primary key. Choose columnar for OLAP aggregation \
                                     queries that only need specific columns."@,
            d.alternatives@[2].block_type@ == "lsm-tree-storage"@,
            d.alternatives@[2].comparison@ == "LSM trees optimize for write throughput with key-value semantics. \
                                     They are row-oriented and not designed for column projections. \
                                     Choose LSM for write-heavy key-value workloads. Choose columnar \
                                     for read-heavy analytical workloads with selective column access."@,
    {
        let mut use_cases: Vec<String> = Vec::new();
        use_cases.push(String::from_str("OLAP / analytical queries (aggregations over few columns)"));
        use_cases.push(String::from_str("Data warehousing (star schema fact tables)"));
        use_cases.push(String::from_str("Column-level compression for low-cardinality data"));
        use_cases.push(String::from_str("Time-series analytics where queries aggregate over specific metrics"));
        use_cases.push(String::from_str("Business intelligence dashboards that compute rollups and summaries"));
        let mut tradeoffs: Vec<String> = Vec::new();
        tradeoffs.push(String::from_str("Fast column scans but slow single-row lookups"));
        tradeoffs.push(String::from_str("Excellent compression for low-cardinality columns"));
        tradeoffs.push(String::from_str("Row reconstruction requires reading multiple columns"));
        tradeoffs.push(String::from_str("Updates are expensive — append-mostly workloads preferred"));
        tradeoffs.push(String::from_str("Schema changes (adding columns) require backfilling NULLs for existing rows"));
        tradeoffs.push(String::from_str("Not suitable for OLTP workloads that read/write individual rows frequently"));
        let mut examples: Vec<String> = Vec::new();
        examples.push(String::from_str("Apache Parquet — the standard columnar file format for data lakes and Spark/Hadoop"));
        examples.push(String::from_str("ClickHouse MergeTree — high-performance columnar OLAP database with real-time ingestion"));
        examples.push(String::from_str("Amazon Redshift — cloud data warehouse using columnar storage with zone maps"));
        examples.push(String::from_str("DuckDB — in-process columnar analytics database, often called 'SQLite for analytics'"));
        let mut suggested_questions: Vec<String> = Vec::new();
        suggested_questions.push(String::from_str("Why does columnar storage compress better than row-oriented storage?"));
        suggested_questions.push(String::from_str("How much I/O is saved by projecting 2 columns out of 20 in a columnar layout vs. a row layout?"));
        suggested_questions.push(String::from_str("What are zone maps and how do they help columnar engines skip irrelevant data blocks?"));
        let mut parameter_guide: Vec<(String, String)> = Vec::new();
        parameter_guide.push((String::from_str("projection"), String::from_str("A comma-separated list of column names to include in the output. When empty, \
                      all columns are projected (like SELECT *). When specified, only those columns \
                      are read, simulating the I/O savings of columnar storage. For example, \
                      'id,price' reads only those two columns. This is the key advantage of \
                      columnar layout: you pay I/O cost only for the columns you actually need. \
                      Try different projections to see how columns_read changes in the metrics.")));
        let mut alternatives: Vec<Alternative> = Vec::new();
        alternatives.push(Alternative { block_type: String::from_str("heap-file-storage"), comparison: String::from_str("Heap files store complete rows together, making single-row \
                                     reads fast but column-only scans wasteful. Choose heap for \
                                     OLTP workloads that read/write full rows. Choose columnar for \
                                     analytical queries that scan many rows but only need a few \
                                     columns.") });
        alternatives.push(Alternative { block_type: String::from_str("clustered-storage"), comparison: String::from_str("Clustered storage sorts rows by a key for fast range scans \
                                     but still reads entire rows. Choose clustered for OLTP range \
                                     queries on the primary key. Choose columnar for OLAP aggregation \
                                     queries that only need specific columns.") });
        alternatives.push(Alternative { block_type: String::from_str("lsm-tree-storage"), comparison: String::from_str("LSM trees optimize for write throughput with key-value semantics. \
                                     They are row-oriented and not designed for column projections. \
                                     Choose LSM for write-heavy key-value workloads. Choose columnar \
                                     for read-heavy analytical workloads with selective column access.") });
        BlockDocumentation {
            overview: String::from_str("Columnar storage organizes data by column rather than by row. Instead \
                           of storing all fields of a record together (as in a heap file), each \
                           column is stored as a separate contiguous array. This means analytical \
                           queries that only need a few columns can skip reading the rest entirely, \
                           dramatically reducing I/O.\n\n\
                           In a database system, columnar storage is the foundation of OLAP (Online \
                           Analytical Processing) engines and data warehouses. When you run a query \
                           like SELECT AVG(price) FROM sales WHERE year = 2024, a row-oriented \
                           engine must read every column of every row. A columnar engine reads only \
                           the 'price' and 'year' columns, skipping all others. This also enables \
                           excellent compression because values within a column are of the same type \
                           and often have low cardinality (e.g., a 'country' column with only 200 \
                           distinct values across millions of rows).\n\n\
                           Think of columnar storage like a spreadsheet where each column is stored \
                           in its own file. If you need to sum column C across a million rows, you \
                           only open file C — not files A, B, D, E. The tradeoff is that fetching \
                           a complete row requires opening every column file and reconstructing it."),
            algorithm: String::from_str("INGEST (decompose rows into columns):\n  \
                           1. For each incoming record:\n    \
                              a. For each (key, value) in the record:\n      \
                                 - Find or create the Column for that key\n      \
                                 - If column is new, backfill NULLs for previously ingested rows\n      \
                                 - Append the value to the column's value array\n    \
                              b. For columns not present in this record, push NULL\n    \
                              c. Increment row_count\n\n\
                           PROJECT (reconstruct rows from selected columns):\n  \
                           1. Determine which columns to read (empty projection = all)\n  \
                           2. For row index i = 0..row_count:\n    \
                              a. Create a new Record\n    \
                              b. For each selected column, read values[i]\n    \
                              c. Emit the reconstructed record\n  \
                           3. Track columns_read for I/O metrics\n\n\
                           COMPRESSION ESTIMATION:\n  \
                           1. For each column, count distinct values (cardinality)\n  \
                           2. compression_ratio = total_values / distinct_values\n  \
                           3. Low cardinality columns (e.g., status, category) compress very well"),
            complexity: Complexity { time: String::from_str("Insert O(c) per row where c = columns, Projection O(n) for n rows"), space: String::from_str("O(n * c) — same total data, different layout") },
            use_cases,
            tradeoffs,
            examples,
            motivation: String::from_str("Row-oriented storage engines (heap files, B-trees) must read entire rows \
                             even when a query only needs one or two columns. For a table with 100 \
                             columns, a query that aggregates a single column wastes 99% of the I/O \
                             bandwidth reading irrelevant data.\n\n\
                             Columnar storage solves this by physically separating columns so that \
                             only the requested columns are read from disk. For analytical workloads \
                             that scan millions of rows but touch only a few columns, this can reduce \
                             I/O by 10-100x. Additionally, since all values in a column share the \
                             same data type, columnar storage achieves much better compression ratios \
                             than row-oriented storage."),
            parameter_guide,
            alternatives,
            suggested_questions,
        }
    }

    fn build_references() -> (r: Vec<Reference>)
        ensures
            r@.len() == 1,
            r@[0].ref_type == ReferenceType::Book,
            r@[0].title@ == "Designing Data-Intensive Applications — Chapter 3: Column-Oriented Storage"@,
            r@[0].url is None,
            r@[0].citation matches Some(t) && t@ == "Kleppmann, M. (2017). DDIA. O'Reilly."@,
    {
        let mut r: Vec<Reference> = Vec::new();
        r.push(Reference { ref_type: ReferenceType::Book, title: String::from_str("Designing Data-Intensive Applications — Chapter 3: Column-Oriented Storage"), url: None, citation: Some(String::from_str("Kleppmann, M. (2017). DDIA. O'Reilly.")) });
        r
    }

    fn build_metadata() -> (m: BlockMetadata)
        ensures
            m.documentation.overview@ == "Columnar storage organizes data by column rather than by row. Instead \
                           of storing all fields of a record together (as in a heap file), each \
                           column is stored as a separate contiguous array. This means analytical \
                           queries that only need a few columns can skip reading the rest entirely, \
                           dramatically reducing I/O.\n\n\
                           In a database system, columnar storage is the foundation of OLAP (Online \
                           Analytical Processing) engines and data warehouses. When you run a query \
                           like SELECT AVG(price) FROM sales WHERE year = 2024, a row-oriented \
                           engine must read every column of every row. A columnar engine reads only \
                           the 'price' and 'year' columns, skipping all others. This also enables \
                           excellent compression because values within a column are of the same type \
                           and often have low cardinality (e.g., a 'country' column with only 200 \
                           distinct values across millions of rows).\n\n\
                           Think of columnar storage like a spreadsheet where each column is stored \
                           in its own file. If you need to sum column C across a million rows, you \
                           only open file C — not files A, B, D, E. The tradeoff is that fetching \
                           a complete row requires opening every column file and reconstructing it."@,
            m.references@.len() == 1,
            m.id@ == "columnar-storage"@,
            m.category == BlockCategory::Storage,
            m.name@ == "Columnar Storage"@,
            m.description@ == "Column-oriented storage for analytical workloads"@,
            m.version@ == "1.0.0"@,
            m.icon@ == "columns"@,
            m.color@ == "#8B5CF6"@,
    {
        BlockMetadata::new(
            "columnar-storage",
            "Columnar Storage",
            BlockCategory::Storage,
            "Column-oriented storage for analytical workloads",
            "columns",
            "#8B5CF6",
            Self::build_documentation(),
            Self::build_references(),
        )
    }

    fn build_inputs() -> (p: Vec<Port>)
        ensures
            p@.len() == 1,
            p@[0].id@ == "records"@,
    {
        let mut p: Vec<Port> = Vec::new();
        p.push(
            Port::new(
                "records",
                "Records",
                PortDirection::Input,
                true,
                false,
                "Records to decompose into columnar format",
            ),
        );
        p
    }

    fn build_outputs() -> (p: Vec<Port>)
        ensures
            p@.len() == 1,
            p@[0].id@ == "projected"@,
    {
        let mut p: Vec<Port> = Vec::new();
        p.push(
            Port::new(
                "projected",
                "Projected Records",
                PortDirection::Output,
                false,
                true,
                "Records reconstructed from selected columns",
            ),
        );
        p
    }

    fn build_metrics() -> (v: Vec<MetricDefinition>)
        ensures
            v@.len() == 4,
            v@[0].id@ == "columns_stored"@,
            v@[1].id@ == "rows_stored"@,
            v@[2].id@ == "columns_read"@,
            v@[3].id@ == "compression_ratio"@,
    {
        let mut v: Vec<MetricDefinition> = Vec::new();
        v.push(
            MetricDefinition::new(
                "columns_stored",
                "Columns Stored",
                MetricType::Gauge,
                "columns",
                "Distinct columns",
                AggregationType::Max,
            ),
        );
        v.push(
            MetricDefinition::new(
                "rows_stored",
                "Rows Stored",
                MetricType::Gauge,
                "rows",
                "Total rows",
                AggregationType::Max,
            ),
        );
        v.push(
            MetricDefinition::new(
                "columns_read",
                "Columns Read",
                MetricType::Counter,
                "ops",
                "Column projections performed",
                AggregationType::Sum,
            ),
        );
        v.push(
            MetricDefinition::new(
                "compression_ratio",
                "Compression Ratio",
                MetricType::Gauge,
                "x",
                "Average compression ratio across columns",
                AggregationType::Max,
            ),
        );
        v
    }

    /// What the block says about itself.
    pub fn metadata(&self) -> (m: &BlockMetadata)
        ensures
            m == self.spec_metadata(),
    {
        &self.metadata
    }

    pub closed spec fn spec_metadata(&self) -> BlockMetadata {
        self.metadata
    }

    /// The block's input ports.
    pub fn inputs(&self) -> (p: &Vec<Port>)
        ensures
            p == self.spec_inputs(),
    {
        &self.input_ports
    }

    pub closed spec fn spec_inputs(&self) -> Vec<Port> {
        self.input_ports
    }

    /// The block's output ports.
    pub fn outputs(&self) -> (p: &Vec<Port>)
        ensures
            p == self.spec_outputs(),
    {
        &self.output_ports
    }

    pub closed spec fn spec_outputs(&self) -> Vec<Port> {
        self.output_ports
    }

    /// The metrics the block reports.
    pub fn metrics(&self) -> (m: &Vec<MetricDefinition>)
        ensures
            m == self.spec_metrics(),
    {
        &self.metric_defs
    }

    pub closed spec fn spec_metrics(&self) -> Vec<MetricDefinition> {
        self.metric_defs
    }
}
} // verus!
