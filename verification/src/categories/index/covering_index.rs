//! Covering Index Block
//!
//! An index that keeps, beside each key, copies of a chosen set of
//! columns, so that a lookup is answered from the index alone, without a
//! visit to the table. Entries are grouped by the text of their key; a
//! lookup names that text and returns every entry under it, in the order
//! they were indexed.
use serde_json::Value as JsonValue;
use vstd::prelude::*;
use vstd::string::*;

use crate::common::block::{Alternative, BlockCategory, BlockDocumentation, BlockMetadata, Complexity, Reference, ReferenceType};
use crate::common::json::{clone_value, json_text, json_text_of};
use crate::common::keyed::{distinct_keys, has_key, key_index, lemma_key_index, lemma_push_row, lemma_update_value, value_of};
use crate::common::metrics::{AggregationType, MetricDefinition, MetricType};
use crate::common::port::{Port, PortDirection};

verus! {

/// An entry as a value: its key, and each covered column with its value.
pub type EntryView = (JsonValue, Seq<(Seq<char>, JsonValue)>);

/// One indexed row: its key, the key's text, and the values of the
/// covered columns in order, `None` for a column the row lacks.
pub struct IndexRow {
    pub key: JsonValue,
    pub key_text: String,
    pub values: Vec<Option<JsonValue>>,
}

/// An index entry: the key and the covered columns the row had.
pub struct CoveringEntry {
    pub key: JsonValue,
    pub covered: Vec<(String, JsonValue)>,
}

impl CoveringEntry {
    pub open spec fn view_of(self) -> EntryView {
        (self.key, self.covered@.map_values(|p: (String, JsonValue)| (p.0@, p.1)))
    }
}

/// The covered columns a row has: each column of `cols` paired with the
/// row's value for it, where it has one, in column order.
pub open spec fn covered_of(cols: Seq<Seq<char>>, values: Seq<Option<JsonValue>>, n: int) -> Seq<(Seq<char>, JsonValue)>
    decreases n,
{
    if n <= 0 {
        Seq::empty()
    } else {
        match values[n - 1] {
            Some(v) => covered_of(cols, values, n - 1).push((cols[n - 1], v)),
            None => covered_of(cols, values, n - 1),
        }
    }
}

/// The entry a row makes.
pub open spec fn entry_of(cols: Seq<Seq<char>>, row: IndexRow) -> EntryView {
    (row.key, covered_of(cols, row.values@, cols.len() as int))
}

/// The entries the first `n` rows add under key text `k`, in order.
pub open spec fn added_under(cols: Seq<Seq<char>>, rows: Seq<IndexRow>, k: Seq<char>, n: int) -> Seq<EntryView>
    decreases n,
{
    if n <= 0 {
        Seq::empty()
    } else if rows[n - 1].key_text@ == k {
        added_under(cols, rows, k, n - 1).push(entry_of(cols, rows[n - 1]))
    } else {
        added_under(cols, rows, k, n - 1)
    }
}

/// `rows` are the rows of `keys` and `values`, each key filed under its
/// JSON text.
pub open spec fn rows_for_keys(rows: Seq<IndexRow>, keys: Seq<JsonValue>, values: Seq<Vec<Option<JsonValue>>>) -> bool {
    &&& rows.len() == keys.len()
    &&& rows.len() == values.len()
    &&& forall|i: int| 0 <= i < rows.len() ==> {
        &&& (#[trigger] rows[i]).key == keys[i]
        &&& rows[i].key_text@ == json_text_of(keys[i])
        &&& rows[i].values@ == values[i]@
    }
}

/// The number of entries over all groups.
pub open spec fn entry_total(t: Seq<(Seq<char>, Seq<EntryView>)>) -> nat
    decreases t.len(),
{
    if t.len() == 0 {
        0
    } else {
        entry_total(t.drop_last()) + t.last().1.len()
    }
}

/// An index answering lookups from copies of chosen columns.
pub struct CoveringIndexBlock {
    metadata: BlockMetadata,
    input_ports: Vec<Port>,
    output_ports: Vec<Port>,
    metric_defs: Vec<MetricDefinition>,
    key_column: String,
    included_columns: Vec<String>,
    /// Entries grouped by the text of their key, each group in order.
    index: Vec<(String, Vec<CoveringEntry>)>,
    lookups: usize,
    index_only_scans: usize,
    table_lookups_avoided: usize,
}

impl CoveringIndexBlock {
    /// The groups of entries, by key text.
    pub closed spec fn groups(&self) -> Seq<(Seq<char>, Seq<EntryView>)> {
        self.index@.map_values(|g: (String, Vec<CoveringEntry>)| (g.0@, g.1@.map_values(|e: CoveringEntry| e.view_of())))
    }

    /// The entries under key text `k`, in the order they were indexed.
    pub open spec fn entries_under(&self, k: Seq<char>) -> Seq<EntryView> {
        match value_of(self.groups(), k) {
            Some(es) => es,
            None => Seq::empty(),
        }
    }

    /// The covered columns, in order.
    pub closed spec fn columns(&self) -> Seq<Seq<char>> {
        self.included_columns@.map_values(|c: String| c@)
    }

    pub closed spec fn spec_key_column(&self) -> Seq<char> {
        self.key_column@
    }

    pub closed spec fn spec_lookups(&self) -> usize {
        self.lookups
    }

    pub closed spec fn spec_index_only_scans(&self) -> usize {
        self.index_only_scans
    }

    pub closed spec fn spec_table_lookups_avoided(&self) -> usize {
        self.table_lookups_avoided
    }

    /// Each key text has one group.
    pub closed spec fn wf(&self) -> bool {
        distinct_keys(self.groups())
    }

    pub fn new() -> (ci: Self)
        ensures
            ci.wf(),
            ci.groups() == Seq::<(Seq<char>, Seq<EntryView>)>::empty(),
            ci.columns() == Seq::<Seq<char>>::empty(),
            ci.spec_key_column() == "id"@,
            ci.spec_lookups() == 0,
            ci.spec_index_only_scans() == 0,
            ci.spec_table_lookups_avoided() == 0,
            ci.spec_metadata().id@ == "covering-index"@,
            ci.spec_metadata().category == BlockCategory::Index,
    {
        let ci = Self {
            metadata: Self::build_metadata(),
            input_ports: Self::build_inputs(),
            output_ports: Self::build_outputs(),
            metric_defs: Self::build_metrics(),
            key_column: String::from_str("id"),
            included_columns: Vec::new(),
            index: Vec::new(),
            lookups: 0,
            index_only_scans: 0,
            table_lookups_avoided: 0,
        };
        proof {
            assert(ci.groups() =~= Seq::<(Seq<char>, Seq<EntryView>)>::empty());
            assert(ci.columns() =~= Seq::<Seq<char>>::empty());
        }
        ci
    }

    /// The group of key text `k`, if there is one.
    fn find_group(&self, k: &String) -> (r: Option<usize>)
        ensures
            match r {
                Some(i) => i < self.groups().len() && self.groups()[i as int].0 == k@,
                None => !has_key(self.groups(), k@),
            },
    {
        let mut i: usize = 0;
        while i < self.index.len()
            invariant
                0 <= i <= self.index@.len(),
                self.groups().len() == self.index@.len(),
                forall|j: int| 0 <= j < i ==> self.groups()[j].0 != k@,
            decreases self.index@.len() - i,
        {
            if self.index[i].0 == *k {
                return Some(i);
            }
            i = i + 1;
        }
        None
    }

    /// The entry `row` makes under the covered columns.
    fn make_entry(&self, row: &IndexRow) -> (e: CoveringEntry)
        requires
            row.values@.len() == self.columns().len(),
        ensures
            e.view_of() == entry_of(self.columns(), *row),
    {
        let cols = &self.included_columns;
        let mut covered: Vec<(String, JsonValue)> = Vec::new();
        let mut i: usize = 0;
        while i < cols.len()
            invariant
                0 <= i <= cols@.len(),
                cols@.len() == row.values@.len(),
                self.columns() == cols@.map_values(|c: String| c@),
                covered@.map_values(|p: (String, JsonValue)| (p.0@, p.1)) == covered_of(self.columns(), row.values@, i as int),
            decreases cols@.len() - i,
        {
            let ghost before = covered@;
            match &row.values[i] {
                Some(v) => {
                    covered.push((cols[i].clone(), clone_value(v)));
                    proof {
                        assert(covered@.map_values(|p: (String, JsonValue)| (p.0@, p.1)) =~= before.map_values(
                            |p: (String, JsonValue)| (p.0@, p.1)).push((self.columns()[i as int], *v)));
                    }
                },
                None => {},
            }
            i = i + 1;
        }
        CoveringEntry { key: clone_value(&row.key), covered }
    }

    /// Indexes rows whose key texts are given: each row's entry goes at
    /// the end of its key text's group.
    pub fn build_index_rows(&mut self, rows: &Vec<IndexRow>)
        requires
            old(self).wf(),
            forall|i: int| 0 <= i < rows@.len() ==> (#[trigger] rows@[i]).values@.len() == old(self).columns().len(),
        ensures
            final(self).wf(),
            forall|k: Seq<char>| #[trigger] final(self).entries_under(k) == old(self).entries_under(k) + added_under(
                old(self).columns(),
                rows@,
                k,
                rows@.len() as int,
            ),
            final(self).columns() == old(self).columns(),
            final(self).spec_key_column() == old(self).spec_key_column(),
            final(self).spec_lookups() == old(self).spec_lookups(),
            final(self).spec_index_only_scans() == old(self).spec_index_only_scans(),
            final(self).spec_table_lookups_avoided() == old(self).spec_table_lookups_avoided(),
    {
        let ghost cols = self.columns();
        let mut n: usize = 0;
        while n < rows.len()
            invariant
                self.wf(),
                cols == self.columns(),
                cols == old(self).columns(),
                0 <= n <= rows@.len(),
                forall|i: int| 0 <= i < rows@.len() ==> (#[trigger] rows@[i]).values@.len() == cols.len(),
                forall|k: Seq<char>| #[trigger] self.entries_under(k) == old(self).entries_under(k) + added_under(cols, rows@, k, n as int),
                self.key_column == old(self).key_column,
                self.lookups == old(self).lookups,
                self.index_only_scans == old(self).index_only_scans,
                self.table_lookups_avoided == old(self).table_lookups_avoided,
            decreases rows@.len() - n,
        {
            let row = &rows[n];
            let entry = self.make_entry(row);
            let ghost ev = entry.view_of();
            let ghost t0 = self.groups();
            let ghost s0 = *self;
            assert(forall|k: Seq<char>| #[trigger] s0.entries_under(k) == old(self).entries_under(k) + added_under(cols, rows@, k, n as int));
            match self.find_group(&row.key_text) {
                Some(i) => {
                    let ghost g0 = t0[i as int].1;
                    self.index[i].1.push(entry);
                    proof {
                        assert(self.groups()[i as int].1 =~= g0.push(ev));
                        assert(self.groups() =~= t0.update(i as int, (t0[i as int].0, g0.push(ev))));
                        lemma_update_value(t0, i as int, g0.push(ev));
                        lemma_key_index(t0, i as int);
                    }
                },
                None => {
                    let mut group: Vec<CoveringEntry> = Vec::new();
                    group.push(entry);
                    let key = row.key_text.clone();
                    let ghost g = (key@, group@.map_values(|e: CoveringEntry| e.view_of()));
                    self.index.push((key, group));
                    proof {
                        assert(g.1 =~= seq![ev]);
                        assert(self.groups() =~= t0.push(g));
                        lemma_push_row(t0, g);
                    }
                },
            }
            proof {
                assert forall|k: Seq<char>| #[trigger] self.entries_under(k) == old(self).entries_under(k) + added_under(cols, rows@, k, n as int + 1) by {
                    assert(s0.entries_under(k) == old(self).entries_under(k) + added_under(cols, rows@, k, n as int));
                    if k == rows@[n as int].key_text@ {
                        assert(old(self).entries_under(k) + added_under(cols, rows@, k, n as int).push(ev) =~= (old(self).entries_under(k)
                            + added_under(cols, rows@, k, n as int)).push(ev));
                        if !has_key(t0, k) {
                            assert(s0.entries_under(k) =~= Seq::<EntryView>::empty());
                            assert(Seq::<EntryView>::empty().push(ev) =~= seq![ev]);
                        }
                    }
                }
            }
            n = n + 1;
        }
    }

    /// Indexes rows by their keys: row `i` has key `keys[i]`, filed under
    /// the key's JSON text, and covered values `values[i]`.
    pub fn build_index(&mut self, keys: Vec<JsonValue>, values: Vec<Vec<Option<JsonValue>>>)
        requires
            old(self).wf(),
            keys@.len() == values@.len(),
            forall|i: int| 0 <= i < values@.len() ==> (#[trigger] values@[i])@.len() == old(self).columns().len(),
        ensures
            final(self).wf(),
            exists|rows: Seq<IndexRow>| {
                &&& #[trigger] rows_for_keys(rows, keys@, values@)
                &&& forall|k: Seq<char>| #[trigger] final(self).entries_under(k) == old(self).entries_under(k) + added_under(
                    old(self).columns(),
                    rows,
                    k,
                    rows.len() as int,
                )
            },
            final(self).columns() == old(self).columns(),
            final(self).spec_key_column() == old(self).spec_key_column(),
            final(self).spec_lookups() == old(self).spec_lookups(),
            final(self).spec_index_only_scans() == old(self).spec_index_only_scans(),
            final(self).spec_table_lookups_avoided() == old(self).spec_table_lookups_avoided(),
    {
        let mut rows: Vec<IndexRow> = Vec::new();
        let ghost keys0 = keys@;
        let ghost values0 = values@;
        let mut keys = keys;
        let mut values = values;
        while keys.len() > 0
            invariant
                keys@.len() == values@.len(),
                rows@.len() + keys@.len() == keys0.len(),
                keys0.len() == values0.len(),
                keys@ == keys0.skip(rows@.len() as int),
                values@ == values0.skip(rows@.len() as int),
                forall|i: int| 0 <= i < values0.len() ==> (#[trigger] values0[i])@.len() == old(self).columns().len(),
                forall|i: int| 0 <= i < rows@.len() ==> {
                    &&& (#[trigger] rows@[i]).key == keys0[i]
                    &&& rows@[i].key_text@ == json_text_of(keys0[i])
                    &&& rows@[i].values@ == values0[i]@
                },
            decreases keys@.len(),
        {
            let ghost r = rows@.len() as int;
            let key = keys.remove(0);
            let vals = values.remove(0);
            proof {
                assert(keys0.skip(r)[0] == keys0[r]);
                assert(values0.skip(r)[0] == values0[r]);
                assert(keys@ =~= keys0.skip(r + 1));
                assert(values@ =~= values0.skip(r + 1));
            }
            let key_text = json_text(&key);
            rows.push(IndexRow { key, key_text, values: vals });
        }
        self.build_index_rows(&rows);
        proof {
            assert(rows_for_keys(rows@, keys0, values0));
        }
    }

    /// Looks up key text `lookup_key`: the entries under it, in the order
    /// they were indexed. A lookup that finds entries is answered from the
    /// index alone, and saves one table visit per entry.
    pub fn lookup(&mut self, lookup_key: &str) -> (r: Vec<CoveringEntry>)
        requires
            old(self).wf(),
            old(self).spec_lookups() < usize::MAX,
            old(self).spec_index_only_scans() < usize::MAX,
            old(self).spec_table_lookups_avoided() + old(self).entries_under(lookup_key@).len() <= usize::MAX,
        ensures
            final(self).wf(),
            r@.map_values(|e: CoveringEntry| e.view_of()) == old(self).entries_under(lookup_key@),
            final(self).spec_lookups() == old(self).spec_lookups() + 1,
            final(self).spec_index_only_scans() == old(self).spec_index_only_scans() + if has_key(old(self).groups(), lookup_key@) {
                1int
            } else {
                0int
            },
            final(self).spec_table_lookups_avoided() == old(self).spec_table_lookups_avoided() + old(self).entries_under(lookup_key@).len(),
            final(self).groups() == old(self).groups(),
            final(self).columns() == old(self).columns(),
    {
        self.lookups = self.lookups + 1;
        let k = lookup_key.to_owned();
        let mut out: Vec<CoveringEntry> = Vec::new();
        match self.find_group(&k) {
            Some(i) => {
                proof {
                    lemma_key_index(self.groups(), i as int);
                }
                let group = &self.index[i].1;
                let ghost gv = self.groups()[i as int].1;
                let mut j: usize = 0;
                while j < group.len()
                    invariant
                        0 <= j <= group@.len(),
                        gv == group@.map_values(|e: CoveringEntry| e.view_of()),
                        out@.map_values(|e: CoveringEntry| e.view_of()) == gv.take(j as int),
                    decreases group@.len() - j,
                {
                    let copy = copy_entry(&group[j]);
                    let ghost out0 = out@;
                    out.push(copy);
                    proof {
                        assert(out@ == out0.push(copy));
                        assert(gv[j as int] == group@[j as int].view_of());
                        assert(gv.take(j as int + 1) =~= gv.take(j as int).push(gv[j as int]));
                        assert(out@.map_values(|e: CoveringEntry| e.view_of()) =~= out0.map_values(|e: CoveringEntry| e.view_of()).push(copy.view_of()));
                    }
                    j = j + 1;
                }
                proof {
                    assert(gv.take(j as int) =~= gv);
                }
                self.index_only_scans = self.index_only_scans + 1;
                self.table_lookups_avoided = self.table_lookups_avoided + group.len();
            },
            None => {
                proof {
                    assert(out@.map_values(|e: CoveringEntry| e.view_of()) =~= Seq::<EntryView>::empty());
                }
            },
        }
        out
    }

    /// The number of entries indexed.
    pub fn total_entries(&self) -> (n: usize)
        requires
            entry_total(self.groups()) <= usize::MAX,
        ensures
            n == entry_total(self.groups()),
    {
        let mut n: usize = 0;
        let mut i: usize = 0;
        while i < self.index.len()
            invariant
                0 <= i <= self.index@.len(),
                self.groups().len() == self.index@.len(),
                entry_total(self.groups()) <= usize::MAX,
                n == entry_total(self.groups().subrange(0, i as int)),
            decreases self.index@.len() - i,
        {
            proof {
                let t = self.groups();
                assert(t.subrange(0, i as int + 1).drop_last() =~= t.subrange(0, i as int));
                lemma_entry_total_prefix(t, i as int + 1);
            }
            n = n + self.index[i].1.len();
            i = i + 1;
        }
        proof {
            assert(self.groups().subrange(0, i as int) =~= self.groups());
        }
        n
    }

    /// Sets the column whose value is the key.
    pub fn set_key_column(&mut self, column: String)
        requires
            old(self).wf(),
        ensures
            final(self).wf(),
            final(self).spec_key_column() == column@,
            final(self).groups() == old(self).groups(),
            final(self).columns() == old(self).columns(),
    {
        self.key_column = column;
    }

    /// The column whose value is the key.
    pub fn key_column(&self) -> (r: &String)
        ensures
            r@ == self.spec_key_column(),
    {
        &self.key_column
    }

    /// Sets the covered columns.
    pub fn set_included_columns(&mut self, columns: Vec<String>)
        requires
            old(self).wf(),
        ensures
            final(self).wf(),
            final(self).columns() == columns@.map_values(|c: String| c@),
            final(self).groups() == old(self).groups(),
            final(self).spec_key_column() == old(self).spec_key_column(),
    {
        self.included_columns = columns;
    }

    /// The covered columns.
    pub fn included_columns(&self) -> (r: &Vec<String>)
        ensures
            r@.map_values(|c: String| c@) == self.columns(),
    {
        &self.included_columns
    }

    /// Lookups served.
    #[verifier::when_used_as_spec(spec_lookups)]
    pub fn lookups(&self) -> (r: usize)
        ensures
            r == self.spec_lookups(),
    {
        self.lookups
    }

    /// Lookups answered from the index alone.
    #[verifier::when_used_as_spec(spec_index_only_scans)]
    pub fn index_only_scans(&self) -> (r: usize)
        ensures
            r == self.spec_index_only_scans(),
    {
        self.index_only_scans
    }

    /// Table visits saved.
    #[verifier::when_used_as_spec(spec_table_lookups_avoided)]
    pub fn table_lookups_avoided(&self) -> (r: usize)
        ensures
            r == self.spec_table_lookups_avoided(),
    {
        self.table_lookups_avoided
    }
}

/// A copy of an entry, its values cloned.
fn copy_entry(e: &CoveringEntry) -> (r: CoveringEntry)
    ensures
        r.view_of() == e.view_of(),
{
    let mut covered: Vec<(String, JsonValue)> = Vec::new();
    let mut t: usize = 0;
    while t < e.covered.len()
        invariant
            0 <= t <= e.covered@.len(),
            covered@.len() == t,
            forall|x: int| 0 <= x < t ==> (#[trigger] covered@[x]).0@ == e.covered@[x].0@ && covered@[x].1 == e.covered@[x].1,
        decreases e.covered@.len() - t,
    {
        let name = e.covered[t].0.clone();
        let value = clone_value(&e.covered[t].1);
        covered.push((name, value));
        t = t + 1;
    }
    let r = CoveringEntry { key: clone_value(&e.key), covered };
    proof {
        assert(r.covered@.map_values(|p: (String, JsonValue)| (p.0@, p.1)) =~= e.covered@.map_values(|p: (String, JsonValue)| (p.0@, p.1)));
    }
    r
}

proof fn lemma_entry_total_prefix(t: Seq<(Seq<char>, Seq<EntryView>)>, k: int)
    requires
        0 <= k <= t.len(),
    ensures
        entry_total(t.subrange(0, k)) <= entry_total(t),
    decreases t.len() - k,
{
    if k < t.len() {
        lemma_entry_total_prefix(t, k + 1);
        assert(t.subrange(0, k + 1).drop_last() =~= t.subrange(0, k));
    } else {
        assert(t.subrange(0, k) =~= t);
    }
}

impl CoveringIndexBlock {
    fn build_documentation() -> (d: BlockDocumentation)
        ensures
            d.overview@ == "A covering index is an index that stores additional column values \
                           alongside the index key, enabling the database to answer certain queries \
                           entirely from the index without ever touching the base table. This is \
                           called an 'index-only scan' and it eliminates the random I/O cost of \
                           fetching rows from the heap.\n\n\
                           In a typical B-tree index, a lookup returns a TupleId (page + slot), \
                           and the database must then read that page from the heap to get the \
                           actual row data. For a query like SELECT name, email FROM users WHERE \
                           id = 42, a plain index on 'id' finds the TupleId, then reads the heap \
                           page. A covering index on 'id' that INCLUDEs 'name' and 'email' can \
                           return both values directly from the index — one I/O instead of two.\n\n\
                           Think of a covering index like a phone book that also lists email \
                           addresses. If you only need someone's phone number and email, the phone \
                           book covers your query completely. You never need to visit the person's \
                           house (the heap) to get that information. But the phone book is thicker \
                           (more storage) because it carries extra data."@,
            d.algorithm@ == "BUILD INDEX:\n  \
                           1. For each incoming record:\n    \
                              a. Extract the key column value\n    \
                              b. Extract values for each included_column\n    \
                              c. Create a CoveringEntry with (key, covered_values map)\n    \
                              d. Insert into BTreeMap indexed by key string\n  \
                           2. Multiple records with the same key are stored in a Vec\n\n\
                           INDEX-ONLY LOOKUP:\n  \
                           1. Convert lookup_key to string and search in the BTreeMap\n  \
                           2. If found:\n    \
                              a. Increment index_only_scans counter\n    \
                              b. For each matching entry:\n      \
                                 - Build a Record with key + covered column values\n      \
                                 - Mark record with _index_only = true\n      \
                                 - Increment table_lookups_avoided\n    \
                              c. Return all matching records\n  \
                           3. If not found: return empty (the key does not exist)\n\n\
                           WHEN IS THE INDEX NOT COVERING?\n  \
                           If the query SELECTs a column that is NOT in included_columns,\n  \
                           the database must still fetch the full row from the heap table.\n  \
                           This is no different from a plain B-tree index lookup."@,
            d.motivation@ == "A standard B-tree index speeds up finding which rows match a predicate, \
                             but the database still has to visit the heap table to read the actual \
                             column values. For a query that matches 1000 rows, that means 1000 \
                             random I/O operations to the heap — each potentially a disk seek.\n\n\
                             The covering index solves this by storing copies of frequently-needed \
                             columns right in the index itself. The query can be answered entirely \
                             from the index with zero heap lookups. This trades extra storage space \
                             and write overhead for dramatically faster reads on specific query \
                             patterns. In practice, adding one or two INCLUDE columns to a hot \
                             index can reduce query latency by 50% or more."@,
            d.complexity.time@ == "Lookup O(log n), Range scan O(log n + k)"@,
            d.complexity.space@ == "O(n * (1 + included_columns)) — larger than a plain index"@,
            d.use_cases@.len() == 5,
            d.use_cases@[0]@ == "Queries that SELECT only indexed + included columns"@,
            d.use_cases@[1]@ == "Avoiding expensive heap lookups on wide tables"@,
            d.use_cases@[2]@ == "CREATE INDEX ... INCLUDE (col1, col2) in PostgreSQL"@,
            d.use_cases@[3]@ == "High-frequency queries on hot paths where eliminating one I/O per query matters"@,
            d.use_cases@[4]@ == "Reporting queries that always read the same small set of columns"@,
            d.tradeoffs@.len() == 5,
            d.tradeoffs@[0]@ == "Eliminates table lookups for covered queries"@,
            d.tradeoffs@[1]@ == "Larger index size due to stored column copies"@,
            d.tradeoffs@[2]@ == "Updates to included columns must update the index too"@,
            d.tradeoffs@[3]@ == "Diminishing returns when many columns are included — at some point the index is as big as the table"@,
            d.tradeoffs@[4]@ == "Only beneficial when queries consistently use the same column subset; ad-hoc queries may not benefit"@,
            d.examples@.len() == 4,
            d.examples@[0]@ == "PostgreSQL INCLUDE indexes — CREATE INDEX idx ON users (id) INCLUDE (name, email)"@,
            d.examples@[1]@ == "SQL Server covering indexes — included columns stored only in leaf nodes"@,
            d.examples@[2]@ == "MySQL composite indexes used as covering — leftmost prefix serves as key, remaining columns serve as included"@,
            d.examples@[3]@ == "Oracle index-only access paths — optimizer detects when all needed columns are in the index"@,
            d.suggested_questions@.len() == 3,
            d.suggested_questions@[0]@ == "How do I decide which columns to INCLUDE in a covering index?"@,
            d.suggested_questions@[1]@ == "What is the storage overhead of a covering index compared to a plain B-tree index?"@,
            d.suggested_questions@[2]@ == "When does a covering index stop being beneficial and become a liability?"@,
            d.parameter_guide@.len() == 3,
            d.parameter_guide@[0].0@ == "key_column"@,
            d.parameter_guide@[0].1@ == "The column to index on (the search key). This is the column used in WHERE \
                      clauses to find matching rows. The key determines the sort order of the \
                      index and enables both point lookups and range scans. Choose the column \
                      most frequently filtered on. Default is 'id'."@,
            d.parameter_guide@[1].0@ == "included_columns"@,
            d.parameter_guide@[1].1@ == "Comma-separated list of columns to include in the index alongside the key. \
                      These columns are stored in the index leaf nodes so that queries requesting \
                      only these columns can be served without touching the base table (index-only \
                      scan). Include columns that are frequently in the SELECT list of queries \
                      that filter by the key_column. Adding too many columns makes the index \
                      bloated. A good rule of thumb: include 1-3 columns that cover your most \
                      common query pattern. Example: 'name,email' for a user lookup index."@,
            d.parameter_guide@[2].0@ == "lookup_key"@,
            d.parameter_guide@[2].1@ == "The key value to search for during execution. When empty, the block only \
                      builds the index from incoming records without performing a lookup. When \
                      set, the block performs an index-only lookup after building. This simulates \
                      the two phases of index usage: build time (during INSERT) and query time \
                      (during SELECT). Default is empty (build only)."@,
            d.alternatives@.len() == 2,
            d.alternatives@[0].block_type@ == "btree-index"@,
            d.alternatives@[0].comparison@ == "A plain B-tree index stores only keys and TupleIds. Lookups \
                                     require a follow-up heap access to get actual column values. \
                                     Choose a plain B-tree when your queries always need columns \
                                     not in the index (e.g., SELECT *). Choose a covering index \
                                     when your queries consistently SELECT a small set of columns \
                                     that can be included in the index."@,
            d.alternatives@[1].block_type@ == "hash-index"@,
            d.alternatives@[1].comparison@ == "Hash indexes provide O(1) equality lookups but store no extra \
                                     columns and cannot do range scans. Choose hash for the fastest \
                                     equality-only lookups when you will always fetch the full row. \
                                     Choose covering index when you want to avoid the heap lookup \
                                     entirely and need sorted access."@,
    {
        let mut use_cases: Vec<String> = Vec::new();
        use_cases.push(String::from_str("Queries that SELECT only indexed + included columns"));
        use_cases.push(String::from_str("Avoiding expensive heap lookups on wide tables"));
        use_cases.push(String::from_str("CREATE INDEX ... INCLUDE (col1, col2) in PostgreSQL"));
        use_cases.push(String::from_str("High-frequency queries on hot paths where eliminating one I/O per query matters"));
        use_cases.push(String::from_str("Reporting queries that always read the same small set of columns"));
        let mut tradeoffs: Vec<String> = Vec::new();
        tradeoffs.push(String::from_str("Eliminates table lookups for covered queries"));
        tradeoffs.push(String::from_str("Larger index size due to stored column copies"));
        tradeoffs.push(String::from_str("Updates to included columns must update the index too"));
        tradeoffs.push(String::from_str("Diminishing returns when many columns are included — at some point the index is as big as the table"));
        tradeoffs.push(String::from_str("Only beneficial when queries consistently use the same column subset; ad-hoc queries may not benefit"));
        let mut examples: Vec<String> = Vec::new();
        examples.push(String::from_str("PostgreSQL INCLUDE indexes — CREATE INDEX idx ON users (id) INCLUDE (name, email)"));
        examples.push(String::from_str("SQL Server covering indexes — included columns stored only in leaf nodes"));
        examples.push(String::from_str("MySQL composite indexes used as covering — leftmost prefix serves as key, remaining columns serve as included"));
        examples.push(String::from_str("Oracle index-only access paths — optimizer detects when all needed columns are in the index"));
        let mut suggested_questions: Vec<String> = Vec::new();
        suggested_questions.push(String::from_str("How do I decide which columns to INCLUDE in a covering index?"));
        suggested_questions.push(String::from_str("What is the storage overhead of a covering index compared to a plain B-tree index?"));
        suggested_questions.push(String::from_str("When does a covering index stop being beneficial and become a liability?"));
        let mut parameter_guide: Vec<(String, String)> = Vec::new();
        parameter_guide.push((String::from_str("key_column"), String::from_str("The column to index on (the search key). This is the column used in WHERE \
                      clauses to find matching rows. The key determines the sort order of the \
                      index and enables both point lookups and range scans. Choose the column \
                      most frequently filtered on. Default is 'id'.")));
        parameter_guide.push((String::from_str("included_columns"), String::from_str("Comma-separated list of columns to include in the index alongside the key. \
                      These columns are stored in the index leaf nodes so that queries requesting \
                      only these columns can be served without touching the base table (index-only \
                      scan). Include columns that are frequently in the SELECT list of queries \
                      that filter by the key_column. Adding too many columns makes the index \
                      bloated. A good rule of thumb: include 1-3 columns that cover your most \
                      common query pattern. Example: 'name,email' for a user lookup index.")));
        parameter_guide.push((String::from_str("lookup_key"), String::from_str("The key value to search for during execution. When empty, the block only \
                      builds the index from incoming records without performing a lookup. When \
                      set, the block performs an index-only lookup after building. This simulates \
                      the two phases of index usage: build time (during INSERT) and query time \
                      (during SELECT). Default is empty (build only).")));
        let mut alternatives: Vec<Alternative> = Vec::new();
        alternatives.push(Alternative { block_type: String::from_str("btree-index"), comparison: String::from_str("A plain B-tree index stores only keys and TupleIds. Lookups \
                                     require a follow-up heap access to get actual column values. \
                                     Choose a plain B-tree when your queries always need columns \
                                     not in the index (e.g., SELECT *). Choose a covering index \
                                     when your queries consistently SELECT a small set of columns \
                                     that can be included in the index.") });
        alternatives.push(Alternative { block_type: String::from_str("hash-index"), comparison: String::from_str("Hash indexes provide O(1) equality lookups but store no extra \
                                     columns and cannot do range scans. Choose hash for the fastest \
                                     equality-only lookups when you will always fetch the full row. \
                                     Choose covering index when you want to avoid the heap lookup \
                                     entirely and need sorted access.") });
        BlockDocumentation {
            overview: String::from_str("A covering index is an index that stores additional column values \
                           alongside the index key, enabling the database to answer certain queries \
                           entirely from the index without ever touching the base table. This is \
                           called an 'index-only scan' and it eliminates the random I/O cost of \
                           fetching rows from the heap.\n\n\
                           In a typical B-tree index, a lookup returns a TupleId (page + slot), \
                           and the database must then read that page from the heap to get the \
                           actual row data. For a query like SELECT name, email FROM users WHERE \
                           id = 42, a plain index on 'id' finds the TupleId, then reads the heap \
                           page. A covering index on 'id' that INCLUDEs 'name' and 'email' can \
                           return both values directly from the index — one I/O instead of two.\n\n\
                           Think of a covering index like a phone book that also lists email \
                           addresses. If you only need someone's phone number and email, the phone \
                           book covers your query completely. You never need to visit the person's \
                           house (the heap) to get that information. But the phone book is thicker \
                           (more storage) because it carries extra data."),
            algorithm: String::from_str("BUILD INDEX:\n  \
                           1. For each incoming record:\n    \
                              a. Extract the key column value\n    \
                              b. Extract values for each included_column\n    \
                              c. Create a CoveringEntry with (key, covered_values map)\n    \
                              d. Insert into BTreeMap indexed by key string\n  \
                           2. Multiple records with the same key are stored in a Vec\n\n\
                           INDEX-ONLY LOOKUP:\n  \
                           1. Convert lookup_key to string and search in the BTreeMap\n  \
                           2. If found:\n    \
                              a. Increment index_only_scans counter\n    \
                              b. For each matching entry:\n      \
                                 - Build a Record with key + covered column values\n      \
                                 - Mark record with _index_only = true\n      \
                                 - Increment table_lookups_avoided\n    \
                              c. Return all matching records\n  \
                           3. If not found: return empty (the key does not exist)\n\n\
                           WHEN IS THE INDEX NOT COVERING?\n  \
                           If the query SELECTs a column that is NOT in included_columns,\n  \
                           the database must still fetch the full row from the heap table.\n  \
                           This is no different from a plain B-tree index lookup."),
            complexity: Complexity { time: String::from_str("Lookup O(log n), Range scan O(log n + k)"), space: String::from_str("O(n * (1 + included_columns)) — larger than a plain index") },
            use_cases,
            tradeoffs,
            examples,
            motivation: String::from_str("A standard B-tree index speeds up finding which rows match a predicate, \
                             but the database still has to visit the heap table to read the actual \
                             column values. For a query that matches 1000 rows, that means 1000 \
                             random I/O operations to the heap — each potentially a disk seek.\n\n\
                             The covering index solves this by storing copies of frequently-needed \
                             columns right in the index itself. The query can be answered entirely \
                             from the index with zero heap lookups. This trades extra storage space \
                             and write overhead for dramatically faster reads on specific query \
                             patterns. In practice, adding one or two INCLUDE columns to a hot \
                             index can reduce query latency by 50% or more."),
            parameter_guide,
            alternatives,
            suggested_questions,
        }
    }

    fn build_references() -> (r: Vec<Reference>)
        ensures
            r@.len() == 1,
            r@[0].ref_type == ReferenceType::Book,
            r@[0].title@ == "SQL Performance Explained by Markus Winand — Chapter 4"@,
            r@[0].url is None,
            r@[0].citation matches Some(t) && t@ == "Winand, M. (2012). SQL Performance Explained."@,
    {
        let mut r: Vec<Reference> = Vec::new();
        r.push(Reference { ref_type: ReferenceType::Book, title: String::from_str("SQL Performance Explained by Markus Winand — Chapter 4"), url: None, citation: Some(String::from_str("Winand, M. (2012). SQL Performance Explained.")) });
        r
    }

    fn build_metadata() -> (m: BlockMetadata)
        ensures
            m.documentation.overview@ == "A covering index is an index that stores additional column values \
                           alongside the index key, enabling the database to answer certain queries \
                           entirely from the index without ever touching the base table. This is \
                           called an 'index-only scan' and it eliminates the random I/O cost of \
                           fetching rows from the heap.\n\n\
                           In a typical B-tree index, a lookup returns a TupleId (page + slot), \
                           and the database must then read that page from the heap to get the \
                           actual row data. For a query like SELECT name, email FROM users WHERE \
                           id = 42, a plain index on 'id' finds the TupleId, then reads the heap \
                           page. A covering index on 'id' that INCLUDEs 'name' and 'email' can \
                           return both values directly from the index — one I/O instead of two.\n\n\
                           Think of a covering index like a phone book that also lists email \
                           addresses. If you only need someone's phone number and email, the phone \
                           book covers your query completely. You never need to visit the person's \
                           house (the heap) to get that information. But the phone book is thicker \
                           (more storage) because it carries extra data."@,
            m.references@.len() == 1,
            m.id@ == "covering-index"@,
            m.category == BlockCategory::Index,
            m.name@ == "Covering Index"@,
            m.description@ == "Index with included columns for index-only scans"@,
            m.version@ == "1.0.0"@,
            m.icon@ == "book-open"@,
            m.color@ == "#D97706"@,
    {
        BlockMetadata::new(
            "covering-index",
            "Covering Index",
            BlockCategory::Index,
            "Index with included columns for index-only scans",
            "book-open",
            "#D97706",
            Self::build_documentation(),
            Self::build_references(),
        )
    }

    fn build_inputs() -> (p: Vec<Port>)
        ensures
            p@.len() == 1,
            p@[0].id@ == "records"@,
    {
        let mut p: Vec<Port> = Vec::new();
        p.push(
            Port::new(
                "records",
                "Records",
                PortDirection::Input,
                true,
                false,
                "Records to index with included columns",
            ),
        );
        p
    }

    fn build_outputs() -> (p: Vec<Port>)
        ensures
            p@.len() == 1,
            p@[0].id@ == "index_results"@,
    {
        let mut p: Vec<Port> = Vec::new();
        p.push(
            Port::new(
                "index_results",
                "Index Results",
                PortDirection::Output,
                false,
                true,
                "Lookup results (index-only when possible)",
            ),
        );
        p
    }

    fn build_metrics() -> (v: Vec<MetricDefinition>)
        ensures
            v@.len() == 4,
            v@[0].id@ == "total_entries"@,
            v@[1].id@ == "lookups"@,
            v@[2].id@ == "index_only_scans"@,
            v@[3].id@ == "table_lookups_avoided"@,
    {
        let mut v: Vec<MetricDefinition> = Vec::new();
        v.push(
            MetricDefinition::new(
                "total_entries",
                "Total Entries",
                MetricType::Gauge,
                "entries",
                "Indexed entries",
                AggregationType::Max,
            ),
        );
        v.push(
            MetricDefinition::new(
                "lookups",
                "Lookups",
                MetricType::Counter,
                "ops",
                "Index lookups",
                AggregationType::Sum,
            ),
        );
        v.push(
            MetricDefinition::new(
                "index_only_scans",
                "Index-Only Scans",
                MetricType::Counter,
                "ops",
                "Scans satisfied from index alone",
                AggregationType::Sum,
            ),
        );
        v.push(
            MetricDefinition::new(
                "table_lookups_avoided",
                "Table Lookups Avoided",
                MetricType::Counter,
                "ops",
                "Heap accesses saved",
                AggregationType::Sum,
            ),
        );
        v
    }

    /// What the block says about itself.
    pub fn metadata(&self) -> (m: &BlockMetadata)
        ensures
            m == self.spec_metadata(),
    {
        &self.metadata
    }

    pub closed spec fn spec_metadata(&self) -> BlockMetadata {
        self.metadata
    }

    /// The block's input ports.
    pub fn inputs(&self) -> (p: &Vec<Port>)
        ensures
            p == self.spec_inputs(),
    {
        &self.input_ports
    }

    pub closed spec fn spec_inputs(&self) -> Vec<Port> {
        self.input_ports
    }

    /// The block's output ports.
    pub fn outputs(&self) -> (p: &Vec<Port>)
        ensures
            p == self.spec_outputs(),
    {
        &self.output_ports
    }

    pub closed spec fn spec_outputs(&self) -> Vec<Port> {
        self.output_ports
    }

    /// The metrics the block reports.
    pub fn metrics(&self) -> (m: &Vec<MetricDefinition>)
        ensures
            m == self.spec_metrics(),
    {
        &self.metric_defs
    }

    pub closed spec fn spec_metrics(&self) -> Vec<MetricDefinition> {
        self.metric_defs
    }
}
} // verus!
