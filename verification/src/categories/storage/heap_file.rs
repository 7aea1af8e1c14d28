//! Heap File Storage Block
//!
//! Records are stored unordered in fixed-size pages. An insert goes to the
//! first page with room for it, or to a new page when none has; a record
//! is found again by its TupleId (page and slot). Deletes only mark a slot
//! dead, so the space stays taken until compaction.
//!
//! A page's room is its usable bytes: the page size less a 24-byte header,
//! scaled by the fill factor. Every record is taken to be as large as the
//! first one inserted: its JSON text plus a 16-byte slot header.
use serde_json::Value as JsonValue;
use vstd::prelude::*;
use vstd::string::*;

use crate::categories::TupleId;
use crate::common::block::{Alternative, BlockCategory, BlockDocumentation, BlockError, BlockMetadata, Complexity, Reference, ReferenceType};
use crate::common::json::{json_text_bytes, json_text_len};
use crate::common::metrics::{AggregationType, MetricDefinition, MetricType};
use crate::common::port::{Port, PortDirection};

verus! {

/// A slot of a page: its record, and whether it was deleted.
struct Slot {
    record: JsonValue,
    is_dead: bool,
}

/// A page: its slots in order, and the bytes its records take.
struct Page {
    page_id: usize,
    slots: Vec<Slot>,
    used_bytes: usize,
}

/// `p` is the first page with room for `size` more bytes, or the page
/// count when none has.
pub open spec fn is_first_fit(used: Seq<usize>, size: usize, usable: usize, p: int) -> bool {
    &&& 0 <= p <= used.len()
    &&& p < used.len() ==> used[p] + size <= usable
    &&& forall|i: int| 0 <= i < p ==> #[trigger] used[i] + size > usable
}

/// The number of live slots over all pages.
pub open spec fn live_total(pages: Seq<Seq<(JsonValue, bool)>>) -> nat
    decreases pages.len(),
{
    if pages.len() == 0 {
        0
    } else {
        live_total(pages.drop_last()) + pages.last().filter(|s: (JsonValue, bool)| !s.1).len()
    }
}

/// The number of slots over all pages, live or dead.
pub open spec fn slot_total(pages: Seq<Seq<(JsonValue, bool)>>) -> nat
    decreases pages.len(),
{
    if pages.len() == 0 {
        0
    } else {
        slot_total(pages.drop_last()) + pages.last().len()
    }
}

/// `a` comes before `b` in page, then slot, order.
pub open spec fn tid_before(a: TupleId, b: TupleId) -> bool {
    a.page_id < b.page_id || (a.page_id == b.page_id && a.slot_id < b.slot_id)
}

proof fn lemma_slot_total_prefix(t: Seq<Seq<(JsonValue, bool)>>, k: int)
    requires
        0 <= k <= t.len(),
    ensures
        slot_total(t.subrange(0, k)) <= slot_total(t),
    decreases t.len() - k,
{
    if k < t.len() {
        lemma_slot_total_prefix(t, k + 1);
        assert(t.subrange(0, k + 1).drop_last() =~= t.subrange(0, k));
    } else {
        assert(t.subrange(0, k) =~= t);
    }
}

/// Record storage in slotted pages.
pub struct HeapFileBlock {
    metadata: BlockMetadata,
    input_ports: Vec<Port>,
    output_ports: Vec<Port>,
    metric_defs: Vec<MetricDefinition>,
    page_size: usize,
    usable_page_bytes: usize,
    pages: Vec<Page>,
    estimated_record_size: Option<usize>,
}

impl HeapFileBlock {
    /// Each page's slots: the record and whether it is dead.
    pub closed spec fn slots(&self) -> Seq<Seq<(JsonValue, bool)>> {
        self.pages@.map_values(|p: Page| p.slots@.map_values(|s: Slot| (s.record, s.is_dead)))
    }

    /// The bytes each page's records take.
    pub closed spec fn used(&self) -> Seq<usize> {
        self.pages@.map_values(|p: Page| p.used_bytes)
    }

    pub closed spec fn spec_page_size(&self) -> usize {
        self.page_size
    }

    pub closed spec fn spec_usable_page_bytes(&self) -> usize {
        self.usable_page_bytes
    }

    /// The size every record is taken to have, once the first is in.
    pub closed spec fn spec_estimated_record_size(&self) -> Option<usize> {
        self.estimated_record_size
    }

    /// The live record at `tid`, if there is one.
    pub open spec fn record_at(&self, tid: TupleId) -> Option<JsonValue> {
        if tid.page_id < self.slots().len() && tid.slot_id < self.slots()[tid.page_id as int].len()
            && !self.slots()[tid.page_id as int][tid.slot_id as int].1 {
            Some(self.slots()[tid.page_id as int][tid.slot_id as int].0)
        } else {
            None
        }
    }

    /// Each page knows its own position.
    pub closed spec fn wf(&self) -> bool {
        forall|i: int| 0 <= i < self.pages@.len() ==> (#[trigger] self.pages@[i]).page_id == i
    }

    pub fn new() -> (h: Self)
        ensures
            h.wf(),
            h.slots() == Seq::<Seq<(JsonValue, bool)>>::empty(),
            h.spec_page_size() == 8192,
            h.spec_usable_page_bytes() == 7351,
            h.spec_estimated_record_size() == None::<usize>,
            h.spec_metadata().id@ == "heap-file-storage"@,
            h.spec_metadata().category == BlockCategory::Storage,
    {
        let h = Self {
            metadata: Self::build_metadata(),
            input_ports: Self::build_inputs(),
            output_ports: Self::build_outputs(),
            metric_defs: Self::build_metrics(),
            page_size: 8192,
            usable_page_bytes: 7351,
            pages: Vec::new(),
            estimated_record_size: None,
        };
        proof {
            assert(h.slots() =~= Seq::<Seq<(JsonValue, bool)>>::empty());
        }
        h
    }

    #[verifier::when_used_as_spec(spec_page_size)]
    pub fn page_size(&self) -> (r: usize)
        ensures
            r == self.spec_page_size(),
    {
        self.page_size
    }

    /// The bytes of a page records may take.
    #[verifier::when_used_as_spec(spec_usable_page_bytes)]
    pub fn usable_page_bytes(&self) -> (r: usize)
        ensures
            r == self.spec_usable_page_bytes(),
    {
        self.usable_page_bytes
    }

    #[verifier::when_used_as_spec(spec_estimated_record_size)]
    pub fn estimated_record_size(&self) -> (r: Option<usize>)
        ensures
            r == self.spec_estimated_record_size(),
    {
        self.estimated_record_size
    }

    /// Sets the page size; one outside 512 ..= 65536 is refused, though it
    /// is recorded all the same.
    pub fn set_page_size(&mut self, page_size: usize) -> (r: Result<(), BlockError>)
        requires
            old(self).wf(),
        ensures
            final(self).wf(),
            r is Ok <==> 512 <= page_size <= 65536,
            final(self).spec_page_size() == page_size,
            final(self).slots() == old(self).slots(),
            final(self).used() == old(self).used(),
            final(self).spec_usable_page_bytes() == old(self).spec_usable_page_bytes(),
            final(self).spec_estimated_record_size() == old(self).spec_estimated_record_size(),
    {
        self.page_size = page_size;
        if page_size < 512 || page_size > 65536 {
            return Err(BlockError::InvalidParameter(String::from_str("page_size must be between 512 and 65536")));
        }
        Ok(())
    }

    /// Sets the bytes of a page records may take (the page size less its
    /// header, scaled by the fill factor).
    pub fn set_usable_page_bytes(&mut self, usable: usize)
        requires
            old(self).wf(),
        ensures
            final(self).wf(),
            final(self).spec_usable_page_bytes() == usable,
            final(self).spec_page_size() == old(self).spec_page_size(),
            final(self).slots() == old(self).slots(),
            final(self).used() == old(self).used(),
            final(self).spec_estimated_record_size() == old(self).spec_estimated_record_size(),
    {
        self.usable_page_bytes = usable;
    }

    /// The first page with room for `record_size` more bytes; a new,
    /// empty page when none has.
    fn find_page_for_insert(&mut self, record_size: usize) -> (p: usize)
        requires
            old(self).wf(),
        ensures
            final(self).wf(),
            is_first_fit(old(self).used(), record_size, old(self).spec_usable_page_bytes(), p as int),
            p < old(self).slots().len() ==> final(self).slots() == old(self).slots() && final(self).used()
                == old(self).used(),
            p == old(self).slots().len() ==> final(self).slots() == old(self).slots().push(Seq::empty())
                && final(self).used() == old(self).used().push(0),
            p < final(self).slots().len(),
            final(self).spec_page_size() == old(self).spec_page_size(),
            final(self).spec_usable_page_bytes() == old(self).spec_usable_page_bytes(),
            final(self).spec_estimated_record_size() == old(self).spec_estimated_record_size(),
    {
        let usable = self.usable_page_bytes;
        let mut i: usize = 0;
        while i < self.pages.len()
            invariant
                *self == *old(self),
                self.wf(),
                usable == self.usable_page_bytes,
                0 <= i <= self.pages@.len(),
                self.used().len() == self.pages@.len(),
                forall|j: int| 0 <= j < i ==> #[trigger] self.used()[j] + record_size > usable,
            decreases self.pages@.len() - i,
        {
            if self.pages[i].used_bytes <= usable && record_size <= usable - self.pages[i].used_bytes {
                return i;
            }
            i = i + 1;
        }
        let new_id = self.pages.len();
        self.pages.push(Page { page_id: new_id, slots: Vec::new(), used_bytes: 0 });
        proof {
            assert(self.slots()[self.slots().len() - 1] =~= Seq::<(JsonValue, bool)>::empty());
            assert(self.slots() =~= old(self).slots().push(Seq::empty()));
            assert(self.used() =~= old(self).used().push(0));
            assert forall|j: int| 0 <= j < self.pages@.len() implies (#[trigger] self.pages@[j]).page_id == j by {
                if j < old(self).pages@.len() {
                    assert(self.pages@[j] == old(self).pages@[j]);
                }
            }
        }
        new_id
    }

    /// Inserts a record taken to be `record_size` bytes, unless an earlier
    /// record fixed the size already. It goes to the first page with room,
    /// in a new slot at the page's end.
    pub fn insert_sized(&mut self, record: JsonValue, record_size: usize) -> (tid: TupleId)
        requires
            old(self).wf(),
        ensures
            final(self).wf(),
            ({
                let rs = match old(self).spec_estimated_record_size() {
                    Some(e) => e,
                    None => record_size,
                };
                let p = tid.page_id as int;
                &&& final(self).spec_estimated_record_size() == Some(rs)
                &&& is_first_fit(old(self).used(), rs, old(self).spec_usable_page_bytes(), p)
                &&& p < old(self).slots().len() ==> {
                    &&& tid.slot_id == old(self).slots()[p].len()
                    &&& final(self).slots() == old(self).slots().update(p, old(self).slots()[p].push((record, false)))
                    &&& final(self).used() == old(self).used().update(p, (old(self).used()[p] + rs) as usize)
                }
                &&& p == old(self).slots().len() ==> {
                    &&& tid.slot_id == 0
                    &&& final(self).slots() == old(self).slots().push(seq![(record, false)])
                    &&& final(self).used() == old(self).used().push(rs)
                }
            }),
            final(self).record_at(tid) == Some(record),
            forall|t: TupleId| t != tid ==> #[trigger] final(self).record_at(t) == old(self).record_at(t),
            final(self).spec_page_size() == old(self).spec_page_size(),
            final(self).spec_usable_page_bytes() == old(self).spec_usable_page_bytes(),
    {
        let rs = match self.estimated_record_size {
            Some(e) => e,
            None => record_size,
        };
        self.estimated_record_size = Some(rs);
        let ghost s0 = self.slots();
        let ghost u0 = self.used();
        let p = self.find_page_for_insert(rs);
        let ghost s1 = self.slots();
        let ghost u1 = self.used();
        let ghost pg1 = self.pages@;
        proof {
            assert(self.pages@[p as int].slots@.map_values(|s: Slot| (s.record, s.is_dead)) == s1[p as int]);
            assert(self.pages@[p as int].used_bytes == u1[p as int]);
        }
        let slot_id = self.pages[p].slots.len();
        self.pages[p].slots.push(Slot { record, is_dead: false });
        self.pages[p].used_bytes = self.pages[p].used_bytes + rs;
        proof {
            assert(self.slots()[p as int] =~= s1[p as int].push((record, false)));
            assert(self.slots() =~= s1.update(p as int, s1[p as int].push((record, false))));
            assert(self.used() =~= u1.update(p as int, (u1[p as int] + rs) as usize));
            assert forall|j: int| 0 <= j < self.pages@.len() implies (#[trigger] self.pages@[j]).page_id == j by {
                if j != p {
                    assert(self.pages@[j] == pg1[j]);
                }
            }
            if p as int == s0.len() {
                assert(s1[p as int].push((record, false)) =~= seq![(record, false)]);
                assert(s1.update(p as int, seq![(record, false)]) =~= s0.push(seq![(record, false)]));
                assert(u1.update(p as int, rs) =~= u0.push(rs));
            }
        }
        TupleId::new(p, slot_id)
    }

    /// Inserts a record. The first record inserted fixes the size all
    /// records are taken to have: its JSON text's length in bytes plus 16.
    pub fn insert(&mut self, record: JsonValue) -> (tid: TupleId)
        requires
            old(self).wf(),
        ensures
            final(self).wf(),
            old(self).spec_estimated_record_size() is Some ==> final(self).spec_estimated_record_size() == old(self).spec_estimated_record_size(),
            old(self).spec_estimated_record_size() is None ==> final(self).spec_estimated_record_size() == Some(
                (json_text_bytes(record).len() + 16) as usize,
            ),
            final(self).spec_estimated_record_size() matches Some(rs) && {
                let p = tid.page_id as int;
                &&& is_first_fit(old(self).used(), rs, old(self).spec_usable_page_bytes(), p)
                &&& p < old(self).slots().len() ==> {
                    &&& tid.slot_id == old(self).slots()[p].len()
                    &&& final(self).slots() == old(self).slots().update(p, old(self).slots()[p].push((record, false)))
                    &&& final(self).used() == old(self).used().update(p, (old(self).used()[p] + rs) as usize)
                }
                &&& p == old(self).slots().len() ==> {
                    &&& tid.slot_id == 0
                    &&& final(self).slots() == old(self).slots().push(seq![(record, false)])
                    &&& final(self).used() == old(self).used().push(rs)
                }
            },
            final(self).record_at(tid) == Some(record),
            forall|t: TupleId| t != tid ==> #[trigger] final(self).record_at(t) == old(self).record_at(t),
            final(self).spec_page_size() == old(self).spec_page_size(),
            final(self).spec_usable_page_bytes() == old(self).spec_usable_page_bytes(),
    {
        let size: usize = match self.estimated_record_size {
            Some(e) => e,
            None => match json_text_len(&record) {
                Some(n) => n + 16,
                None => 64 + 16,
            },
        };
        self.insert_sized(record, size)
    }

    /// The live record at `tid`, if there is one.
    pub fn get(&self, tid: TupleId) -> (r: Option<&JsonValue>)
        ensures
            match r {
                Some(v) => self.record_at(tid) == Some(*v),
                None => self.record_at(tid) is None,
            },
    {
        if tid.page_id >= self.pages.len() {
            return None;
        }
        let page = &self.pages[tid.page_id];
        proof {
            assert(page.slots@.map_values(|s: Slot| (s.record, s.is_dead)) == self.slots()[tid.page_id as int]);
        }
        if tid.slot_id >= page.slots.len() {
            return None;
        }
        let slot = &page.slots[tid.slot_id];
        if slot.is_dead {
            None
        } else {
            Some(&slot.record)
        }
    }

    /// Marks the record at `tid` dead. False where there is no live record
    /// there.
    pub fn delete(&mut self, tid: TupleId) -> (r: bool)
        requires
            old(self).wf(),
        ensures
            final(self).wf(),
            r == old(self).record_at(tid) is Some,
            final(self).record_at(tid) is None,
            forall|t: TupleId| t != tid ==> #[trigger] final(self).record_at(t) == old(self).record_at(t),
            r ==> final(self).slots() == old(self).slots().update(
                tid.page_id as int,
                old(self).slots()[tid.page_id as int].update(
                    tid.slot_id as int,
                    (old(self).slots()[tid.page_id as int][tid.slot_id as int].0, true),
                ),
            ),
            !r ==> final(self).slots() == old(self).slots(),
            final(self).used() == old(self).used(),
            final(self).spec_page_size() == old(self).spec_page_size(),
            final(self).spec_usable_page_bytes() == old(self).spec_usable_page_bytes(),
            final(self).spec_estimated_record_size() == old(self).spec_estimated_record_size(),
    {
        if tid.page_id >= self.pages.len() {
            return false;
        }
        proof {
            assert(self.pages@[tid.page_id as int].slots@.map_values(|s: Slot| (s.record, s.is_dead)) == self.slots()[tid.page_id as int]);
        }
        if tid.slot_id >= self.pages[tid.page_id].slots.len() {
            return false;
        }
        if self.pages[tid.page_id].slots[tid.slot_id].is_dead {
            return false;
        }
        let ghost s0 = self.slots();
        let ghost u0 = self.used();
        self.pages[tid.page_id].slots[tid.slot_id].is_dead = true;
        proof {
            let p = tid.page_id as int;
            let q = tid.slot_id as int;
            assert(self.slots()[p] =~= s0[p].update(q, (s0[p][q].0, true)));
            assert(self.slots() =~= s0.update(p, s0[p].update(q, (s0[p][q].0, true))));
            assert(self.used() =~= u0);
            assert forall|j: int| 0 <= j < self.pages@.len() implies (#[trigger] self.pages@[j]).page_id == j by {
                if j != p {
                    assert(self.pages@[j] == old(self).pages@[j]);
                }
            }
        }
        true
    }

    /// Every live record's TupleId, page by page, slot by slot.
    pub fn scan(&self) -> (r: Vec<TupleId>)
        ensures
            forall|t: TupleId| r@.contains(t) <==> self.record_at(t) is Some,
            forall|i: int, j: int| 0 <= i < j < r@.len() ==> tid_before(#[trigger] r@[i], #[trigger] r@[j]),
    {
        let mut r: Vec<TupleId> = Vec::new();
        let mut p: usize = 0;
        while p < self.pages.len()
            invariant
                0 <= p <= self.pages@.len(),
                self.slots().len() == self.pages@.len(),
                forall|t: TupleId| r@.contains(t) <==> (t.page_id < p && self.record_at(t) is Some),
                forall|i: int| 0 <= i < r@.len() ==> (#[trigger] r@[i]).page_id < p,
                forall|i: int, j: int| 0 <= i < j < r@.len() ==> tid_before(#[trigger] r@[i], #[trigger] r@[j]),
            decreases self.pages@.len() - p,
        {
            let page = &self.pages[p];
            proof {
                assert(page.slots@.map_values(|s: Slot| (s.record, s.is_dead)) == self.slots()[p as int]);
            }
            let ghost r0 = r@;
            let mut q: usize = 0;
            while q < page.slots.len()
                invariant
                    0 <= q <= page.slots@.len(),
                    page.slots@.map_values(|s: Slot| (s.record, s.is_dead)) == self.slots()[p as int],
                    p < self.slots().len(),
                    forall|t: TupleId| #[trigger] r@.contains(t) <==> (r0.contains(t) || (t.page_id == p && t.slot_id < q
                        && self.record_at(t) is Some)),
                    forall|i: int| 0 <= i < r0.len() ==> (#[trigger] r0[i]).page_id < p,
                    r@.len() >= r0.len(),
                    forall|i: int| 0 <= i < r0.len() ==> r@[i] == r0[i],
                    forall|i: int| r0.len() <= i < r@.len() ==> (#[trigger] r@[i]).page_id == p && r@[i].slot_id < q,
                    forall|i: int, j: int| 0 <= i < j < r@.len() ==> tid_before(#[trigger] r@[i], #[trigger] r@[j]),
                decreases page.slots@.len() - q,
            {
                proof {
                    assert(self.slots()[p as int][q as int] == (page.slots@[q as int].record, page.slots@[q as int].is_dead));
                }
                if !page.slots[q].is_dead {
                    let t = TupleId::new(p, q);
                    let ghost r1 = r@;
                    r.push(t);
                    proof {
                        assert(r@[r1.len() as int] == t);
                        assert(self.record_at(t) is Some);
                        assert forall|x: TupleId| r@.contains(x) <==> (r0.contains(x) || (x.page_id == p && x.slot_id < q + 1
                            && self.record_at(x) is Some)) by {
                            if x.page_id == p && x.slot_id == q {
                                assert(x == t);
                                assert(r@.contains(t));
                            }
                            if r@.contains(x) {
                                let k = choose|k: int| 0 <= k < r@.len() && r@[k] == x;
                                if k < r1.len() {
                                    assert(r1[k] == x);
                                }
                            }
                            if r1.contains(x) {
                                let k = choose|k: int| 0 <= k < r1.len() && r1[k] == x;
                                assert(r@[k] == x);
                            }
                        }
                        assert forall|i: int, j: int| 0 <= i < j < r@.len() implies tid_before(#[trigger] r@[i], #[trigger] r@[j]) by {
                            if j == r1.len() {
                                if i < r0.len() {
                                    assert(r0[i].page_id < p);
                                } else {
                                    assert(r1[i].page_id == p && r1[i].slot_id < q);
                                }
                            } else {
                                assert(r@[i] == r1[i] && r@[j] == r1[j]);
                            }
                        }
                    }
                }
                proof {
                    assert forall|x: TupleId| #[trigger] r@.contains(x) <==> (r0.contains(x) || (x.page_id == p && x.slot_id < q + 1
                        && self.record_at(x) is Some)) by {
                        if x.page_id == p && x.slot_id == q && self.record_at(x) is Some {
                            assert(!page.slots@[q as int].is_dead);
                            assert(r@[r@.len() - 1] == x);
                        }
                        if x.page_id == p && x.slot_id == q && r@.contains(x) && !r0.contains(x) {
                            assert(!page.slots@[q as int].is_dead);
                        }
                    }
                }
                q = q + 1;
            }
            proof {
                assert forall|t: TupleId| r@.contains(t) <==> (t.page_id < p + 1 && self.record_at(t) is Some) by {
                    if r0.contains(t) {
                        let k = choose|k: int| 0 <= k < r0.len() && r0[k] == t;
                        assert(r0[k].page_id < p);
                    }
                }
                assert forall|i: int| 0 <= i < r@.len() implies (#[trigger] r@[i]).page_id < p + 1 by {
                    if i < r0.len() {
                        assert(r@[i] == r0[i]);
                        assert(r0[i].page_id < p);
                    }
                }
            }
            p = p + 1;
        }
        r
    }

    /// The number of pages.
    pub fn page_count(&self) -> (n: usize)
        ensures
            n == self.slots().len(),
    {
        self.pages.len()
    }

    /// The number of live records over all pages.
    pub fn live_record_count(&self) -> (n: usize)
        requires
            slot_total(self.slots()) <= usize::MAX,
        ensures
            n == live_total(self.slots()),
    {
        let mut n: usize = 0;
        let mut p: usize = 0;
        while p < self.pages.len()
            invariant
                0 <= p <= self.pages@.len(),
                self.slots().len() == self.pages@.len(),
                slot_total(self.slots()) <= usize::MAX,
                n == live_total(self.slots().subrange(0, p as int)),
                n <= slot_total(self.slots().subrange(0, p as int)),
            decreases self.pages@.len() - p,
        {
            let page = &self.pages[p];
            let ghost sl = self.slots()[p as int];
            proof {
                assert(page.slots@.map_values(|s: Slot| (s.record, s.is_dead)) == sl);
            }
            let mut c: usize = 0;
            let mut q: usize = 0;
            while q < page.slots.len()
                invariant
                    0 <= q <= page.slots@.len(),
                    page.slots@.map_values(|s: Slot| (s.record, s.is_dead)) == sl,
                    c == sl.subrange(0, q as int).filter(|s: (JsonValue, bool)| !s.1).len(),
                    c <= q,
                decreases page.slots@.len() - q,
            {
                proof {
                    assert(sl.subrange(0, q as int + 1) =~= sl.subrange(0, q as int).push(sl[q as int]));
                    sl.subrange(0, q as int).lemma_filter_push(sl[q as int], |s: (JsonValue, bool)| !s.1);
                }
                if !page.slots[q].is_dead {
                    c = c + 1;
                }
                q = q + 1;
            }
            proof {
                let t = self.slots();
                assert(sl.subrange(0, q as int) =~= sl);
                assert(t.subrange(0, p as int + 1).drop_last() =~= t.subrange(0, p as int));
                lemma_slot_total_prefix(t, p as int + 1);
            }
            n = n + c;
            p = p + 1;
        }
        proof {
            assert(self.slots().subrange(0, p as int) =~= self.slots());
        }
        n
    }

    /// The number of slots over all pages, live or dead.
    pub fn slot_count(&self) -> (n: usize)
        requires
            slot_total(self.slots()) <= usize::MAX,
        ensures
            n == slot_total(self.slots()),
    {
        let mut n: usize = 0;
        let mut p: usize = 0;
        while p < self.pages.len()
            invariant
                0 <= p <= self.pages@.len(),
                self.slots().len() == self.pages@.len(),
                slot_total(self.slots()) <= usize::MAX,
                n == slot_total(self.slots().subrange(0, p as int)),
            decreases self.pages@.len() - p,
        {
            proof {
                let t = self.slots();
                assert(self.pages@[p as int].slots@.map_values(|s: Slot| (s.record, s.is_dead)) == t[p as int]);
                assert(t.subrange(0, p as int + 1).drop_last() =~= t.subrange(0, p as int));
                lemma_slot_total_prefix(t, p as int + 1);
            }
            n = n + self.pages[p].slots.len();
            p = p + 1;
        }
        proof {
            assert(self.slots().subrange(0, p as int) =~= self.slots());
        }
        n
    }

}

impl HeapFileBlock {
    fn build_documentation() -> (d: BlockDocumentation)
        ensures
            d.overview@ == "A heap file is the simplest table storage structure. Records are \
                           appended to pages in insertion order with no particular sorting."@,
            d.algorithm@ == "Insert: find a page with space via free-space map, append slot. \
                            Scan: iterate all pages, skip dead slots. Delete: mark slot dead."@,
            d.motivation@ == Seq::<char>::empty(),
            d.complexity.time@ == "Insert O(1) amortized, Scan O(n), Point lookup O(n) without index"@,
            d.complexity.space@ == "O(n) — one slot per record"@,
            d.use_cases@.len() == 3,
            d.use_cases@[0]@ == "Default table storage when no specific ordering is needed"@,
            d.use_cases@[1]@ == "Write-heavy workloads where insert speed matters most"@,
            d.use_cases@[2]@ == "Staging area before records are indexed"@,
            d.tradeoffs@.len() == 3,
            d.tradeoffs@[0]@ == "Fast inserts but slow point lookups without an index"@,
            d.tradeoffs@[1]@ == "Deletes cause fragmentation over time"@,
            d.tradeoffs@[2]@ == "Sequential scans read dead tuples until vacuumed"@,
            d.examples@.len() == 2,
            d.examples@[0]@ == "PostgreSQL heap tables"@,
            d.examples@[1]@ == "MySQL InnoDB clustered index leaf pages (conceptually similar)"@,
            d.suggested_questions@.len() == 0,
            d.parameter_guide@.len() == 0,
            d.alternatives@.len() == 0,
    {
        let mut use_cases: Vec<String> = Vec::new();
        use_cases.push(String::from_str("Default table storage when no specific ordering is needed"));
        use_cases.push(String::from_str("Write-heavy workloads where insert speed matters most"));
        use_cases.push(String::from_str("Staging area before records are indexed"));
        let mut tradeoffs: Vec<String> = Vec::new();
        tradeoffs.push(String::from_str("Fast inserts but slow point lookups without an index"));
        tradeoffs.push(String::from_str("Deletes cause fragmentation over time"));
        tradeoffs.push(String::from_str("Sequential scans read dead tuples until vacuumed"));
        let mut examples: Vec<String> = Vec::new();
        examples.push(String::from_str("PostgreSQL heap tables"));
        examples.push(String::from_str("MySQL InnoDB clustered index leaf pages (conceptually similar)"));
        let mut suggested_questions: Vec<String> = Vec::new();
        let mut parameter_guide: Vec<(String, String)> = Vec::new();
        let mut alternatives: Vec<Alternative> = Vec::new();
        BlockDocumentation {
            overview: String::from_str("A heap file is the simplest table storage structure. Records are \
                           appended to pages in insertion order with no particular sorting."),
            algorithm: String::from_str("Insert: find a page with space via free-space map, append slot. \
                            Scan: iterate all pages, skip dead slots. Delete: mark slot dead."),
            complexity: Complexity { time: String::from_str("Insert O(1) amortized, Scan O(n), Point lookup O(n) without index"), space: String::from_str("O(n) — one slot per record") },
            use_cases,
            tradeoffs,
            examples,
            motivation: String::new(),
            parameter_guide,
            alternatives,
            suggested_questions,
        }
    }

    fn build_references() -> (r: Vec<Reference>)
        ensures
            r@.len() == 1,
            r@[0].ref_type == ReferenceType::Book,
            r@[0].title@ == "Database Internals by Alex Petrov — Chapter 3: File Formats"@,
            r@[0].url is None,
            r@[0].citation matches Some(t) && t@ == "Petrov, A. (2019). Database Internals. O'Reilly."@,
    {
        let mut r: Vec<Reference> = Vec::new();
        r.push(Reference { ref_type: ReferenceType::Book, title: String::from_str("Database Internals by Alex Petrov — Chapter 3: File Formats"), url: None, citation: Some(String::from_str("Petrov, A. (2019). Database Internals. O'Reilly.")) });
        r
    }

    fn build_metadata() -> (m: BlockMetadata)
        ensures
            m.documentation.overview@ == "A heap file is the simplest table storage structure. Records are \
                           appended to pages in insertion order with no particular sorting."@,
            m.references@.len() == 1,
            m.id@ == "heap-file-storage"@,
            m.category == BlockCategory::Storage,
            m.name@ == "Heap File Storage"@,
            m.description@ == "Stores records in unordered, fixed-size pages with a free-space map"@,
            m.version@ == "1.0.0"@,
            m.icon@ == "database"@,
            m.color@ == "#3B82F6"@,
    {
        BlockMetadata::new(
            "heap-file-storage",
            "Heap File Storage",
            BlockCategory::Storage,
            "Stores records in unordered, fixed-size pages with a free-space map",
            "database",
            "#3B82F6",
            Self::build_documentation(),
            Self::build_references(),
        )
    }

    fn build_inputs() -> (p: Vec<Port>)
        ensures
            p@.len() == 1,
            p@[0].id@ == "records"@,
    {
        let mut p: Vec<Port> = Vec::new();
        p.push(
            Port::new(
                "records",
                "Records",
                PortDirection::Input,
                true,
                false,
                "Stream of records to store",
            ),
        );
        p
    }

    fn build_outputs() -> (p: Vec<Port>)
        ensures
            p@.len() == 1,
            p@[0].id@ == "stored"@,
    {
        let mut p: Vec<Port> = Vec::new();
        p.push(
            Port::new(
                "stored",
                "Stored Records",
                PortDirection::Output,
                false,
                true,
                "Records after storage, enriched with _tuple_id",
            ),
        );
        p
    }

    fn build_metrics() -> (v: Vec<MetricDefinition>)
        ensures
            v@.len() == 8,
            v@[0].id@ == "pages_read"@,
            v@[1].id@ == "pages_written"@,
            v@[2].id@ == "records_inserted"@,
            v@[3].id@ == "records_deleted"@,
            v@[4].id@ == "sequential_scans"@,
            v@[5].id@ == "total_pages"@,
            v@[6].id@ == "total_live_records"@,
            v@[7].id@ == "fragmentation_pct"@,
    {
        let mut v: Vec<MetricDefinition> = Vec::new();
        v.push(
            MetricDefinition::new(
                "pages_read",
                "Pages Read",
                MetricType::Counter,
                "pages",
                "Number of page reads",
                AggregationType::Sum,
            ),
        );
        v.push(
            MetricDefinition::new(
                "pages_written",
                "Pages Written",
                MetricType::Counter,
                "pages",
                "Number of page writes",
                AggregationType::Sum,
            ),
        );
        v.push(
            MetricDefinition::new(
                "records_inserted",
                "Records Inserted",
                MetricType::Counter,
                "records",
                "Total records inserted",
                AggregationType::Sum,
            ),
        );
        v.push(
            MetricDefinition::new(
                "records_deleted",
                "Records Deleted",
                MetricType::Counter,
                "records",
                "Total records soft-deleted",
                AggregationType::Sum,
            ),
        );
        v.push(
            MetricDefinition::new(
                "sequential_scans",
                "Sequential Scans",
                MetricType::Counter,
                "scans",
                "Number of full sequential scans",
                AggregationType::Sum,
            ),
        );
        v.push(
            MetricDefinition::new(
                "total_pages",
                "Total Pages",
                MetricType::Gauge,
                "pages",
                "Current number of pages",
                AggregationType::Max,
            ),
        );
        v.push(
            MetricDefinition::new(
                "total_live_records",
                "Live Records",
                MetricType::Gauge,
                "records",
                "Number of live (non-deleted) records",
                AggregationType::Max,
            ),
        );
        v.push(
            MetricDefinition::new(
                "fragmentation_pct",
                "Fragmentation",
                MetricType::Gauge,
                "%",
                "Percentage of dead slots",
                AggregationType::Max,
            ),
        );
        v
    }

    /// What the block says about itself.
    pub fn metadata(&self) -> (m: &BlockMetadata)
        ensures
            m == self.spec_metadata(),
    {
        &self.metadata
    }

    pub closed spec fn spec_metadata(&self) -> BlockMetadata {
        self.metadata
    }

    /// The block's input ports.
    pub fn inputs(&self) -> (p: &Vec<Port>)
        ensures
            p == self.spec_inputs(),
    {
        &self.input_ports
    }

    pub closed spec fn spec_inputs(&self) -> Vec<Port> {
        self.input_ports
    }

    /// The block's output ports.
    pub fn outputs(&self) -> (p: &Vec<Port>)
        ensures
            p == self.spec_outputs(),
    {
        &self.output_ports
    }

    pub closed spec fn spec_outputs(&self) -> Vec<Port> {
        self.output_ports
    }

    /// The metrics the block reports.
    pub fn metrics(&self) -> (m: &Vec<MetricDefinition>)
        ensures
            m == self.spec_metrics(),
    {
        &self.metric_defs
    }

    pub closed spec fn spec_metrics(&self) -> Vec<MetricDefinition> {
        self.metric_defs
    }
}

} // verus!
