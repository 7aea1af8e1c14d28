//! Clock Buffer Pool Block
//!
//! A fixed-size page cache using the **CLOCK** (second-chance) eviction
//! algorithm. The clock hand sweeps through the slots: if a page's reference
//! bit is set, the sweep clears it and moves on; if it is unset, that page is
//! evicted.
use std::collections::HashMap;
use vstd::prelude::*;
use vstd::string::*;
use vstd::arithmetic::div_mod::{lemma_fundamental_div_mod, lemma_fundamental_div_mod_converse};
use vstd::set_lib::{lemma_int_range, lemma_len_subset, lemma_map_size, set_int_range};

use crate::common::block::{Alternative, BlockCategory, BlockDocumentation, BlockError, BlockMetadata, Complexity, Reference, ReferenceType};
use crate::common::metrics::{AggregationType, MetricDefinition, MetricType};
use crate::common::port::{Port, PortDirection};

verus! {

broadcast use vstd::std_specs::hash::group_hash_axioms;

/// One slot of the clock: the cached page and its reference bit.
#[derive(Clone, Copy)]
pub struct ClockEntry {
    pub page_id: usize,
    pub reference_bit: bool,
}

// ---------------------------------------------------------------------------
// The CLOCK sweep, stated over the slots
// ---------------------------------------------------------------------------

/// A slot with its reference bit cleared (an empty slot stays empty).
pub open spec fn cleared(e: Option<ClockEntry>) -> Option<ClockEntry> {
    match e {
        Some(x) => Some(ClockEntry { page_id: x.page_id, reference_bit: false }),
        None => None,
    }
}

/// A slot that holds a page whose reference bit is unset.
pub open spec fn unreferenced(e: Option<ClockEntry>) -> bool {
    e matches Some(x) && !x.reference_bit
}

/// How many steps the hand, starting at `hand`, needs to reach slot `i`.
pub open spec fn offset_from(i: int, hand: int, n: int) -> int {
    if i >= hand {
        i - hand
    } else {
        i + n - hand
    }
}

/// The least `k >= from` (below the number of slots) such that the slot `k`
/// steps after the hand holds an unreferenced page; the number of slots if
/// there is none.
pub open spec fn first_unreferenced_from(s: Seq<Option<ClockEntry>>, hand: int, from: int) -> int
    decreases s.len() - from,
{
    if from >= s.len() {
        s.len() as int
    } else if unreferenced(s[(hand + from) % (s.len() as int)]) {
        from
    } else {
        first_unreferenced_from(s, hand, from + 1)
    }
}

/// Steps from the hand to the first unreferenced page, or the number of
/// slots when every page is referenced.
pub open spec fn first_unreferenced(s: Seq<Option<ClockEntry>>, hand: int) -> int {
    first_unreferenced_from(s, hand, 0)
}

/// The slot a sweep from `hand` evicts on a full pool: the first unreferenced
/// page after the hand; if every page is referenced, the whole circle is
/// cleared and the page under the hand goes.
pub open spec fn sweep_victim(s: Seq<Option<ClockEntry>>, hand: int) -> int {
    let k = first_unreferenced(s, hand);
    if k < s.len() {
        (hand + k) % (s.len() as int)
    } else {
        hand
    }
}

/// How many times the hand advances during that sweep.
pub open spec fn sweep_steps(s: Seq<Option<ClockEntry>>, hand: int) -> int {
    let k = first_unreferenced(s, hand);
    if k < s.len() {
        k + 1
    } else {
        s.len() + 1int
    }
}

/// The slots after that sweep: every page the hand passed over loses its
/// reference bit, and the victim's slot is emptied.
pub open spec fn sweep_slots(s: Seq<Option<ClockEntry>>, hand: int) -> Seq<Option<ClockEntry>> {
    let k = first_unreferenced(s, hand);
    let v = sweep_victim(s, hand);
    Seq::new(
        s.len(),
        |i: int|
            if i == v {
                None
            } else if offset_from(i, hand, s.len() as int) < k {
                cleared(s[i])
            } else {
                s[i]
            },
    )
}

/// The least empty slot at or after `from`, or the number of slots.
pub open spec fn first_empty_from(s: Seq<Option<ClockEntry>>, from: int) -> int
    decreases s.len() - from,
{
    if from >= s.len() {
        s.len() as int
    } else if s[from] is None {
        from
    } else {
        first_empty_from(s, from + 1)
    }
}

/// The first empty slot, or 0 when none is empty.
pub open spec fn first_empty(s: Seq<Option<ClockEntry>>) -> int {
    let k = first_empty_from(s, 0);
    if k < s.len() {
        k
    } else {
        0
    }
}

/// The slots after `steps` steps of a sweep from `hand` that found no
/// unreferenced page: the pages passed over have lost their reference bit.
spec fn partially_cleared(s: Seq<Option<ClockEntry>>, hand: int, steps: int) -> Seq<
    Option<ClockEntry>,
> {
    Seq::new(
        s.len(),
        |i: int|
            if offset_from(i, hand, s.len() as int) < steps {
                cleared(s[i])
            } else {
                s[i]
            },
    )
}

proof fn lemma_hand_step(h: int, s: int, n: int)
    requires
        0 <= h < n,
        0 <= s,
    ensures
        ((h + s) % n + 1) % n == (h + s + 1) % n,
        (h + s + 1) / n == (h + s) / n + (if (h + s + 1) % n == 0 {
            1int
        } else {
            0int
        }),
        0 <= (h + s) % n < n,
{
    lemma_fundamental_div_mod(h + s, n);
    let q = (h + s) / n;
    let r = (h + s) % n;
    if r + 1 < n {
        lemma_fundamental_div_mod_converse(h + s + 1, n, q, r + 1);
        lemma_fundamental_div_mod_converse(r + 1, n, 0, r + 1);
    } else {
        assert(h + s + 1 == (q + 1) * n + 0) by (nonlinear_arith)
            requires
                h + s == q * n + r,
                r + 1 == n,
        ;
        lemma_fundamental_div_mod_converse(h + s + 1, n, q + 1, 0);
        lemma_fundamental_div_mod_converse(r + 1, n, 1, 0);
    }
}

proof fn lemma_offset_of_step(h: int, s: int, n: int)
    requires
        0 <= h < n,
        0 <= s < n,
    ensures
        0 <= (h + s) % n < n,
        offset_from((h + s) % n, h, n) == s,
{
    if h + s < n {
        lemma_fundamental_div_mod_converse(h + s, n, 0, h + s);
    } else {
        lemma_fundamental_div_mod_converse(h + s, n, 1, h + s - n);
    }
}

proof fn lemma_first_unreferenced_is(s: Seq<Option<ClockEntry>>, hand: int, k: int, from: int)
    requires
        s.len() > 0,
        0 <= from <= k <= s.len(),
        forall|j: int| 0 <= j < k ==> !unreferenced(#[trigger] s[(hand + j) % (s.len() as int)]),
        k < s.len() ==> unreferenced(s[(hand + k) % (s.len() as int)]),
    ensures
        first_unreferenced_from(s, hand, from) == k,
    decreases k - from,
{
    if from < k {
        assert(!unreferenced(s[(hand + from) % (s.len() as int)]));
        lemma_first_unreferenced_is(s, hand, k, from + 1);
    }
}

proof fn lemma_first_empty_is(s: Seq<Option<ClockEntry>>, k: int, from: int)
    requires
        0 <= from <= k < s.len(),
        forall|j: int| from <= j < k ==> #[trigger] s[j] is Some,
        s[k] is None,
    ensures
        first_empty_from(s, from) == k,
    decreases k - from,
{
    if from < k {
        lemma_first_empty_is(s, k, from + 1);
    }
}

proof fn lemma_first_empty_is_at_most(s: Seq<Option<ClockEntry>>, k: int, from: int)
    requires
        0 <= from <= k < s.len(),
        s[k] is None,
    ensures
        first_empty_from(s, from) <= k,
    decreases k - from,
{
    if from < k && s[from] is Some {
        lemma_first_empty_is_at_most(s, k, from + 1);
    }
}

proof fn lemma_first_empty_found(s: Seq<Option<ClockEntry>>, from: int)
    requires
        0 <= from <= s.len(),
    ensures
        from <= first_empty_from(s, from) <= s.len(),
        first_empty_from(s, from) < s.len() ==> s[first_empty_from(s, from)] is None,
    decreases s.len() - from,
{
    if from < s.len() && s[from] is Some {
        lemma_first_empty_found(s, from + 1);
    }
}

proof fn lemma_quotient_below(x: int, n: int, b: int)
    requires
        0 <= x < b * n,
        n > 0,
    ensures
        x / n < b,
{
    lemma_fundamental_div_mod(x, n);
    vstd::arithmetic::div_mod::lemma_mod_bound(x, n);
    let q = x / n;
    let r = x % n;
    assert(q < b) by (nonlinear_arith)
        requires
            x == n * q + r,
            0 <= r,
            x < b * n,
            n > 0,
    ;
}

proof fn lemma_first_empty_none(s: Seq<Option<ClockEntry>>, from: int)
    requires
        0 <= from <= s.len(),
        forall|j: int| from <= j < s.len() ==> #[trigger] s[j] is Some,
    ensures
        first_empty_from(s, from) == s.len(),
    decreases s.len() - from,
{
    if from < s.len() {
        lemma_first_empty_none(s, from + 1);
    }
}

// ---------------------------------------------------------------------------
// ClockBufferBlock
// ---------------------------------------------------------------------------

/// A page cache with CLOCK (second-chance) eviction.
pub struct ClockBufferBlock {
    metadata: BlockMetadata,
    input_ports: Vec<Port>,
    output_ports: Vec<Port>,
    metric_defs: Vec<MetricDefinition>,
    // Configuration
    capacity: usize,
    page_size: usize,
    // Internal state: circular buffer with clock hand
    pages: Vec<Option<ClockEntry>>,
    /// Maps page_id to slot index
    page_map: HashMap<usize, usize>,
    clock_hand: usize,
    // Stats
    hits: usize,
    misses: usize,
    evictions: usize,
    clock_hand_sweeps: usize,
}

impl ClockBufferBlock {
    /// The slots of the circular buffer, in slot order.
    pub closed spec fn slots(&self) -> Seq<Option<ClockEntry>> {
        self.pages@
    }

    /// The slot the clock hand points at.
    pub closed spec fn hand(&self) -> int {
        self.clock_hand as int
    }

    /// The pages currently cached.
    pub closed spec fn cached(&self) -> Set<usize> {
        self.page_map@.dom()
    }

    /// The slot that holds a cached page.
    pub closed spec fn slot_of(&self, page_id: usize) -> int {
        self.page_map@[page_id] as int
    }

    pub closed spec fn spec_capacity(&self) -> usize {
        self.capacity
    }

    pub closed spec fn spec_page_size(&self) -> usize {
        self.page_size
    }

    pub closed spec fn spec_hits(&self) -> usize {
        self.hits
    }

    pub closed spec fn spec_misses(&self) -> usize {
        self.misses
    }

    pub closed spec fn spec_evictions(&self) -> usize {
        self.evictions
    }

    pub closed spec fn spec_clock_hand_sweeps(&self) -> usize {
        self.clock_hand_sweeps
    }

    /// The pool's internal consistency: the hand on a slot, and the page map
    /// and the slots agreeing both ways.
    pub closed spec fn wf(&self) -> bool {
        &&& self.pages@.len() > 0
        &&& self.clock_hand < self.pages@.len()
        &&& forall|p: usize| #[trigger]
            self.page_map@.contains_key(p) ==> {
                let i = self.page_map@[p] as int;
                &&& 0 <= i < self.pages@.len()
                &&& self.pages@[i] matches Some(e) && e.page_id == p
            }
        &&& forall|i: int|
            0 <= i < self.pages@.len() && (#[trigger] self.pages@[i]) is Some ==> {
                &&& self.page_map@.contains_key(self.pages@[i]->0.page_id)
                &&& self.page_map@[self.pages@[i]->0.page_id] == i
            }
    }

    #[verifier::when_used_as_spec(spec_capacity)]
    pub fn capacity(&self) -> (r: usize)
        ensures
            r == self.spec_capacity(),
    {
        self.capacity
    }

    #[verifier::when_used_as_spec(spec_page_size)]
    pub fn page_size(&self) -> (r: usize)
        ensures
            r == self.spec_page_size(),
    {
        self.page_size
    }

    /// Requests served from the cache.
    #[verifier::when_used_as_spec(spec_hits)]
    pub fn hits(&self) -> (r: usize)
        ensures
            r == self.spec_hits(),
    {
        self.hits
    }

    /// Requests that missed the cache.
    #[verifier::when_used_as_spec(spec_misses)]
    pub fn misses(&self) -> (r: usize)
        ensures
            r == self.spec_misses(),
    {
        self.misses
    }

    /// Pages evicted to make room.
    #[verifier::when_used_as_spec(spec_evictions)]
    pub fn evictions(&self) -> (r: usize)
        ensures
            r == self.spec_evictions(),
    {
        self.evictions
    }

    /// Full rotations of the clock hand.
    #[verifier::when_used_as_spec(spec_clock_hand_sweeps)]
    pub fn clock_hand_sweeps(&self) -> (r: usize)
        ensures
            r == self.spec_clock_hand_sweeps(),
    {
        self.clock_hand_sweeps
    }

    /// The pool is consistent and has one slot per unit of capacity, so it
    /// can serve requests.
    pub open spec fn ready(&self) -> bool {
        &&& self.wf()
        &&& self.slots().len() == self.capacity()
    }

    /// Every slot holds a page.
    pub open spec fn all_slots_full(&self) -> bool {
        forall|i: int| 0 <= i < self.slots().len() ==> (#[trigger] self.slots()[i]) is Some
    }

    /// The counters can take one more request without overflowing.
    pub open spec fn counters_have_room(&self) -> bool {
        &&& self.hits() < usize::MAX
        &&& self.misses() < usize::MAX
        &&& self.evictions() < usize::MAX
        &&& self.clock_hand_sweeps() <= usize::MAX - 2
    }

    /// The occupied slots.
    spec fn occupied(&self) -> Set<int> {
        Set::new(|i: int| 0 <= i < self.pages@.len() && self.pages@[i] is Some)
    }

    /// A cached page sits in its slot, and the page in an occupied slot is
    /// cached there.
    pub proof fn lemma_slot_of(&self)
        requires
            self.wf(),
        ensures
            forall|p: usize| #[trigger] self.cached().contains(p) ==> {
                &&& 0 <= self.slot_of(p) < self.slots().len()
                &&& self.slots()[self.slot_of(p)] matches Some(e) && e.page_id == p
            },
            forall|i: int| 0 <= i < self.slots().len() && (#[trigger] self.slots()[i]) is Some ==> {
                &&& self.cached().contains(self.slots()[i]->0.page_id)
                &&& self.slot_of(self.slots()[i]->0.page_id) == i
            },
    {
    }

    /// The number of cached pages is the number of occupied slots, so it
    /// reaches the capacity exactly when every slot is full.
    pub proof fn lemma_cached_len(&self)
        requires
            self.wf(),
        ensures
            self.cached().finite(),
            self.cached().len() <= self.slots().len(),
            self.cached().len() >= self.slots().len() <==> self.all_slots_full(),
    {
        let n = self.pages@.len() as int;
        let occ = self.occupied();
        let f = |i: int| self.pages@[i]->0.page_id;
        lemma_int_range(0, n);
        lemma_len_subset(occ, set_int_range(0, n));
        assert(occ.map(f) =~= self.page_map@.dom()) by {
            assert forall|p: usize| self.page_map@.dom().contains(p) implies occ.map(f).contains(
                p,
            ) by {
                let i = self.page_map@[p] as int;
                assert(occ.contains(i));
                assert(f(i) == p);
            }
        }
        assert(vstd::relations::injective_on(f, occ));
        lemma_map_size(occ, self.page_map@.dom(), f);
        if self.all_slots_full() {
            assert(occ =~= set_int_range(0, n));
        } else {
            let e = choose|i: int| 0 <= i < n && !(self.pages@[i] is Some);
            assert(occ.subset_of(set_int_range(0, n).remove(e)));
            lemma_len_subset(occ, set_int_range(0, n).remove(e));
        }
    }

    pub fn new() -> (pool: Self)
        ensures
            pool.ready(),
            pool.capacity() == 1024,
            pool.page_size() == 8192,
            pool.cached() == Set::<usize>::empty(),
            pool.slots() == Seq::new(1024, |i: int| None::<ClockEntry>),
            pool.hand() == 0,
            pool.hits() == 0,
            pool.misses() == 0,
            pool.evictions() == 0,
            pool.clock_hand_sweeps() == 0,
            pool.spec_metadata().id@ == "clock-buffer-pool"@,
            pool.spec_metadata().category == BlockCategory::Buffer,
    {
        let capacity: usize = 1024;
        Self {
            metadata: Self::build_metadata(),
            input_ports: Self::build_inputs(),
            output_ports: Self::build_outputs(),
            metric_defs: Self::build_metrics(),
            capacity,
            page_size: 8192,
            pages: Self::empty_slots(capacity),
            page_map: HashMap::new(),
            clock_hand: 0,
            hits: 0,
            misses: 0,
            evictions: 0,
            clock_hand_sweeps: 0,
        }
    }

    fn empty_slots(n: usize) -> (v: Vec<Option<ClockEntry>>)
        ensures
            v@ == Seq::new(n as nat, |i: int| None::<ClockEntry>),
    {
        let mut v: Vec<Option<ClockEntry>> = Vec::new();
        for i in 0..n
            invariant
                v@ == Seq::new(i as nat, |j: int| None::<ClockEntry>),
        {
            v.push(None);
        }
        v
    }

    /// Sets the capacity to `size`. A size of zero is refused: the capacity
    /// is then 0 and nothing else changes, and the pool cannot serve requests
    /// until a valid size is set. Otherwise the pool gets `size` empty slots
    /// and the hand is reset.
    pub fn set_size(&mut self, size: usize) -> (r: Result<(), BlockError>)
        requires
            old(self).wf(),
        ensures
            final(self).wf(),
            final(self).capacity() == size,
            r is Err <==> size == 0,
            r is Err ==> {
                &&& final(self).slots() == old(self).slots()
                &&& final(self).cached() == old(self).cached()
                &&& final(self).hand() == old(self).hand()
                &&& final(self).page_size() == old(self).page_size()
                &&& final(self).hits() == old(self).hits()
                &&& final(self).misses() == old(self).misses()
                &&& final(self).evictions() == old(self).evictions()
                &&& final(self).clock_hand_sweeps() == old(self).clock_hand_sweeps()
            },
            r is Ok ==> {
                &&& final(self).ready()
                &&& final(self).slots() == Seq::new(size as nat, |i: int| None::<ClockEntry>)
                &&& final(self).cached() == Set::<usize>::empty()
                &&& final(self).hand() == 0
                &&& final(self).page_size() == old(self).page_size()
                &&& final(self).hits() == old(self).hits()
                &&& final(self).misses() == old(self).misses()
                &&& final(self).evictions() == old(self).evictions()
                &&& final(self).clock_hand_sweeps() == old(self).clock_hand_sweeps()
            },
    {
        self.capacity = size;
        if self.capacity == 0 {
            return Err(BlockError::InvalidParameter(String::from_str("size must be at least 1")));
        }
        self.pages = Self::empty_slots(size);
        self.page_map.clear();
        self.clock_hand = 0;
        Ok(())
    }

    /// Sets the size in bytes of each cached page.
    pub fn set_page_size(&mut self, page_size: usize)
        requires
            old(self).wf(),
        ensures
            final(self).wf(),
            old(self).ready() ==> final(self).ready(),
            final(self).page_size() == page_size,
            final(self).capacity() == old(self).capacity(),
            final(self).slots() == old(self).slots(),
            final(self).cached() == old(self).cached(),
            final(self).hand() == old(self).hand(),
            final(self).hits() == old(self).hits(),
            final(self).misses() == old(self).misses(),
            final(self).evictions() == old(self).evictions(),
            final(self).clock_hand_sweeps() == old(self).clock_hand_sweeps(),
    {
        self.page_size = page_size;
    }
    // -- Core operations -----------------------------------------------------

    /// Requests a page. Returns `true` if it was a cache hit.
    ///
    /// A hit sets the page's reference bit. A miss caches the page with its
    /// reference bit set: in the first empty slot while the pool has room;
    /// on a full pool, in the slot that the clock sweep frees.
    pub fn get_page(&mut self, page_id: usize) -> (hit: bool)
        requires
            old(self).ready(),
            old(self).counters_have_room(),
        ensures
            final(self).ready(),
            hit == old(self).cached().contains(page_id),
            final(self).cached().contains(page_id),
            final(self).cached().len() <= final(self).capacity(),
            final(self).capacity() == old(self).capacity(),
            final(self).page_size() == old(self).page_size(),
            hit ==> {
                &&& final(self).slots() == old(self).slots().update(
                    old(self).slot_of(page_id),
                    Some(ClockEntry { page_id, reference_bit: true }),
                )
                &&& final(self).cached() == old(self).cached()
                &&& final(self).hand() == old(self).hand()
                &&& final(self).hits() == old(self).hits() + 1
                &&& final(self).misses() == old(self).misses()
                &&& final(self).evictions() == old(self).evictions()
                &&& final(self).clock_hand_sweeps() == old(self).clock_hand_sweeps()
            },
            !hit && old(self).cached().len() < old(self).capacity() ==> {
                &&& final(self).slots() == old(self).slots().update(
                    first_empty(old(self).slots()),
                    Some(ClockEntry { page_id, reference_bit: true }),
                )
                &&& final(self).cached() == old(self).cached().insert(page_id)
                &&& final(self).hand() == old(self).hand()
                &&& final(self).hits() == old(self).hits()
                &&& final(self).misses() == old(self).misses() + 1
                &&& final(self).evictions() == old(self).evictions()
                &&& final(self).clock_hand_sweeps() == old(self).clock_hand_sweeps()
            },
            !hit && old(self).cached().len() >= old(self).capacity() ==> {
                let s = old(self).slots();
                let h = old(self).hand();
                let v = sweep_victim(s, h);
                let steps = sweep_steps(s, h);
                &&& final(self).slots() == sweep_slots(s, h).update(
                    v,
                    Some(ClockEntry { page_id, reference_bit: true }),
                )
                &&& s[v] is Some
                &&& s[v]->0.page_id != page_id
                &&& old(self).cached().contains(s[v]->0.page_id)
                &&& final(self).cached() == old(self).cached().remove(s[v]->0.page_id).insert(
                    page_id,
                )
                &&& final(self).cached().len() == old(self).cached().len()
                &&& final(self).hand() == (h + steps) % (s.len() as int)
                &&& final(self).hits() == old(self).hits()
                &&& final(self).misses() == old(self).misses() + 1
                &&& final(self).evictions() == old(self).evictions() + 1
                &&& final(self).clock_hand_sweeps() == old(self).clock_hand_sweeps() + (h + steps)
                    / (s.len() as int)
            },
    {
        proof {
            self.lemma_cached_len();
        }
        match self.page_map.get(&page_id) {
            Some(slot_ref) => {
                // Hit: set the reference bit.
                let slot = *slot_ref;
                self.pages.set(slot, Some(ClockEntry { page_id, reference_bit: true }));
                self.hits = self.hits + 1;
                proof {
                    assert forall|i: int|
                        0 <= i < self.pages@.len() && (#[trigger] self.pages@[i]) is Some implies {
                        &&& self.page_map@.contains_key(self.pages@[i]->0.page_id)
                        &&& self.page_map@[self.pages@[i]->0.page_id] == i
                    } by {
                        if i != slot {
                            assert(old(self).pages@[i] is Some);
                        }
                    }
                    self.lemma_cached_len();
                }
                true
            },
            None => {
                // Miss: make room with a clock sweep when the pool is full.
                if self.page_map.len() >= self.capacity {
                    self.evict_one();
                }
                let ghost mid = self.pages@;
                let slot = self.find_empty_slot();
                proof {
                    lemma_first_empty_found(mid, 0);
                    if old(self).cached().len() >= old(self).capacity() {
                        // Only the victim's slot is empty after the sweep.
                        let v = sweep_victim(old(self).pages@, old(self).clock_hand as int);
                        assert forall|j: int| 0 <= j < v implies #[trigger] mid[j] is Some by {
                            assert(old(self).pages@[j] is Some);
                        }
                        lemma_first_empty_is(mid, v, 0);
                    } else {
                        let n = self.pages@.len() as int;
                        if first_empty_from(mid, 0) >= n {
                            assert forall|j: int| 0 <= j < n implies #[trigger] mid[j] is Some by {
                                if mid[j] is None {
                                    lemma_first_empty_is_at_most(mid, j, 0);
                                }
                            }
                            assert(old(self).all_slots_full());
                        }
                    }
                }
                self.pages.set(slot, Some(ClockEntry { page_id, reference_bit: true }));
                self.page_map.insert(page_id, slot);
                self.misses = self.misses + 1;
                proof {
                    assert forall|p: usize| #[trigger] self.page_map@.contains_key(p) implies {
                        let i = self.page_map@[p] as int;
                        &&& 0 <= i < self.pages@.len()
                        &&& self.pages@[i] matches Some(e) && e.page_id == p
                    } by {
                        if p != page_id {
                            assert(mid[slot as int] is None);
                        }
                    }
                    assert forall|i: int|
                        0 <= i < self.pages@.len() && (#[trigger] self.pages@[i]) is Some implies {
                        &&& self.page_map@.contains_key(self.pages@[i]->0.page_id)
                        &&& self.page_map@[self.pages@[i]->0.page_id] == i
                    } by {
                        if i != slot {
                            assert(mid[i] is Some);
                        }
                    }
                    if old(self).cached().len() >= old(self).capacity() {
                        let s0 = old(self).slots();
                        let v = sweep_victim(s0, old(self).hand());
                        assert(s0[v] is Some);
                        let q = s0[v]->0.page_id;
                        assert(old(self).cached().contains(q));
                        assert(old(self).cached().remove(q).insert(page_id).len() == old(self).cached().len());
                    }
                    self.lemma_cached_len();
                }
                false
            },
        }
    }

    /// Clock sweep: advance the hand, clearing reference bits, until a page
    /// with a clear bit is found; evict it.
    fn evict_one(&mut self)
        requires
            old(self).ready(),
            old(self).all_slots_full(),
            old(self).evictions() < usize::MAX,
            old(self).clock_hand_sweeps() <= usize::MAX - 2,
        ensures
            ({
                let s = old(self).slots();
                let h = old(self).hand();
                let v = sweep_victim(s, h);
                let steps = sweep_steps(s, h);
                &&& 0 <= v < s.len()
                &&& final(self).slots() == sweep_slots(s, h)
                &&& final(self).page_map@ == old(self).page_map@.remove(s[v]->0.page_id)
                &&& final(self).hand() == (h + steps) % (s.len() as int)
                &&& final(self).clock_hand_sweeps() == old(self).clock_hand_sweeps() + (h + steps) / (
                s.len() as int)
                &&& final(self).evictions() == old(self).evictions() + 1
            }),
            final(self).capacity == old(self).capacity,
            final(self).page_size == old(self).page_size,
            final(self).hits == old(self).hits,
            final(self).misses == old(self).misses,
            final(self).clock_hand < final(self).capacity,
            forall|p: usize| #[trigger]
                final(self).page_map@.contains_key(p) ==> {
                    let i = final(self).page_map@[p] as int;
                    &&& 0 <= i < final(self).pages@.len()
                    &&& final(self).pages@[i] matches Some(e) && e.page_id == p
                },
            forall|i: int|
                0 <= i < final(self).pages@.len() && (#[trigger] final(self).pages@[i]) is Some ==> {
                    &&& final(self).page_map@.contains_key(final(self).pages@[i]->0.page_id)
                    &&& final(self).page_map@[final(self).pages@[i]->0.page_id] == i
                },
    {
        let n = self.pages.len();
        let ghost h0 = self.clock_hand as int;
        let ghost s0 = self.pages@;
        let ghost sw0 = self.clock_hand_sweeps as int;
        let ghost mut steps: int = 0;
        proof {
            lemma_fundamental_div_mod_converse(h0, n as int, 0, h0);
        }
        loop
            invariant
                n == self.pages@.len() == s0.len() == self.capacity,
                n > 0,
                0 <= h0 < n,
                0 <= steps <= n,
                self.clock_hand as int == (h0 + steps) % (n as int),
                self.pages@ == partially_cleared(s0, h0, steps),
                forall|j: int| 0 <= j < steps ==> !unreferenced(#[trigger] s0[(h0 + j) % (n as int)]),
                forall|i: int| 0 <= i < n ==> (#[trigger] s0[i]) is Some,
                forall|p: usize| #[trigger]
                    self.page_map@.contains_key(p) ==> {
                        let i = self.page_map@[p] as int;
                        &&& 0 <= i < s0.len()
                        &&& s0[i] matches Some(e) && e.page_id == p
                    },
                forall|i: int|
                    0 <= i < n && (#[trigger] s0[i]) is Some ==> {
                        &&& self.page_map@.contains_key(s0[i]->0.page_id)
                        &&& self.page_map@[s0[i]->0.page_id] == i
                    },
                self.page_map@ == old(self).page_map@,
                s0 == old(self).pages@,
                h0 == old(self).clock_hand,
                sw0 == old(self).clock_hand_sweeps,
                sw0 <= usize::MAX - 2,
                self.clock_hand_sweeps == sw0 + (h0 + steps) / (n as int),
                self.evictions == old(self).evictions,
                self.evictions < usize::MAX,
                self.capacity == old(self).capacity,
                self.page_size == old(self).page_size,
                self.hits == old(self).hits,
                self.misses == old(self).misses,
            decreases n - steps,
        {
            let hand = self.clock_hand;
            proof {
                lemma_hand_step(h0, steps, n as int);
                lemma_quotient_below(h0 + steps, n as int, 2);
                lemma_quotient_below(h0 + steps + 1, n as int, 3);
                if steps < n {
                    lemma_offset_of_step(h0, steps, n as int);
                }
            }
            let cur = self.pages[hand];
            match cur {
                Some(e) => {
                    if e.reference_bit {
                        // Second chance: clear the bit and move on.
                        self.pages.set(hand, Some(ClockEntry { page_id: e.page_id, reference_bit: false }));
                        proof {
                            assert(steps < n);
                            assert(self.pages@ =~= partially_cleared(s0, h0, steps + 1));
                        }
                    } else {
                        // Evict this page.
                        let victim_id = e.page_id;
                        self.page_map.remove(&victim_id);
                        self.pages.set(hand, None);
                        self.evictions = self.evictions + 1;
                        self.advance_hand(n);
                        proof {
                            let k = if steps < n { steps } else { n as int };
                            lemma_first_unreferenced_is(s0, h0, k, 0);
                            if steps == n {
                                lemma_fundamental_div_mod_converse(h0 + n, n as int, 1, h0);
                            }
                            assert(sweep_victim(s0, h0) == hand);
                            assert(self.pages@ =~= sweep_slots(s0, h0));
                            assert(self.page_map@ =~= old(self).page_map@.remove(s0[hand as int]->0.page_id));
                            assert forall|i: int|
                                0 <= i < self.pages@.len() && (#[trigger] self.pages@[i]) is Some implies {
                                &&& self.page_map@.contains_key(self.pages@[i]->0.page_id)
                                &&& self.page_map@[self.pages@[i]->0.page_id] == i
                            } by {
                                assert(s0[i] is Some);
                                assert(i != hand);
                            }
                        }
                        return;
                    }
                },
                None => {},
            }
            self.advance_hand(n);
            proof {
                steps = steps + 1;
            }
        }
    }

    fn advance_hand(&mut self, n: usize)
        requires
            n == old(self).pages@.len(),
            old(self).clock_hand < n,
            old(self).clock_hand_sweeps < usize::MAX,
        ensures
            final(self).clock_hand == (old(self).clock_hand + 1) % (n as int),
            final(self).clock_hand_sweeps == old(self).clock_hand_sweeps + (if final(self).clock_hand == 0 {
                1int
            } else {
                0int
            }),
            final(self).pages == old(self).pages,
            final(self).page_map == old(self).page_map,
            final(self).capacity == old(self).capacity,
            final(self).page_size == old(self).page_size,
            final(self).hits == old(self).hits,
            final(self).misses == old(self).misses,
            final(self).evictions == old(self).evictions,
    {
        self.clock_hand = (self.clock_hand + 1) % n;
        if self.clock_hand == 0 {
            self.clock_hand_sweeps = self.clock_hand_sweeps + 1;
        }
    }

    fn find_empty_slot(&self) -> (slot: usize)
        requires
            self.pages@.len() > 0,
        ensures
            slot == first_empty(self.pages@),
            slot < self.pages@.len(),
    {
        let mut i: usize = 0;
        while i < self.pages.len()
            invariant
                0 <= i <= self.pages@.len(),
                forall|j: int| 0 <= j < i ==> #[trigger] self.pages@[j] is Some,
            decreases self.pages@.len() - i,
        {
            if self.pages[i].is_none() {
                proof {
                    lemma_first_empty_is(self.pages@, i as int, 0);
                }
                return i;
            }
            i = i + 1;
        }
        proof {
            lemma_first_empty_none(self.pages@, 0);
        }
        0
    }

    /// The number of pages currently cached.
    pub fn current_size(&self) -> (r: usize)
        requires
            self.wf(),
        ensures
            r == self.cached().len(),
    {
        self.page_map.len()
    }

    /// Whether a page is currently cached.
    pub fn contains(&self, page_id: usize) -> (r: bool)
        ensures
            r == self.cached().contains(page_id),
    {
        self.page_map.contains_key(&page_id)
    }
}

impl ClockBufferBlock {
    fn build_documentation() -> (d: BlockDocumentation)
        ensures
            d.overview@ == "The CLOCK algorithm (also known as second-chance) is a page \
                           replacement policy that approximates LRU behavior without the \
                           overhead of maintaining an explicit access-order list. Instead \
                           of tracking the exact order of accesses, each page gets a single \
                           reference bit that is set whenever the page is accessed.\n\n\
                           When eviction is needed, a clock hand sweeps around a circular \
                           buffer. If a page's reference bit is set, the algorithm gives it \
                           a 'second chance' by clearing the bit and moving on. If the bit \
                           is already clear, the page is evicted. This means recently \
                           accessed pages survive at least one full sweep before eviction.\n\n\
                           PostgreSQL chose CLOCK over strict LRU for its shared buffer pool \
                           because setting a bit is an atomic operation that requires no lock \
                           contention, while moving a node in a linked list requires exclusive \
                           access. Under hundreds of concurrent connections, this difference \
                           is significant."@,
            d.algorithm@ == "CLOCK Buffer Pool Algorithm:\n\
                            \n\
                            STRUCTURE: Circular array of slots, each with (page_id, ref_bit)\n\
                            STATE: clock_hand pointing to current slot\n\
                            \n\
                            FUNCTION get_page(page_id):\n  \
                              IF page_id IN page_map:\n    \
                                // Cache HIT — just set the reference bit\n    \
                                slot = page_map[page_id]\n    \
                                slots[slot].ref_bit = true\n    \
                                RETURN page_data\n  \
                              ELSE:\n    \
                                // Cache MISS — need to find a slot\n    \
                                IF pool is full:\n      \
                                  CALL evict_one()\n    \
                                slot = find_empty_slot()\n    \
                                slots[slot] = (page_id, ref_bit=true)\n    \
                                RETURN fetched page_data\n\
                            \n\
                            FUNCTION evict_one():\n  \
                              LOOP:\n    \
                                entry = slots[clock_hand]\n    \
                                IF entry.ref_bit == true:\n      \
                                  entry.ref_bit = false   // second chance\n      \
                                  advance clock_hand\n    \
                                ELSE:\n      \
                                  EVICT entry.page_id\n      \
                                  advance clock_hand\n      \
                                  RETURN"@,
            d.motivation@ == "Maintaining a strict LRU list requires updating a data structure \
                             on every single page access. In a high-concurrency database with \
                             thousands of queries running simultaneously, this creates severe \
                             lock contention on the LRU list. CLOCK solves this by replacing \
                             the list update with a single bit-set operation, which can be done \
                             atomically without locking.\n\n\
                             Without CLOCK (or a similar approximation), the buffer manager \
                             becomes a bottleneck under concurrent workloads. The slight loss \
                             in eviction quality compared to true LRU is a worthwhile trade \
                             for dramatically better throughput."@,
            d.complexity.time@ == "O(1) amortized per access; worst case O(n) sweep on eviction"@,
            d.complexity.space@ == "O(capacity) — fixed-size circular buffer"@,
            d.use_cases@.len() == 5,
            d.use_cases@[0]@ == "PostgreSQL shared_buffers replacement policy"@,
            d.use_cases@[1]@ == "High-concurrency buffer pools where LRU reordering is expensive"@,
            d.use_cases@[2]@ == "Systems with mixed scan and point-lookup workloads"@,
            d.use_cases@[3]@ == "Embedded databases that need a simple, low-overhead cache policy"@,
            d.use_cases@[4]@ == "Operating system virtual memory page replacement"@,
            d.tradeoffs@.len() == 5,
            d.tradeoffs@[0]@ == "Less precise than true LRU but much cheaper under concurrency"@,
            d.tradeoffs@[1]@ == "Sequential scans can pollute the cache (same as LRU)"@,
            d.tradeoffs@[2]@ == "Second-chance mechanism helps retain hot pages during scans"@,
            d.tradeoffs@[3]@ == "The clock hand sweep can take O(n) in the worst case if all pages \
                     have their reference bit set, causing a temporary latency spike"@,
            d.tradeoffs@[4]@ == "Cannot distinguish between a page accessed once and a page accessed \
                     many times — both just have ref_bit=true"@,
            d.examples@.len() == 3,
            d.examples@[0]@ == "PostgreSQL uses clock-sweep for its shared buffer pool — the \
                     bgwriter process advances the clock hand proactively"@,
            d.examples@[1]@ == "OS page replacement algorithms — Linux uses a two-list variant \
                     (active/inactive) inspired by CLOCK concepts"@,
            d.examples@[2]@ == "Apache Derby uses a CLOCK-based buffer manager"@,
            d.suggested_questions@.len() == 3,
            d.suggested_questions@[0]@ == "How many times does the clock hand need to sweep before evicting a \
                     page that was just accessed?"@,
            d.suggested_questions@[1]@ == "What is the worst-case scenario for CLOCK eviction latency, and how \
                     can PostgreSQL's bgwriter mitigate it?"@,
            d.suggested_questions@[2]@ == "How would you modify CLOCK to give more chances to frequently accessed \
                     pages (hint: look up CLOCK-Pro or GCLOCK)?"@,
            d.parameter_guide@.len() == 2,
            d.parameter_guide@[0].0@ == "size"@,
            d.parameter_guide@[0].1@ == "The number of slots in the circular buffer. More slots \
                                     mean more pages can be cached, improving hit rates. However, \
                                     each slot consumes memory for the page data. Start with 1024 \
                                     and observe the hit rate and clock_hand_sweeps metrics. If \
                                     sweeps are frequent, the pool is too small for the workload. \
                                     Aim for a hit rate above 90% for OLTP workloads."@,
            d.parameter_guide@[1].0@ == "page_size"@,
            d.parameter_guide@[1].1@ == "Size of each cached page in bytes. Should match the \
                                          storage layer's page size. The default of 8192 bytes \
                                          (8 KB) matches PostgreSQL. Larger pages (16 KB, like \
                                          MySQL InnoDB) hold more rows per page but waste space \
                                          when accessing individual rows. Smaller pages (4 KB) \
                                          are better for point lookups on small records."@,
            d.alternatives@.len() == 1,
            d.alternatives@[0].block_type@ == "lru-buffer-pool"@,
            d.alternatives@[0].comparison@ == "LRU maintains exact access order, giving more precise \
                                     eviction decisions. Choose LRU when concurrency is low \
                                     and eviction quality matters (e.g., single-threaded \
                                     embedded databases). Choose CLOCK when the system has \
                                     many concurrent readers and the overhead of list \
                                     reordering on every access is unacceptable. In practice, \
                                     CLOCK achieves hit rates within 1-2% of true LRU."@,
    {
        let mut use_cases: Vec<String> = Vec::new();
        use_cases.push(String::from_str("PostgreSQL shared_buffers replacement policy"));
        use_cases.push(String::from_str("High-concurrency buffer pools where LRU reordering is expensive"));
        use_cases.push(String::from_str("Systems with mixed scan and point-lookup workloads"));
        use_cases.push(String::from_str("Embedded databases that need a simple, low-overhead cache policy"));
        use_cases.push(String::from_str("Operating system virtual memory page replacement"));
        let mut tradeoffs: Vec<String> = Vec::new();
        tradeoffs.push(String::from_str("Less precise than true LRU but much cheaper under concurrency"));
        tradeoffs.push(String::from_str("Sequential scans can pollute the cache (same as LRU)"));
        tradeoffs.push(String::from_str("Second-chance mechanism helps retain hot pages during scans"));
        tradeoffs.push(String::from_str("The clock hand sweep can take O(n) in the worst case if all pages \
                     have their reference bit set, causing a temporary latency spike"));
        tradeoffs.push(String::from_str("Cannot distinguish between a page accessed once and a page accessed \
                     many times — both just have ref_bit=true"));
        let mut examples: Vec<String> = Vec::new();
        examples.push(String::from_str("PostgreSQL uses clock-sweep for its shared buffer pool — the \
                     bgwriter process advances the clock hand proactively"));
        examples.push(String::from_str("OS page replacement algorithms — Linux uses a two-list variant \
                     (active/inactive) inspired by CLOCK concepts"));
        examples.push(String::from_str("Apache Derby uses a CLOCK-based buffer manager"));
        let mut suggested_questions: Vec<String> = Vec::new();
        suggested_questions.push(String::from_str("How many times does the clock hand need to sweep before evicting a \
                     page that was just accessed?"));
        suggested_questions.push(String::from_str("What is the worst-case scenario for CLOCK eviction latency, and how \
                     can PostgreSQL's bgwriter mitigate it?"));
        suggested_questions.push(String::from_str("How would you modify CLOCK to give more chances to frequently accessed \
                     pages (hint: look up CLOCK-Pro or GCLOCK)?"));
        let mut parameter_guide: Vec<(String, String)> = Vec::new();
        parameter_guide.push((String::from_str("size"), String::from_str("The number of slots in the circular buffer. More slots \
                                     mean more pages can be cached, improving hit rates. However, \
                                     each slot consumes memory for the page data. Start with 1024 \
                                     and observe the hit rate and clock_hand_sweeps metrics. If \
                                     sweeps are frequent, the pool is too small for the workload. \
                                     Aim for a hit rate above 90% for OLTP workloads.")));
        parameter_guide.push((String::from_str("page_size"), String::from_str("Size of each cached page in bytes. Should match the \
                                          storage layer's page size. The default of 8192 bytes \
                                          (8 KB) matches PostgreSQL. Larger pages (16 KB, like \
                                          MySQL InnoDB) hold more rows per page but waste space \
                                          when accessing individual rows. Smaller pages (4 KB) \
                                          are better for point lookups on small records.")));
        let mut alternatives: Vec<Alternative> = Vec::new();
        alternatives.push(Alternative { block_type: String::from_str("lru-buffer-pool"), comparison: String::from_str("LRU maintains exact access order, giving more precise \
                                     eviction decisions. Choose LRU when concurrency is low \
                                     and eviction quality matters (e.g., single-threaded \
                                     embedded databases). Choose CLOCK when the system has \
                                     many concurrent readers and the overhead of list \
                                     reordering on every access is unacceptable. In practice, \
                                     CLOCK achieves hit rates within 1-2% of true LRU.") });
        BlockDocumentation {
            overview: String::from_str("The CLOCK algorithm (also known as second-chance) is a page \
                           replacement policy that approximates LRU behavior without the \
                           overhead of maintaining an explicit access-order list. Instead \
                           of tracking the exact order of accesses, each page gets a single \
                           reference bit that is set whenever the page is accessed.\n\n\
                           When eviction is needed, a clock hand sweeps around a circular \
                           buffer. If a page's reference bit is set, the algorithm gives it \
                           a 'second chance' by clearing the bit and moving on. If the bit \
                           is already clear, the page is evicted. This means recently \
                           accessed pages survive at least one full sweep before eviction.\n\n\
                           PostgreSQL chose CLOCK over strict LRU for its shared buffer pool \
                           because setting a bit is an atomic operation that requires no lock \
                           contention, while moving a node in a linked list requires exclusive \
                           access. Under hundreds of concurrent connections, this difference \
                           is significant."),
            algorithm: String::from_str("CLOCK Buffer Pool Algorithm:\n\
                            \n\
                            STRUCTURE: Circular array of slots, each with (page_id, ref_bit)\n\
                            STATE: clock_hand pointing to current slot\n\
                            \n\
                            FUNCTION get_page(page_id):\n  \
                              IF page_id IN page_map:\n    \
                                // Cache HIT — just set the reference bit\n    \
                                slot = page_map[page_id]\n    \
                                slots[slot].ref_bit = true\n    \
                                RETURN page_data\n  \
                              ELSE:\n    \
                                // Cache MISS — need to find a slot\n    \
                                IF pool is full:\n      \
                                  CALL evict_one()\n    \
                                slot = find_empty_slot()\n    \
                                slots[slot] = (page_id, ref_bit=true)\n    \
                                RETURN fetched page_data\n\
                            \n\
                            FUNCTION evict_one():\n  \
                              LOOP:\n    \
                                entry = slots[clock_hand]\n    \
                                IF entry.ref_bit == true:\n      \
                                  entry.ref_bit = false   // second chance\n      \
                                  advance clock_hand\n    \
                                ELSE:\n      \
                                  EVICT entry.page_id\n      \
                                  advance clock_hand\n      \
                                  RETURN"),
            complexity: Complexity { time: String::from_str("O(1) amortized per access; worst case O(n) sweep on eviction"), space: String::from_str("O(capacity) — fixed-size circular buffer") },
            use_cases,
            tradeoffs,
            examples,
            motivation: String::from_str("Maintaining a strict LRU list requires updating a data structure \
                             on every single page access. In a high-concurrency database with \
                             thousands of queries running simultaneously, this creates severe \
                             lock contention on the LRU list. CLOCK solves this by replacing \
                             the list update with a single bit-set operation, which can be done \
                             atomically without locking.\n\n\
                             Without CLOCK (or a similar approximation), the buffer manager \
                             becomes a bottleneck under concurrent workloads. The slight loss \
                             in eviction quality compared to true LRU is a worthwhile trade \
                             for dramatically better throughput."),
            parameter_guide,
            alternatives,
            suggested_questions,
        }
    }

    fn build_references() -> (r: Vec<Reference>)
        ensures
            r@.len() == 1,
            r@[0].ref_type == ReferenceType::Book,
            r@[0].title@ == "Database Internals by Alex Petrov — Chapter 5: Buffer Management"@,
            r@[0].url is None,
            r@[0].citation matches Some(t) && t@ == "Petrov, A. (2019). Database Internals. O'Reilly."@,
    {
        let mut r: Vec<Reference> = Vec::new();
        r.push(Reference { ref_type: ReferenceType::Book, title: String::from_str("Database Internals by Alex Petrov — Chapter 5: Buffer Management"), url: None, citation: Some(String::from_str("Petrov, A. (2019). Database Internals. O'Reilly.")) });
        r
    }

    fn build_metadata() -> (m: BlockMetadata)
        ensures
            m.documentation.overview@ == "The CLOCK algorithm (also known as second-chance) is a page \
                           replacement policy that approximates LRU behavior without the \
                           overhead of maintaining an explicit access-order list. Instead \
                           of tracking the exact order of accesses, each page gets a single \
                           reference bit that is set whenever the page is accessed.\n\n\
                           When eviction is needed, a clock hand sweeps around a circular \
                           buffer. If a page's reference bit is set, the algorithm gives it \
                           a 'second chance' by clearing the bit and moving on. If the bit \
                           is already clear, the page is evicted. This means recently \
                           accessed pages survive at least one full sweep before eviction.\n\n\
                           PostgreSQL chose CLOCK over strict LRU for its shared buffer pool \
                           because setting a bit is an atomic operation that requires no lock \
                           contention, while moving a node in a linked list requires exclusive \
                           access. Under hundreds of concurrent connections, this difference \
                           is significant."@,
            m.references@.len() == 1,
            m.id@ == "clock-buffer-pool"@,
            m.category == BlockCategory::Buffer,
            m.name@ == "Clock Buffer Pool"@,
            m.description@ == "Page cache with CLOCK (second-chance) eviction — used by PostgreSQL"@,
            m.version@ == "1.0.0"@,
            m.icon@ == "layers"@,
            m.color@ == "#F59E0B"@,
    {
        BlockMetadata::new(
            "clock-buffer-pool",
            "Clock Buffer Pool",
            BlockCategory::Buffer,
            "Page cache with CLOCK (second-chance) eviction — used by PostgreSQL",
            "layers",
            "#F59E0B",
            Self::build_documentation(),
            Self::build_references(),
        )
    }

    fn build_inputs() -> (p: Vec<Port>)
        ensures
            p@.len() == 1,
            p@[0].id@ == "requests"@,
    {
        let mut p: Vec<Port> = Vec::new();
        p.push(
            Port::new(
                "requests",
                "Page Requests",
                PortDirection::Input,
                true,
                false,
                "Records with a `_page_id` field identifying the requested page",
            ),
        );
        p
    }

    fn build_outputs() -> (p: Vec<Port>)
        ensures
            p@.len() == 1,
            p@[0].id@ == "pages"@,
    {
        let mut p: Vec<Port> = Vec::new();
        p.push(
            Port::new(
                "pages",
                "Served Pages",
                PortDirection::Output,
                false,
                true,
                "Records enriched with `_cache_hit` (bool) and `_page_data_size`",
            ),
        );
        p
    }

    fn build_metrics() -> (v: Vec<MetricDefinition>)
        ensures
            v@.len() == 6,
            v@[0].id@ == "cache_hits"@,
            v@[1].id@ == "cache_misses"@,
            v@[2].id@ == "hit_rate_pct"@,
            v@[3].id@ == "evictions"@,
            v@[4].id@ == "clock_hand_sweeps"@,
            v@[5].id@ == "current_size"@,
    {
        let mut v: Vec<MetricDefinition> = Vec::new();
        v.push(
            MetricDefinition::new(
                "cache_hits",
                "Cache Hits",
                MetricType::Counter,
                "pages",
                "Page requests served from cache",
                AggregationType::Sum,
            ),
        );
        v.push(
            MetricDefinition::new(
                "cache_misses",
                "Cache Misses",
                MetricType::Counter,
                "pages",
                "Page requests that missed the cache",
                AggregationType::Sum,
            ),
        );
        v.push(
            MetricDefinition::new(
                "hit_rate_pct",
                "Hit Rate",
                MetricType::Gauge,
                "%",
                "Percentage of requests served from cache",
                AggregationType::Avg,
            ),
        );
        v.push(
            MetricDefinition::new(
                "evictions",
                "Evictions",
                MetricType::Counter,
                "pages",
                "Pages evicted from cache",
                AggregationType::Sum,
            ),
        );
        v.push(
            MetricDefinition::new(
                "clock_hand_sweeps",
                "Clock Sweeps",
                MetricType::Counter,
                "rotations",
                "Full rotations of the clock hand",
                AggregationType::Sum,
            ),
        );
        v.push(
            MetricDefinition::new(
                "current_size",
                "Current Size",
                MetricType::Gauge,
                "pages",
                "Pages currently in the buffer pool",
                AggregationType::Max,
            ),
        );
        v
    }

    /// What the block says about itself.
    pub fn metadata(&self) -> (m: &BlockMetadata)
        ensures
            m == self.spec_metadata(),
    {
        &self.metadata
    }

    pub closed spec fn spec_metadata(&self) -> BlockMetadata {
        self.metadata
    }

    /// The block's input ports.
    pub fn inputs(&self) -> (p: &Vec<Port>)
        ensures
            p == self.spec_inputs(),
    {
        &self.input_ports
    }

    pub closed spec fn spec_inputs(&self) -> Vec<Port> {
        self.input_ports
    }

    /// The block's output ports.
    pub fn outputs(&self) -> (p: &Vec<Port>)
        ensures
            p == self.spec_outputs(),
    {
        &self.output_ports
    }

    pub closed spec fn spec_outputs(&self) -> Vec<Port> {
        self.output_ports
    }

    /// The metrics the block reports.
    pub fn metrics(&self) -> (m: &Vec<MetricDefinition>)
        ensures
            m == self.spec_metrics(),
    {
        &self.metric_defs
    }

    pub closed spec fn spec_metrics(&self) -> Vec<MetricDefinition> {
        self.metric_defs
    }
}

} // verus!
