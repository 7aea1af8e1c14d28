//! LRU Buffer Pool Block
//!
//! A fixed-size page cache that evicts the least recently used page when it
//! is full. Every access moves the page to the most-recently-used end of the
//! recency order.
use std::collections::HashMap;
use std::collections::VecDeque;
use vstd::prelude::*;
use vstd::string::*;

use crate::common::block::{Alternative, BlockCategory, BlockDocumentation, BlockError, BlockMetadata, Complexity, Reference, ReferenceType};
use crate::common::metrics::{AggregationType, MetricDefinition, MetricType};
use crate::common::port::{Port, PortDirection};

verus! {

broadcast use vstd::std_specs::hash::group_hash_axioms;

/// A page cache with least-recently-used eviction.
pub struct LRUBufferBlock {
    metadata: BlockMetadata,
    input_ports: Vec<Port>,
    output_ports: Vec<Port>,
    metric_defs: Vec<MetricDefinition>,
    capacity: usize,
    page_size: usize,
    cache: HashMap<usize, Vec<u8>>,
    /// Recency order: the front is the least recently used page.
    lru_order: VecDeque<usize>,
    hits: usize,
    misses: usize,
    evictions: usize,
}

impl LRUBufferBlock {
    /// The cached pages from least to most recently used.
    pub closed spec fn order(&self) -> Seq<usize> {
        self.lru_order@
    }

    /// The pages currently cached.
    pub closed spec fn cached(&self) -> Set<usize> {
        self.cache@.dom()
    }

    /// The bytes held for a cached page.
    pub closed spec fn page_data(&self, page_id: usize) -> Seq<u8> {
        self.cache@[page_id]@
    }

    pub closed spec fn spec_capacity(&self) -> usize {
        self.capacity
    }

    pub closed spec fn spec_page_size(&self) -> usize {
        self.page_size
    }

    pub closed spec fn spec_hits(&self) -> usize {
        self.hits
    }

    pub closed spec fn spec_misses(&self) -> usize {
        self.misses
    }

    pub closed spec fn spec_evictions(&self) -> usize {
        self.evictions
    }

    /// The recency order lists each cached page exactly once.
    pub closed spec fn wf(&self) -> bool {
        &&& self.lru_order@.no_duplicates()
        &&& self.lru_order@.to_set() == self.cache@.dom()
    }

    /// The counters can take one more request without overflowing.
    pub open spec fn counters_have_room(&self) -> bool {
        &&& self.hits() < usize::MAX
        &&& self.misses() < usize::MAX
        &&& self.evictions() < usize::MAX
    }

    /// `page_size` zero bytes.
    pub open spec fn zeroed(page_size: usize) -> Seq<u8> {
        Seq::new(page_size as nat, |i: int| 0u8)
    }

    proof fn lemma_len(&self)
        requires
            self.wf(),
        ensures
            self.cached().finite(),
            self.cached().len() == self.order().len(),
    {
        self.lru_order@.unique_seq_to_set();
    }

    #[verifier::when_used_as_spec(spec_capacity)]
    pub fn capacity(&self) -> (r: usize)
        ensures
            r == self.spec_capacity(),
    {
        self.capacity
    }

    #[verifier::when_used_as_spec(spec_page_size)]
    pub fn page_size(&self) -> (r: usize)
        ensures
            r == self.spec_page_size(),
    {
        self.page_size
    }

    /// Requests served from the cache.
    #[verifier::when_used_as_spec(spec_hits)]
    pub fn hits(&self) -> (r: usize)
        ensures
            r == self.spec_hits(),
    {
        self.hits
    }

    /// Requests that missed the cache.
    #[verifier::when_used_as_spec(spec_misses)]
    pub fn misses(&self) -> (r: usize)
        ensures
            r == self.spec_misses(),
    {
        self.misses
    }

    /// Pages evicted to make room.
    #[verifier::when_used_as_spec(spec_evictions)]
    pub fn evictions(&self) -> (r: usize)
        ensures
            r == self.spec_evictions(),
    {
        self.evictions
    }

    pub fn new() -> (pool: Self)
        ensures
            pool.wf(),
            pool.capacity() == 1024,
            pool.page_size() == 8192,
            pool.order() == Seq::<usize>::empty(),
            pool.cached() == Set::<usize>::empty(),
            pool.hits() == 0,
            pool.misses() == 0,
            pool.evictions() == 0,
            pool.spec_metadata().id@ == "lru-buffer-pool"@,
            pool.spec_metadata().category == BlockCategory::Buffer,
    {
        let pool = Self {
            metadata: Self::build_metadata(),
            input_ports: Self::build_inputs(),
            output_ports: Self::build_outputs(),
            metric_defs: Self::build_metrics(),
            capacity: 1024,
            page_size: 8192,
            cache: HashMap::new(),
            lru_order: VecDeque::new(),
            hits: 0,
            misses: 0,
            evictions: 0,
        };
        proof {
            assert(pool.lru_order@.to_set() =~= pool.cache@.dom());
        }
        pool
    }

    /// Sets the maximum number of cached pages. Zero is refused, but is
    /// recorded as the capacity all the same. The cached pages stay.
    pub fn set_size(&mut self, size: usize) -> (r: Result<(), BlockError>)
        requires
            old(self).wf(),
        ensures
            final(self).wf(),
            r is Err <==> size == 0,
            final(self).capacity() == size,
            final(self).page_size() == old(self).page_size(),
            final(self).order() == old(self).order(),
            final(self).cached() == old(self).cached(),
            forall|p: usize| #[trigger] final(self).page_data(p) == old(self).page_data(p),
            final(self).hits() == old(self).hits(),
            final(self).misses() == old(self).misses(),
            final(self).evictions() == old(self).evictions(),
    {
        self.capacity = size;
        if self.capacity == 0 {
            return Err(BlockError::InvalidParameter(String::from_str("size must be at least 1")));
        }
        Ok(())
    }

    /// Sets the size in bytes of pages cached from now on.
    pub fn set_page_size(&mut self, page_size: usize)
        requires
            old(self).wf(),
        ensures
            final(self).wf(),
            final(self).page_size() == page_size,
            final(self).capacity() == old(self).capacity(),
            final(self).order() == old(self).order(),
            final(self).cached() == old(self).cached(),
            forall|p: usize| #[trigger] final(self).page_data(p) == old(self).page_data(p),
            final(self).hits() == old(self).hits(),
            final(self).misses() == old(self).misses(),
            final(self).evictions() == old(self).evictions(),
    {
        self.page_size = page_size;
    }

    // -- Core operations -----------------------------------------------------

    /// Requests a page. Returns `true` if it was a cache hit.
    ///
    /// The page becomes the most recently used. On a miss it is cached with
    /// `page_size` zero bytes, after the least recently used page is evicted
    /// if the pool holds `capacity` pages or more.
    pub fn get_page(&mut self, page_id: usize) -> (hit: bool)
        requires
            old(self).wf(),
            old(self).counters_have_room(),
        ensures
            final(self).wf(),
            hit == old(self).cached().contains(page_id),
            final(self).cached().contains(page_id),
            final(self).capacity() == old(self).capacity(),
            final(self).page_size() == old(self).page_size(),
            hit ==> {
                &&& final(self).order() == old(self).order().remove(
                    old(self).order().index_of(page_id),
                ).push(page_id)
                &&& final(self).cached() == old(self).cached()
                &&& forall|p: usize| #[trigger] final(self).page_data(p) == old(self).page_data(p)
                &&& final(self).hits() == old(self).hits() + 1
                &&& final(self).misses() == old(self).misses()
                &&& final(self).evictions() == old(self).evictions()
            },
            !hit ==> {
                &&& final(self).hits() == old(self).hits()
                &&& final(self).misses() == old(self).misses() + 1
                &&& final(self).page_data(page_id) == Self::zeroed(old(self).page_size())
                &&& forall|p: usize|
                    p != page_id && final(self).cached().contains(p) ==> #[trigger] final(self).page_data(p)
                        == old(self).page_data(p)
            },
            !hit && old(self).order().len() >= old(self).capacity() && old(self).order().len()
                > 0 ==> {
                &&& final(self).order() == old(self).order().drop_first().push(page_id)
                &&& final(self).cached() == old(self).cached().remove(old(self).order()[0]).insert(
                    page_id,
                )
                &&& final(self).evictions() == old(self).evictions() + 1
            },
            !hit && !(old(self).order().len() >= old(self).capacity() && old(self).order().len()
                > 0) ==> {
                &&& final(self).order() == old(self).order().push(page_id)
                &&& final(self).cached() == old(self).cached().insert(page_id)
                &&& final(self).evictions() == old(self).evictions()
            },
    {
        proof {
            self.lemma_len();
        }
        if self.cache.contains_key(&page_id) {
            self.touch(page_id);
            self.hits = self.hits + 1;
            true
        } else {
            if self.cache.len() >= self.capacity {
                self.evict();
            }
            let ghost mid = self.lru_order@;
            self.cache.insert(page_id, vec![0u8; self.page_size]);
            self.lru_order.push_back(page_id);
            self.misses = self.misses + 1;
            proof {
                assert(self.cache@[page_id]@ =~= Self::zeroed(self.page_size));
                mid.lemma_push_to_set_commute(page_id);
                assert(self.lru_order@.to_set() =~= self.cache@.dom());
                assert(self.lru_order@.no_duplicates()) by {
                    assert(!mid.contains(page_id));
                }
            }
            false
        }
    }

    /// Moves a page to the most recently used end.
    fn touch(&mut self, page_id: usize)
        requires
            old(self).wf(),
            old(self).order().contains(page_id),
        ensures
            final(self).wf(),
            final(self).order() == old(self).order().remove(old(self).order().index_of(page_id)).push(
                page_id,
            ),
            final(self).cache == old(self).cache,
            final(self).capacity == old(self).capacity,
            final(self).page_size == old(self).page_size,
            final(self).hits == old(self).hits,
            final(self).misses == old(self).misses,
            final(self).evictions == old(self).evictions,
    {
        let ghost s = self.lru_order@;
        let mut i: usize = 0;
        while i < self.lru_order.len() && self.lru_order[i] != page_id
            invariant
                self.lru_order@ == s,
                0 <= i <= s.len(),
                forall|j: int| 0 <= j < i ==> s[j] != page_id,
            decreases s.len() - i,
        {
            i = i + 1;
        }
        proof {
            assert(i < s.len() && s[i as int] == page_id) by {
                if i >= s.len() {
                    let k = choose|k: int| 0 <= k < s.len() && s[k] == page_id;
                    assert(s[k] != page_id);
                }
            }
            assert(s.index_of(page_id) == i) by {
                let k = s.index_of(page_id);
                assert(s.contains(page_id));
                assert(0 <= k < s.len() && s[k] == page_id);
                if k != i {
                    assert(!s.no_duplicates());
                }
            }
        }
        self.lru_order.remove(i);
        self.lru_order.push_back(page_id);
        proof {
            let r = s.remove(i as int);
            assert(self.lru_order@ == r.push(page_id));
            assert forall|a: int, b: int|
                0 <= a < self.lru_order@.len() && 0 <= b < self.lru_order@.len() && a != b implies
                self.lru_order@[a] != self.lru_order@[b] by {
                if a < i && b < i {
                } else {
                }
            }
            assert(self.lru_order@.to_set() =~= s.to_set()) by {
                assert forall|x: usize| s.to_set().contains(x) implies self.lru_order@.to_set().contains(x) by {
                    let k = choose|k: int| 0 <= k < s.len() && s[k] == x;
                    if k < i {
                        assert(self.lru_order@[k] == x);
                    } else if k > i {
                        assert(self.lru_order@[k - 1] == x);
                    } else {
                        assert(self.lru_order@[self.lru_order@.len() - 1] == x);
                    }
                }
                assert forall|x: usize| self.lru_order@.to_set().contains(x) implies s.to_set().contains(x) by {
                    let k = choose|k: int| 0 <= k < self.lru_order@.len() && self.lru_order@[k] == x;
                    if k < i {
                        assert(s[k] == x);
                    } else if k < self.lru_order@.len() - 1 {
                        assert(s[k + 1] == x);
                    } else {
                        assert(s[i as int] == x);
                    }
                }
            }
        }
    }

    /// Evicts the least recently used page, if any.
    fn evict(&mut self)
        requires
            old(self).wf(),
            old(self).evictions < usize::MAX,
        ensures
            final(self).wf(),
            old(self).order().len() > 0 ==> {
                &&& final(self).order() == old(self).order().drop_first()
                &&& final(self).cache@ == old(self).cache@.remove(old(self).order()[0])
                &&& final(self).evictions == old(self).evictions + 1
            },
            old(self).order().len() == 0 ==> {
                &&& final(self).order() == old(self).order()
                &&& final(self).cache@ == old(self).cache@
                &&& final(self).evictions == old(self).evictions
            },
            final(self).capacity == old(self).capacity,
            final(self).page_size == old(self).page_size,
            final(self).hits == old(self).hits,
            final(self).misses == old(self).misses,
    {
        let ghost s = self.lru_order@;
        if let Some(victim) = self.lru_order.pop_front() {
            self.cache.remove(&victim);
            self.evictions = self.evictions + 1;
            proof {
                assert(self.lru_order@ =~= s.drop_first());
                assert(self.lru_order@.to_set() =~= self.cache@.dom()) by {
                    assert forall|x: usize| self.cache@.dom().contains(x) implies self.lru_order@.to_set().contains(x) by {
                        assert(s.to_set().contains(x));
                        let k = choose|k: int| 0 <= k < s.len() && s[k] == x;
                        assert(k != 0);
                        assert(self.lru_order@[k - 1] == x);
                    }
                    assert forall|x: usize| self.lru_order@.to_set().contains(x) implies self.cache@.dom().contains(x) by {
                        let k = choose|k: int| 0 <= k < self.lru_order@.len() && self.lru_order@[k] == x;
                        assert(s[k + 1] == x);
                        assert(s.to_set().contains(x));
                    }
                }
            }
        }
    }

    /// The number of pages currently cached.
    pub fn current_size(&self) -> (r: usize)
        requires
            self.wf(),
        ensures
            r == self.cached().len(),
            r == self.order().len(),
    {
        proof {
            self.lemma_len();
        }
        self.cache.len()
    }

    /// Bytes held by the cached pages: pages cached times the page size.
    pub fn memory_used(&self) -> (r: usize)
        requires
            self.wf(),
            self.cached().len() * self.page_size() <= usize::MAX,
        ensures
            r == self.cached().len() * self.page_size(),
    {
        self.cache.len() * self.page_size
    }

    /// Whether a page is currently cached.
    pub fn contains(&self, page_id: usize) -> (r: bool)
        ensures
            r == self.cached().contains(page_id),
    {
        self.cache.contains_key(&page_id)
    }

    /// Drops every cached page; the counters stay.
    pub fn clear(&mut self)
        requires
            old(self).wf(),
        ensures
            final(self).wf(),
            final(self).order() == Seq::<usize>::empty(),
            final(self).cached() == Set::<usize>::empty(),
            final(self).capacity() == old(self).capacity(),
            final(self).page_size() == old(self).page_size(),
            final(self).hits() == old(self).hits(),
            final(self).misses() == old(self).misses(),
            final(self).evictions() == old(self).evictions(),
    {
        self.cache.clear();
        self.lru_order.clear();
        proof {
            assert(self.lru_order@.to_set() =~= self.cache@.dom());
        }
    }
}

impl LRUBufferBlock {
    fn build_documentation() -> (d: BlockDocumentation)
        ensures
            d.overview@ == "A buffer pool is a region of main memory dedicated to caching \
                           disk pages so that frequently accessed data can be served without \
                           going to storage. The LRU (Least Recently Used) buffer pool is \
                           the most intuitive eviction strategy: when the pool is full and a \
                           new page must be loaded, the page that has not been accessed for \
                           the longest time is evicted.\n\n\
                           In a database system, the buffer pool sits between the execution \
                           engine and the storage manager. Every operator — scans, index \
                           lookups, joins — requests pages through the buffer pool. A well-tuned \
                           buffer pool dramatically reduces disk I/O, which is typically the \
                           biggest performance bottleneck.\n\n\
                           Think of it like a desk with limited space: you keep the documents \
                           you used most recently on the desk. When you need a new document \
                           and the desk is full, you file away the one you haven't touched \
                           in the longest time. LRU is simple, predictable, and works well \
                           for most workloads — but it can be tricked by a single large \
                           sequential scan that pushes out all the useful cached pages."@,
            d.algorithm@ == "LRU Buffer Pool Algorithm:\n\
                            \n\
                            FUNCTION get_page(page_id):\n  \
                              IF page_id IN cache:\n    \
                                // Cache HIT\n    \
                                Remove page_id from current position in LRU list\n    \
                                Push page_id to back of LRU list (MRU position)\n    \
                                hits += 1\n    \
                                RETURN page_data\n  \
                              ELSE:\n    \
                                // Cache MISS\n    \
                                IF cache.size >= capacity:\n      \
                                  victim = LRU list front (least recently used)\n      \
                                  Remove victim from cache and LRU list\n      \
                                  evictions += 1\n    \
                                Fetch page_data from storage\n    \
                                Insert (page_id, page_data) into cache\n    \
                                Push page_id to back of LRU list\n    \
                                misses += 1\n    \
                                RETURN page_data"@,
            d.motivation@ == "Without a buffer pool, every page request would require a disk \
                             read. Disk I/O is roughly 1000x slower than memory access, so \
                             even a single query touching 100 pages would be painfully slow. \
                             The buffer pool keeps hot pages in RAM, turning most page \
                             requests into fast memory lookups.\n\n\
                             LRU is the default choice because it captures temporal locality: \
                             pages accessed recently are likely to be accessed again soon. \
                             It is the baseline against which more sophisticated policies \
                             (Clock, LRU-K, 2Q, ARC) are compared."@,
            d.complexity.time@ == "O(n) per access in this VecDeque implementation; O(1) with a \
                           proper doubly-linked-list + hash map"@,
            d.complexity.space@ == "O(capacity) — at most `capacity` pages held in memory"@,
            d.use_cases@.len() == 5,
            d.use_cases@[0]@ == "Reducing storage I/O for hot data"@,
            d.use_cases@[1]@ == "Caching index pages during lookups"@,
            d.use_cases@[2]@ == "Shared buffer pool for multiple table/index accesses"@,
            d.use_cases@[3]@ == "OLTP workloads with repeated access to the same rows"@,
            d.use_cases@[4]@ == "Buffering WAL (write-ahead log) pages for transaction durability"@,
            d.tradeoffs@.len() == 5,
            d.tradeoffs@[0]@ == "LRU can be fooled by sequential scans (see Clock or LRU-K)"@,
            d.tradeoffs@[1]@ == "Larger pool = more memory, but better hit rate"@,
            d.tradeoffs@[2]@ == "Simple LRU doesn't distinguish between scan and point access"@,
            d.tradeoffs@[3]@ == "Maintaining strict LRU order requires a list update on every access, \
                     which is expensive under high concurrency"@,
            d.tradeoffs@[4]@ == "Cold start: the pool starts empty, so the first accesses are all misses \
                     until the working set is loaded"@,
            d.examples@.len() == 4,
            d.examples@[0]@ == "PostgreSQL shared_buffers — the main buffer pool, though PostgreSQL \
                     actually uses a clock-sweep variant internally"@,
            d.examples@[1]@ == "MySQL InnoDB buffer pool — uses a modified LRU with a young/old \
                     sublist to resist scan pollution"@,
            d.examples@[2]@ == "SQLite page cache — a simple LRU cache in front of the B-tree pager"@,
            d.examples@[3]@ == "Oracle Database buffer cache — uses a touch-count based LRU"@,
            d.suggested_questions@.len() == 3,
            d.suggested_questions@[0]@ == "What happens to the hit rate when a sequential scan reads more pages \
                     than the buffer pool capacity?"@,
            d.suggested_questions@[1]@ == "Why is O(1) LRU implementation important, and how does a hash map + \
                     doubly-linked list achieve it?"@,
            d.suggested_questions@[2]@ == "How does MySQL's young/old sublist LRU variant protect against scan \
                     pollution?"@,
            d.parameter_guide@.len() == 2,
            d.parameter_guide@[0].0@ == "size"@,
            d.parameter_guide@[0].1@ == "Controls the maximum number of pages the buffer pool \
                                     can hold. A larger pool means more data stays cached, \
                                     improving hit rates — but it consumes more memory. For \
                                     OLTP workloads, aim for a pool large enough to hold the \
                                     active working set (commonly 25-75% of total data). Start \
                                     with 1024 pages and increase if you see hit rates below \
                                     90%. Typical production databases set this to gigabytes \
                                     of RAM."@,
            d.parameter_guide@[1].0@ == "page_size"@,
            d.parameter_guide@[1].1@ == "The size of each cached page in bytes. This should \
                                          match the storage block size. Common values are 4096 \
                                          (4 KB) for OLTP and 8192 (8 KB, the default) for \
                                          general-purpose use. Larger pages reduce the number \
                                          of I/O operations but waste memory when only a few \
                                          rows per page are needed. PostgreSQL uses 8 KB, MySQL \
                                          InnoDB uses 16 KB."@,
            d.alternatives@.len() == 1,
            d.alternatives@[0].block_type@ == "clock-buffer-pool"@,
            d.alternatives@[0].comparison@ == "The Clock buffer pool approximates LRU with lower overhead. \
                                     LRU requires updating a linked list on every access, while \
                                     Clock only sets a reference bit — making it cheaper under \
                                     high concurrency. Choose LRU when access ordering precision \
                                     matters; choose Clock when throughput under contention is \
                                     the priority. PostgreSQL chose Clock for this reason."@,
    {
        let mut use_cases: Vec<String> = Vec::new();
        use_cases.push(String::from_str("Reducing storage I/O for hot data"));
        use_cases.push(String::from_str("Caching index pages during lookups"));
        use_cases.push(String::from_str("Shared buffer pool for multiple table/index accesses"));
        use_cases.push(String::from_str("OLTP workloads with repeated access to the same rows"));
        use_cases.push(String::from_str("Buffering WAL (write-ahead log) pages for transaction durability"));
        let mut tradeoffs: Vec<String> = Vec::new();
        tradeoffs.push(String::from_str("LRU can be fooled by sequential scans (see Clock or LRU-K)"));
        tradeoffs.push(String::from_str("Larger pool = more memory, but better hit rate"));
        tradeoffs.push(String::from_str("Simple LRU doesn't distinguish between scan and point access"));
        tradeoffs.push(String::from_str("Maintaining strict LRU order requires a list update on every access, \
                     which is expensive under high concurrency"));
        tradeoffs.push(String::from_str("Cold start: the pool starts empty, so the first accesses are all misses \
                     until the working set is loaded"));
        let mut examples: Vec<String> = Vec::new();
        examples.push(String::from_str("PostgreSQL shared_buffers — the main buffer pool, though PostgreSQL \
                     actually uses a clock-sweep variant internally"));
        examples.push(String::from_str("MySQL InnoDB buffer pool — uses a modified LRU with a young/old \
                     sublist to resist scan pollution"));
        examples.push(String::from_str("SQLite page cache — a simple LRU cache in front of the B-tree pager"));
        examples.push(String::from_str("Oracle Database buffer cache — uses a touch-count based LRU"));
        let mut suggested_questions: Vec<String> = Vec::new();
        suggested_questions.push(String::from_str("What happens to the hit rate when a sequential scan reads more pages \
                     than the buffer pool capacity?"));
        suggested_questions.push(String::from_str("Why is O(1) LRU implementation important, and how does a hash map + \
                     doubly-linked list achieve it?"));
        suggested_questions.push(String::from_str("How does MySQL's young/old sublist LRU variant protect against scan \
                     pollution?"));
        let mut parameter_guide: Vec<(String, String)> = Vec::new();
        parameter_guide.push((String::from_str("size"), String::from_str("Controls the maximum number of pages the buffer pool \
                                     can hold. A larger pool means more data stays cached, \
                                     improving hit rates — but it consumes more memory. For \
                                     OLTP workloads, aim for a pool large enough to hold the \
                                     active working set (commonly 25-75% of total data). Start \
                                     with 1024 pages and increase if you see hit rates below \
                                     90%. Typical production databases set this to gigabytes \
                                     of RAM.")));
        parameter_guide.push((String::from_str("page_size"), String::from_str("The size of each cached page in bytes. This should \
                                          match the storage block size. Common values are 4096 \
                                          (4 KB) for OLTP and 8192 (8 KB, the default) for \
                                          general-purpose use. Larger pages reduce the number \
                                          of I/O operations but waste memory when only a few \
                                          rows per page are needed. PostgreSQL uses 8 KB, MySQL \
                                          InnoDB uses 16 KB.")));
        let mut alternatives: Vec<Alternative> = Vec::new();
        alternatives.push(Alternative { block_type: String::from_str("clock-buffer-pool"), comparison: String::from_str("The Clock buffer pool approximates LRU with lower overhead. \
                                     LRU requires updating a linked list on every access, while \
                                     Clock only sets a reference bit — making it cheaper under \
                                     high concurrency. Choose LRU when access ordering precision \
                                     matters; choose Clock when throughput under contention is \
                                     the priority. PostgreSQL chose Clock for this reason.") });
        BlockDocumentation {
            overview: String::from_str("A buffer pool is a region of main memory dedicated to caching \
                           disk pages so that frequently accessed data can be served without \
                           going to storage. The LRU (Least Recently Used) buffer pool is \
                           the most intuitive eviction strategy: when the pool is full and a \
                           new page must be loaded, the page that has not been accessed for \
                           the longest time is evicted.\n\n\
                           In a database system, the buffer pool sits between the execution \
                           engine and the storage manager. Every operator — scans, index \
                           lookups, joins — requests pages through the buffer pool. A well-tuned \
                           buffer pool dramatically reduces disk I/O, which is typically the \
                           biggest performance bottleneck.\n\n\
                           Think of it like a desk with limited space: you keep the documents \
                           you used most recently on the desk. When you need a new document \
                           and the desk is full, you file away the one you haven't touched \
                           in the longest time. LRU is simple, predictable, and works well \
                           for most workloads — but it can be tricked by a single large \
                           sequential scan that pushes out all the useful cached pages."),
            algorithm: String::from_str("LRU Buffer Pool Algorithm:\n\
                            \n\
                            FUNCTION get_page(page_id):\n  \
                              IF page_id IN cache:\n    \
                                // Cache HIT\n    \
                                Remove page_id from current position in LRU list\n    \
                                Push page_id to back of LRU list (MRU position)\n    \
                                hits += 1\n    \
                                RETURN page_data\n  \
                              ELSE:\n    \
                                // Cache MISS\n    \
                                IF cache.size >= capacity:\n      \
                                  victim = LRU list front (least recently used)\n      \
                                  Remove victim from cache and LRU list\n      \
                                  evictions += 1\n    \
                                Fetch page_data from storage\n    \
                                Insert (page_id, page_data) into cache\n    \
                                Push page_id to back of LRU list\n    \
                                misses += 1\n    \
                                RETURN page_data"),
            complexity: Complexity { time: String::from_str("O(n) per access in this VecDeque implementation; O(1) with a \
                           proper doubly-linked-list + hash map"), space: String::from_str("O(capacity) — at most `capacity` pages held in memory") },
            use_cases,
            tradeoffs,
            examples,
            motivation: String::from_str("Without a buffer pool, every page request would require a disk \
                             read. Disk I/O is roughly 1000x slower than memory access, so \
                             even a single query touching 100 pages would be painfully slow. \
                             The buffer pool keeps hot pages in RAM, turning most page \
                             requests into fast memory lookups.\n\n\
                             LRU is the default choice because it captures temporal locality: \
                             pages accessed recently are likely to be accessed again soon. \
                             It is the baseline against which more sophisticated policies \
                             (Clock, LRU-K, 2Q, ARC) are compared."),
            parameter_guide,
            alternatives,
            suggested_questions,
        }
    }

    fn build_references() -> (r: Vec<Reference>)
        ensures
            r@.len() == 1,
            r@[0].ref_type == ReferenceType::Book,
            r@[0].title@ == "Database Internals by Alex Petrov — Chapter 5: Buffer Management"@,
            r@[0].url is None,
            r@[0].citation matches Some(t) && t@ == "Petrov, A. (2019). Database Internals. O'Reilly."@,
    {
        let mut r: Vec<Reference> = Vec::new();
        r.push(Reference { ref_type: ReferenceType::Book, title: String::from_str("Database Internals by Alex Petrov — Chapter 5: Buffer Management"), url: None, citation: Some(String::from_str("Petrov, A. (2019). Database Internals. O'Reilly.")) });
        r
    }

    fn build_metadata() -> (m: BlockMetadata)
        ensures
            m.documentation.overview@ == "A buffer pool is a region of main memory dedicated to caching \
                           disk pages so that frequently accessed data can be served without \
                           going to storage. The LRU (Least Recently Used) buffer pool is \
                           the most intuitive eviction strategy: when the pool is full and a \
                           new page must be loaded, the page that has not been accessed for \
                           the longest time is evicted.\n\n\
                           In a database system, the buffer pool sits between the execution \
                           engine and the storage manager. Every operator — scans, index \
                           lookups, joins — requests pages through the buffer pool. A well-tuned \
                           buffer pool dramatically reduces disk I/O, which is typically the \
                           biggest performance bottleneck.\n\n\
                           Think of it like a desk with limited space: you keep the documents \
                           you used most recently on the desk. When you need a new document \
                           and the desk is full, you file away the one you haven't touched \
                           in the longest time. LRU is simple, predictable, and works well \
                           for most workloads — but it can be tricked by a single large \
                           sequential scan that pushes out all the useful cached pages."@,
            m.references@.len() == 1,
            m.id@ == "lru-buffer-pool"@,
            m.category == BlockCategory::Buffer,
            m.name@ == "LRU Buffer Pool"@,
            m.description@ == "Fixed-size page cache with LRU eviction"@,
            m.version@ == "1.0.0"@,
            m.icon@ == "layers"@,
            m.color@ == "#F59E0B"@,
    {
        BlockMetadata::new(
            "lru-buffer-pool",
            "LRU Buffer Pool",
            BlockCategory::Buffer,
            "Fixed-size page cache with LRU eviction",
            "layers",
            "#F59E0B",
            Self::build_documentation(),
            Self::build_references(),
        )
    }

    fn build_inputs() -> (p: Vec<Port>)
        ensures
            p@.len() == 1,
            p@[0].id@ == "requests"@,
    {
        let mut p: Vec<Port> = Vec::new();
        p.push(
            Port::new(
                "requests",
                "Page Requests",
                PortDirection::Input,
                true,
                false,
                "Records with a `_page_id` field identifying the requested page",
            ),
        );
        p
    }

    fn build_outputs() -> (p: Vec<Port>)
        ensures
            p@.len() == 1,
            p@[0].id@ == "pages"@,
    {
        let mut p: Vec<Port> = Vec::new();
        p.push(
            Port::new(
                "pages",
                "Served Pages",
                PortDirection::Output,
                false,
                true,
                "Records enriched with `_cache_hit` (bool) and `_page_data_size`",
            ),
        );
        p
    }

    fn build_metrics() -> (v: Vec<MetricDefinition>)
        ensures
            v@.len() == 5,
            v@[0].id@ == "cache_hits"@,
            v@[1].id@ == "cache_misses"@,
            v@[2].id@ == "hit_rate_pct"@,
            v@[3].id@ == "evictions"@,
            v@[4].id@ == "current_size"@,
    {
        let mut v: Vec<MetricDefinition> = Vec::new();
        v.push(
            MetricDefinition::new(
                "cache_hits",
                "Cache Hits",
                MetricType::Counter,
                "pages",
                "Page requests served from cache",
                AggregationType::Sum,
            ),
        );
        v.push(
            MetricDefinition::new(
                "cache_misses",
                "Cache Misses",
                MetricType::Counter,
                "pages",
                "Page requests that missed the cache",
                AggregationType::Sum,
            ),
        );
        v.push(
            MetricDefinition::new(
                "hit_rate_pct",
                "Hit Rate",
                MetricType::Gauge,
                "%",
                "Percentage of requests served from cache",
                AggregationType::Avg,
            ),
        );
        v.push(
            MetricDefinition::new(
                "evictions",
                "Evictions",
                MetricType::Counter,
                "pages",
                "Pages evicted from cache",
                AggregationType::Sum,
            ),
        );
        v.push(
            MetricDefinition::new(
                "current_size",
                "Current Size",
                MetricType::Gauge,
                "pages",
                "Pages currently in the buffer pool",
                AggregationType::Max,
            ),
        );
        v
    }

    /// What the block says about itself.
    pub fn metadata(&self) -> (m: &BlockMetadata)
        ensures
            m == self.spec_metadata(),
    {
        &self.metadata
    }

    pub closed spec fn spec_metadata(&self) -> BlockMetadata {
        self.metadata
    }

    /// The block's input ports.
    pub fn inputs(&self) -> (p: &Vec<Port>)
        ensures
            p == self.spec_inputs(),
    {
        &self.input_ports
    }

    pub closed spec fn spec_inputs(&self) -> Vec<Port> {
        self.input_ports
    }

    /// The block's output ports.
    pub fn outputs(&self) -> (p: &Vec<Port>)
        ensures
            p == self.spec_outputs(),
    {
        &self.output_ports
    }

    pub closed spec fn spec_outputs(&self) -> Vec<Port> {
        self.output_ports
    }

    /// The metrics the block reports.
    pub fn metrics(&self) -> (m: &Vec<MetricDefinition>)
        ensures
            m == self.spec_metrics(),
    {
        &self.metric_defs
    }

    pub closed spec fn spec_metrics(&self) -> Vec<MetricDefinition> {
        self.metric_defs
    }
}

} // verus!
