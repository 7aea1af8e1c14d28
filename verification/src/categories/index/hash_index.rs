//! Hash Index Block
//!
//! Maps keys to TupleIds through a table of buckets with chaining: a key's
//! bucket is its FNV-1a hash modulo the bucket count. When the load factor
//! (keys per bucket) passes its limit, the bucket count doubles and every
//! entry is placed again. A key is the text of the indexed column's value,
//! and the load-factor limit is held in thousandths.
use serde_json::Value as JsonValue;
use vstd::prelude::*;
use vstd::string::*;

use crate::categories::TupleId;
use crate::common::block::{Alternative, BlockCategory, BlockDocumentation, BlockError, BlockMetadata, Complexity, Reference, ReferenceType};
use crate::common::json::{json_bytes, json_text_bytes};
use crate::common::fnv::{fnv1a_bytes, fnv1a_from, fnv_offset};
use crate::common::metrics::{AggregationType, MetricDefinition, MetricType};
use crate::common::port::{Port, PortDirection};

verus! {

/// An indexed key and the tuple it points at.
pub type IndexEntry = (Seq<u8>, TupleId);

/// The bucket of a key among `num_buckets`.
pub open spec fn bucket_of(key: Seq<u8>, num_buckets: usize) -> int {
    ((fnv1a_from(fnv_offset(), key) as usize) % num_buckets) as int
}

/// A key's bucket is the remainder of its hash divided by the number of
/// buckets: the hash is that many whole rounds of the buckets plus the
/// bucket, which is below the number of buckets.
pub proof fn law_bucket_is_remainder(key: Seq<u8>, num_buckets: usize)
    requires
        num_buckets > 0,
    ensures
        0 <= bucket_of(key, num_buckets) < num_buckets,
        exists|q: int| 0 <= q && #[trigger] (q * num_buckets) + bucket_of(key, num_buckets) == fnv1a_from(fnv_offset(), key) as usize as int,
{
    let h = fnv1a_from(fnv_offset(), key) as usize;
    let n = num_buckets as int;
    let q = h as int / n;
    vstd::arithmetic::div_mod::lemma_fundamental_div_mod(h as int, n);
    assert(q >= 0) by (nonlinear_arith)
        requires h >= 0, n > 0, q == h as int / n;
    assert((q * n) + bucket_of(key, num_buckets) == h as int);
}

/// The entries of `log` that belong in bucket `b`, in order.
pub open spec fn in_bucket(log: Seq<IndexEntry>, b: int, num_buckets: usize) -> Seq<IndexEntry> {
    log.filter(|e: IndexEntry| bucket_of(e.0, num_buckets) == b)
}

/// The test for an entry with key `key`.
pub open spec fn key_is(key: Seq<u8>) -> spec_fn(IndexEntry) -> bool {
    |e: IndexEntry| e.0 == key
}

/// The entries of `log` with key `key`, in order.
pub open spec fn with_key(log: Seq<IndexEntry>, key: Seq<u8>) -> Seq<IndexEntry> {
    log.filter(key_is(key))
}

/// The tuple of the first entry of `log` with key `key`.
pub open spec fn first_tuple(log: Seq<IndexEntry>, key: Seq<u8>) -> Option<TupleId> {
    if with_key(log, key).len() > 0 {
        Some(with_key(log, key)[0].1)
    } else {
        None
    }
}

/// The longest of the chains.
pub open spec fn longest(lens: Seq<nat>) -> nat
    decreases lens.len(),
{
    if lens.len() == 0 {
        0
    } else if lens.last() > longest(lens.drop_last()) {
        lens.last()
    } else {
        longest(lens.drop_last())
    }
}

/// Filtering by a test that implies an earlier one is filtering by it
/// alone.
proof fn lemma_filter_filter(s: Seq<IndexEntry>, p: spec_fn(IndexEntry) -> bool, q: spec_fn(IndexEntry) -> bool)
    requires
        forall|e: IndexEntry| #[trigger] q(e) ==> p(e),
    ensures
        s.filter(p).filter(q) == s.filter(q),
    decreases s.len(),
{
    if s.len() == 0 {
        assert(s.filter(p) =~= s);
        assert(s.filter(q) =~= s) by {
            reveal(Seq::filter);
        }
        assert(s.filter(p).filter(q) =~= s) by {
            reveal(Seq::filter);
        }
    } else {
        let t = s.drop_last();
        lemma_filter_filter(t, p, q);
        assert(s =~= t.push(s.last()));
        t.lemma_filter_push(s.last(), p);
        t.lemma_filter_push(s.last(), q);
        if p(s.last()) {
            t.filter(p).lemma_filter_push(s.last(), q);
        }
    }
}

/// A lookup finds the first TupleId inserted for a key: a later insert
/// of the same key does not change the answer, and an insert of a new key
/// makes it found.
pub proof fn lemma_first_insert_wins(log: Seq<IndexEntry>, key: Seq<u8>, t: TupleId)
    ensures
        first_tuple(log.push((key, t)), key) == match first_tuple(log, key) {
            Some(x) => Some(x),
            None => Some(t),
        },
{
    log.lemma_filter_push((key, t), key_is(key));
    assert(with_key(log.push((key, t)), key) == with_key(log, key).push((key, t)));
    if with_key(log, key).len() == 0 {
        assert(with_key(log, key) =~= Seq::<IndexEntry>::empty());
        assert(with_key(log.push((key, t)), key) =~= seq![(key, t)]);
    } else {
        assert(with_key(log.push((key, t)), key)[0] == with_key(log, key)[0]);
    }
}

struct HashEntry {
    key: Vec<u8>,
    tuple_id: TupleId,
}

/// A hash index with chained buckets.
pub struct HashIndexBlock {
    metadata: BlockMetadata,
    input_ports: Vec<Port>,
    output_ports: Vec<Port>,
    metric_defs: Vec<MetricDefinition>,
    initial_buckets: usize,
    /// The load-factor limit, in thousandths.
    max_load_permille: usize,
    key_column: String,
    buckets: Vec<Vec<HashEntry>>,
    /// Every entry in the table, in the order it was inserted.
    log: Ghost<Seq<IndexEntry>>,
    total_keys: usize,
    collision_count: usize,
    rehash_count: usize,
    lookup_count: usize,
}

impl HashIndexBlock {
    /// The entries in the table, oldest first.
    pub closed spec fn entries(&self) -> Seq<IndexEntry> {
        self.log@
    }

    pub closed spec fn bucket_count_spec(&self) -> usize {
        self.buckets@.len() as usize
    }

    /// Each bucket's chain length.
    pub closed spec fn chain_lengths(&self) -> Seq<nat> {
        self.buckets@.map_values(|b: Vec<HashEntry>| b@.len())
    }

    pub closed spec fn spec_initial_buckets(&self) -> usize {
        self.initial_buckets
    }

    pub closed spec fn spec_max_load_permille(&self) -> usize {
        self.max_load_permille
    }

    pub closed spec fn spec_key_column(&self) -> Seq<char> {
        self.key_column@
    }

    pub closed spec fn spec_total_keys(&self) -> usize {
        self.total_keys
    }

    pub closed spec fn spec_collision_count(&self) -> usize {
        self.collision_count
    }

    pub closed spec fn spec_rehash_count(&self) -> usize {
        self.rehash_count
    }

    pub closed spec fn spec_lookup_count(&self) -> usize {
        self.lookup_count
    }

    /// Each bucket holds exactly the entries that hash to it, in the
    /// order they were inserted.
    pub closed spec fn wf(&self) -> bool {
        &&& self.buckets@.len() > 0
        &&& forall|b: int| 0 <= b < self.buckets@.len() ==> (#[trigger] self.buckets@[b])@.map_values(
            |e: HashEntry| (e.key@, e.tuple_id),
        ) == in_bucket(self.log@, b, self.buckets@.len() as usize)
    }

    /// `n` empty buckets.
    fn empty_buckets(n: usize) -> (r: Vec<Vec<HashEntry>>)
        ensures
            r@.len() == n,
            forall|b: int| 0 <= b < n ==> (#[trigger] r@[b])@.len() == 0,
    {
        let mut r: Vec<Vec<HashEntry>> = Vec::new();
        let mut i: usize = 0;
        while i < n
            invariant
                0 <= i <= n,
                r@.len() == i,
                forall|b: int| 0 <= b < i ==> (#[trigger] r@[b])@.len() == 0,
            decreases n - i,
        {
            r.push(Vec::new());
            i = i + 1;
        }
        r
    }

    proof fn lemma_empty_wf(&self)
        requires
            self.buckets@.len() > 0,
            self.log@ == Seq::<IndexEntry>::empty(),
            forall|b: int| 0 <= b < self.buckets@.len() ==> (#[trigger] self.buckets@[b])@.len() == 0,
        ensures
            self.wf(),
    {
        assert forall|b: int| 0 <= b < self.buckets@.len() implies (#[trigger] self.buckets@[b])@.map_values(
            |e: HashEntry| (e.key@, e.tuple_id),
        ) == in_bucket(self.log@, b, self.buckets@.len() as usize) by {
            assert(in_bucket(self.log@, b, self.buckets@.len() as usize) =~= Seq::<IndexEntry>::empty()) by {
                reveal(Seq::filter);
            }
            assert(self.buckets@[b]@.map_values(|e: HashEntry| (e.key@, e.tuple_id)) =~= Seq::<IndexEntry>::empty());
        }
    }

    pub fn new() -> (h: Self)
        ensures
            h.wf(),
            h.entries() == Seq::<IndexEntry>::empty(),
            h.bucket_count_spec() == 64,
            h.spec_initial_buckets() == 64,
            h.spec_max_load_permille() == 750,
            h.spec_key_column() == "id"@,
            h.spec_total_keys() == 0,
            h.spec_collision_count() == 0,
            h.spec_rehash_count() == 0,
            h.spec_lookup_count() == 0,
            h.spec_metadata().id@ == "hash-index"@,
            h.spec_metadata().category == BlockCategory::Index,
    {
        let h = Self {
            metadata: Self::build_metadata(),
            input_ports: Self::build_inputs(),
            output_ports: Self::build_outputs(),
            metric_defs: Self::build_metrics(),
            initial_buckets: 64,
            max_load_permille: 750,
            key_column: String::from_str("id"),
            buckets: Self::empty_buckets(64),
            log: Ghost(Seq::empty()),
            total_keys: 0,
            collision_count: 0,
            rehash_count: 0,
            lookup_count: 0,
        };
        proof {
            h.lemma_empty_wf();
        }
        h
    }

    /// An empty index of `buckets` buckets whose load-factor limit is
    /// `max_load_permille` thousandths, both taken as given.
    pub fn with_layout(buckets: usize, max_load_permille: usize) -> (h: Self)
        requires
            buckets > 0,
        ensures
            h.wf(),
            h.entries() == Seq::<IndexEntry>::empty(),
            h.bucket_count_spec() == buckets,
            h.spec_initial_buckets() == buckets,
            h.spec_max_load_permille() == max_load_permille,
            h.spec_key_column() == "id"@,
            h.spec_total_keys() == 0,
            h.spec_collision_count() == 0,
            h.spec_rehash_count() == 0,
            h.spec_lookup_count() == 0,
    {
        let h = Self {
            metadata: Self::build_metadata(),
            input_ports: Self::build_inputs(),
            output_ports: Self::build_outputs(),
            metric_defs: Self::build_metrics(),
            initial_buckets: buckets,
            max_load_permille,
            key_column: String::from_str("id"),
            buckets: Self::empty_buckets(buckets),
            log: Ghost(Seq::empty()),
            total_keys: 0,
            collision_count: 0,
            rehash_count: 0,
            lookup_count: 0,
        };
        proof {
            h.lemma_empty_wf();
        }
        h
    }

    /// The bucket of `key`.
    fn bucket_index(&self, key: &Vec<u8>) -> (b: usize)
        requires
            self.buckets@.len() > 0,
        ensures
            b as int == bucket_of(key@, self.buckets@.len() as usize),
            b < self.buckets@.len(),
    {
        let h = fnv1a_bytes(14695981039346656037, key.as_slice());
        (h as usize) % self.buckets.len()
    }

    /// The number of buckets.
    pub fn bucket_count(&self) -> (n: usize)
        ensures
            n == self.bucket_count_spec(),
    {
        self.buckets.len()
    }

    /// The TupleId of the first entry inserted with `key`, if any.
    pub fn lookup_bytes(&mut self, key: &Vec<u8>) -> (r: Option<TupleId>)
        requires
            old(self).wf(),
            old(self).spec_lookup_count() < usize::MAX,
        ensures
            final(self).wf(),
            r == first_tuple(old(self).entries(), key@),
            final(self).entries() == old(self).entries(),
            final(self).bucket_count_spec() == old(self).bucket_count_spec(),
            final(self).spec_lookup_count() == old(self).spec_lookup_count() + 1,
            final(self).spec_total_keys() == old(self).spec_total_keys(),
            final(self).spec_collision_count() == old(self).spec_collision_count(),
            final(self).spec_rehash_count() == old(self).spec_rehash_count(),
    {
        self.lookup_count = self.lookup_count + 1;
        self.find(key)
    }

    /// The TupleId of the first entry inserted with `key`, found by a
    /// scan of the key's bucket.
    fn find(&self, key: &Vec<u8>) -> (r: Option<TupleId>)
        requires
            self.wf(),
        ensures
            r == first_tuple(self.entries(), key@),
    {
        let b = self.bucket_index(key);
        let ghost nb = self.buckets@.len() as usize;
        let ghost log = self.log@;
        let ghost bucket = self.buckets@[b as int]@.map_values(|e: HashEntry| (e.key@, e.tuple_id));
        let ghost q = key_is(key@);
        proof {
            assert(bucket == in_bucket(log, b as int, nb));
            let p1 = |e: IndexEntry| bucket_of(e.0, nb) == b as int;
            assert forall|e: IndexEntry| #[trigger] q(e) implies p1(e) by {}
            lemma_filter_filter(log, p1, q);
            assert(bucket.filter(q) == with_key(log, key@));
        }
        let chain = &self.buckets[b];
        let mut j: usize = 0;
        while j < chain.len()
            invariant
                log == self.log@,
                0 <= j <= chain@.len(),
                bucket == chain@.map_values(|e: HashEntry| (e.key@, e.tuple_id)),
                bucket.filter(q) == with_key(log, key@),
                q == key_is(key@),
                bucket.subrange(0, j as int).filter(q).len() == 0,
            decreases chain@.len() - j,
        {
            proof {
                assert(bucket.subrange(0, j as int + 1) =~= bucket.subrange(0, j as int).push(bucket[j as int]));
                bucket.subrange(0, j as int).lemma_filter_push(bucket[j as int], q);
                assert(bucket =~= bucket.subrange(0, j as int + 1) + bucket.subrange(j as int + 1, bucket.len() as int));
                Seq::filter_distributes_over_add(bucket.subrange(0, j as int + 1), bucket.subrange(j as int + 1, bucket.len() as int), q);
            }
            if vec_u8_eq(&chain[j].key, key) {
                proof {
                    assert(bucket[j as int] == (chain@[j as int].key@, chain@[j as int].tuple_id));
                    assert(bucket.subrange(0, j as int + 1).filter(q) =~= seq![bucket[j as int]]) by {
                        assert(bucket.subrange(0, j as int).filter(q) =~= Seq::<IndexEntry>::empty());
                    }
                    let rest = bucket.subrange(j as int + 1, bucket.len() as int).filter(q);
                    assert(with_key(log, key@) == seq![bucket[j as int]] + rest);
                    assert(with_key(log, key@)[0] == bucket[j as int]);
                }
                return Some(chain[j].tuple_id);
            }
            j = j + 1;
        }
        proof {
            assert(bucket.subrange(0, j as int) =~= bucket);
        }
        None
    }

    /// The TupleId of the first entry inserted with a key whose JSON text
    /// has the bytes of `key`'s, if any.
    pub fn lookup(&mut self, key: &JsonValue) -> (r: Option<TupleId>)
        requires
            old(self).wf(),
            old(self).spec_lookup_count() < usize::MAX,
        ensures
            final(self).wf(),
            r == first_tuple(old(self).entries(), json_text_bytes(*key)),
            final(self).entries() == old(self).entries(),
            final(self).bucket_count_spec() == old(self).bucket_count_spec(),
            final(self).spec_lookup_count() == old(self).spec_lookup_count() + 1,
            final(self).spec_total_keys() == old(self).spec_total_keys(),
            final(self).spec_collision_count() == old(self).spec_collision_count(),
            final(self).spec_rehash_count() == old(self).spec_rehash_count(),
    {
        let k = json_bytes(key);
        self.lookup_bytes(&k)
    }

    /// Indexes `key` by the bytes of its JSON text, as `insert_key_bytes`
    /// does.
    pub fn insert_key(&mut self, key: JsonValue, tuple_id: TupleId)
        requires
            old(self).wf(),
            old(self).spec_total_keys() < usize::MAX,
            old(self).spec_collision_count() < usize::MAX,
            old(self).spec_rehash_count() < usize::MAX,
            old(self).bucket_count_spec() * 2 <= usize::MAX,
        ensures
            final(self).wf(),
            final(self).entries() == old(self).entries().push((json_text_bytes(key), tuple_id)),
            final(self).spec_total_keys() == old(self).spec_total_keys() + 1,
            final(self).spec_collision_count() == old(self).spec_collision_count() + if old(self).chain_lengths()[
                bucket_of(json_text_bytes(key), old(self).bucket_count_spec())] > 0 {
                1int
            } else {
                0int
            },
            if (old(self).spec_total_keys() + 1) * 1000 > old(self).bucket_count_spec() * old(self).spec_max_load_permille() {
                &&& final(self).bucket_count_spec() == old(self).bucket_count_spec() * 2
                &&& final(self).spec_rehash_count() == old(self).spec_rehash_count() + 1
            } else {
                &&& final(self).bucket_count_spec() == old(self).bucket_count_spec()
                &&& final(self).spec_rehash_count() == old(self).spec_rehash_count()
            },
            final(self).spec_lookup_count() == old(self).spec_lookup_count(),
            final(self).spec_max_load_permille() == old(self).spec_max_load_permille(),
            final(self).spec_initial_buckets() == old(self).spec_initial_buckets(),
    {
        let k = json_bytes(&key);
        self.insert_key_bytes(k, tuple_id)
    }

    /// Adds an entry for `key` at the end of its bucket's chain (a
    /// collision when the chain was not empty), then doubles the buckets
    /// when there are now more keys per bucket than the limit allows.
    pub fn insert_key_bytes(&mut self, key: Vec<u8>, tuple_id: TupleId)
        requires
            old(self).wf(),
            old(self).spec_total_keys() < usize::MAX,
            old(self).spec_collision_count() < usize::MAX,
            old(self).spec_rehash_count() < usize::MAX,
            old(self).bucket_count_spec() * 2 <= usize::MAX,
        ensures
            final(self).wf(),
            final(self).entries() == old(self).entries().push((key@, tuple_id)),
            final(self).spec_total_keys() == old(self).spec_total_keys() + 1,
            final(self).spec_collision_count() == old(self).spec_collision_count() + if old(self).chain_lengths()[
                bucket_of(key@, old(self).bucket_count_spec())] > 0 {
                1int
            } else {
                0int
            },
            if (old(self).spec_total_keys() + 1) * 1000 > old(self).bucket_count_spec() * old(self).spec_max_load_permille() {
                &&& final(self).bucket_count_spec() == old(self).bucket_count_spec() * 2
                &&& final(self).spec_rehash_count() == old(self).spec_rehash_count() + 1
            } else {
                &&& final(self).bucket_count_spec() == old(self).bucket_count_spec()
                &&& final(self).spec_rehash_count() == old(self).spec_rehash_count()
            },
            final(self).spec_lookup_count() == old(self).spec_lookup_count(),
            final(self).spec_max_load_permille() == old(self).spec_max_load_permille(),
            final(self).spec_initial_buckets() == old(self).spec_initial_buckets(),
    {
        let b = self.bucket_index(&key);
        let ghost nb = self.buckets@.len() as usize;
        let ghost e = (key@, tuple_id);
        let ghost log0 = self.log@;
        proof {
            assert(self.chain_lengths()[b as int] == self.buckets@[b as int]@.len());
        }
        if self.buckets[b].len() > 0 {
            self.collision_count = self.collision_count + 1;
        }
        let ghost chain0 = self.buckets@[b as int]@;
        self.buckets[b].push(HashEntry { key, tuple_id });
        self.log = Ghost(log0.push(e));
        self.total_keys = self.total_keys + 1;
        proof {
            assert forall|c: int| 0 <= c < self.buckets@.len() implies (#[trigger] self.buckets@[c])@.map_values(
                |x: HashEntry| (x.key@, x.tuple_id),
            ) == in_bucket(self.log@, c, nb) by {
                log0.lemma_filter_push(e, |x: IndexEntry| bucket_of(x.0, nb) == c);
                if c == b {
                    assert(self.buckets@[c]@ == chain0.push(HashEntry { key: key, tuple_id: tuple_id }));
                    assert(self.buckets@[c]@.map_values(|x: HashEntry| (x.key@, x.tuple_id)) =~= chain0.map_values(
                        |x: HashEntry| (x.key@, x.tuple_id)).push(e));
                } else {
                    assert(self.buckets@[c] == old(self).buckets@[c]);
                }
            }
        }
        let keys = self.total_keys as u128;
        let count = self.buckets.len() as u128;
        let limit = self.max_load_permille as u128;
        proof {
            assert(count * limit <= u128::MAX) by (nonlinear_arith)
                requires
                    count <= u64::MAX,
                    limit <= u64::MAX,
            ;
        }
        if keys * 1000 > count * limit {
            self.rehash();
        }
    }

    /// Doubles the bucket count and places every entry again, bucket by
    /// bucket, each chain in order.
    fn rehash(&mut self)
        requires
            old(self).wf(),
            old(self).spec_rehash_count() < usize::MAX,
            old(self).bucket_count_spec() * 2 <= usize::MAX,
        ensures
            final(self).wf(),
            final(self).entries() == old(self).entries(),
            final(self).bucket_count_spec() == old(self).bucket_count_spec() * 2,
            final(self).spec_rehash_count() == old(self).spec_rehash_count() + 1,
            final(self).spec_total_keys() == old(self).spec_total_keys(),
            final(self).spec_collision_count() == old(self).spec_collision_count(),
            final(self).spec_lookup_count() == old(self).spec_lookup_count(),
            final(self).spec_max_load_permille() == old(self).spec_max_load_permille(),
            final(self).spec_initial_buckets() == old(self).spec_initial_buckets(),
    {
        let n = self.buckets.len();
        let new_size = n * 2;
        let ghost log = self.log@;
        let mut old_buckets = Self::empty_buckets(new_size);
        core::mem::swap(&mut old_buckets, &mut self.buckets);
        proof {
            assert forall|c: int| 0 <= c < new_size implies in_bucket(log, c, new_size) == in_bucket(log, c % (n as int), n).filter(
                |x: IndexEntry| bucket_of(x.0, new_size) == c) by {
                let p1 = |x: IndexEntry| bucket_of(x.0, n) == c % (n as int);
                let q1 = |x: IndexEntry| bucket_of(x.0, new_size) == c;
                assert forall|x: IndexEntry| #[trigger] q1(x) implies p1(x) by {
                    let h = fnv1a_from(fnv_offset(), x.0) as usize as int;
                    vstd::arithmetic::div_mod::lemma_mod_mod(h, n as int, 2);
                    assert(new_size as int == n as int * 2);
                }
                lemma_filter_filter(log, p1, q1);
            }
        }
        let mut i: usize = 0;
        while i < n
            invariant
                log == self.log@,
                self.log == old(self).log,
                n == old_buckets@.len(),
                new_size == n * 2,
                n > 0,
                self.buckets@.len() == new_size,
                0 <= i <= n,
                forall|c: int| i <= c < n ==> (#[trigger] old_buckets@[c])@.map_values(|x: HashEntry| (x.key@, x.tuple_id))
                    == in_bucket(log, c, n),
                forall|c: int| 0 <= c < new_size ==> #[trigger] in_bucket(log, c, new_size) == in_bucket(log, c % (n as int), n).filter(
                    |x: IndexEntry| bucket_of(x.0, new_size) == c),
                forall|c: int| 0 <= c < new_size ==> (#[trigger] self.buckets@[c])@.map_values(|x: HashEntry| (x.key@, x.tuple_id))
                    == if c % (n as int) < i {
                    in_bucket(log, c, new_size)
                } else {
                    Seq::<IndexEntry>::empty()
                },
                self.initial_buckets == old(self).initial_buckets,
                self.max_load_permille == old(self).max_load_permille,
                self.total_keys == old(self).total_keys,
                self.collision_count == old(self).collision_count,
                self.rehash_count == old(self).rehash_count,
                self.lookup_count == old(self).lookup_count,
            decreases n - i,
        {
            let mut chain: Vec<HashEntry> = Vec::new();
            core::mem::swap(&mut chain, &mut old_buckets[i]);
            let ghost src = chain@.map_values(|x: HashEntry| (x.key@, x.tuple_id));
            proof {
                assert(src == in_bucket(log, i as int, n));
            }
            let ghost start = self.buckets@;
            proof {
                assert forall|t: int| 0 <= t < chain@.len() implies bucket_of(#[trigger] chain@[t].key@, n) == i by {
                    assert(src[t] == (chain@[t].key@, chain@[t].tuple_id));
                    assert(in_bucket(log, i as int, n).contains(src[t]));
                }
            }
            place_chain(&mut self.buckets, chain, n, i);
            proof {
                assert forall|c: int| 0 <= c < new_size implies (#[trigger] self.buckets@[c])@.map_values(|x: HashEntry| (x.key@, x.tuple_id))
                    == if c % (n as int) < i + 1 {
                    in_bucket(log, c, new_size)
                } else {
                    Seq::<IndexEntry>::empty()
                } by {
                    if c % (n as int) == i {
                        assert(in_bucket(log, c, new_size) == in_bucket(log, c % (n as int), n).filter(
                            |x: IndexEntry| bucket_of(x.0, new_size) == c));
                        assert(start[c]@.map_values(|x: HashEntry| (x.key@, x.tuple_id)) =~= Seq::<IndexEntry>::empty());
                        assert(Seq::<IndexEntry>::empty() + src.filter(|x: IndexEntry| bucket_of(x.0, new_size) == c) =~= src.filter(|x: IndexEntry| bucket_of(x.0, new_size) == c));
                    } else {
                        assert(self.buckets@[c] == start[c]);
                    }
                }
            }
            i = i + 1;
        }
        self.rehash_count = self.rehash_count + 1;
        proof {
            assert forall|c: int| 0 <= c < self.buckets@.len() implies (#[trigger] self.buckets@[c])@.map_values(
                |x: HashEntry| (x.key@, x.tuple_id),
            ) == in_bucket(self.log@, c, self.buckets@.len() as usize) by {
                assert(c % (n as int) < n);
            }
        }
    }

    /// Sets the starting bucket count; outside 4 ..= 65536 it is refused.
    /// An accepted count empties the table.
    pub fn set_initial_buckets(&mut self, initial_buckets: usize) -> (r: Result<(), BlockError>)
        requires
            old(self).wf(),
        ensures
            final(self).wf(),
            r is Ok <==> 4 <= initial_buckets <= 65536,
            r is Ok ==> {
                &&& final(self).spec_initial_buckets() == initial_buckets
                &&& final(self).bucket_count_spec() == initial_buckets
                &&& final(self).entries() == Seq::<IndexEntry>::empty()
            },
            r is Err ==> {
                &&& final(self).spec_initial_buckets() == old(self).spec_initial_buckets()
                &&& final(self).bucket_count_spec() == old(self).bucket_count_spec()
                &&& final(self).entries() == old(self).entries()
            },
            final(self).spec_max_load_permille() == old(self).spec_max_load_permille(),
            final(self).spec_total_keys() == old(self).spec_total_keys(),
            final(self).spec_collision_count() == old(self).spec_collision_count(),
            final(self).spec_rehash_count() == old(self).spec_rehash_count(),
            final(self).spec_lookup_count() == old(self).spec_lookup_count(),
    {
        if initial_buckets < 4 || initial_buckets > 65536 {
            return Err(BlockError::InvalidParameter(String::from_str("initial_buckets must be between 4 and 65536")));
        }
        self.initial_buckets = initial_buckets;
        self.buckets = Self::empty_buckets(initial_buckets);
        self.log = Ghost(Seq::empty());
        proof {
            self.lemma_empty_wf();
        }
        Ok(())
    }

    /// Sets the load-factor limit, in thousandths; outside 100 ..= 2000
    /// (0.1 to 2.0) it is refused.
    pub fn set_max_load_permille(&mut self, permille: usize) -> (r: Result<(), BlockError>)
        requires
            old(self).wf(),
        ensures
            final(self).wf(),
            r is Ok <==> 100 <= permille <= 2000,
            final(self).spec_max_load_permille() == if r is Ok {
                permille
            } else {
                old(self).spec_max_load_permille()
            },
            final(self).entries() == old(self).entries(),
            final(self).bucket_count_spec() == old(self).bucket_count_spec(),
            final(self).spec_initial_buckets() == old(self).spec_initial_buckets(),
            final(self).spec_total_keys() == old(self).spec_total_keys(),
    {
        if permille < 100 || permille > 2000 {
            return Err(BlockError::InvalidParameter(String::from_str("max_load_factor must be between 0.1 and 2.0")));
        }
        self.max_load_permille = permille;
        Ok(())
    }

    /// Sets the column whose values are indexed.
    pub fn set_key_column(&mut self, column: String)
        requires
            old(self).wf(),
        ensures
            final(self).wf(),
            final(self).spec_key_column() == column@,
            final(self).entries() == old(self).entries(),
            final(self).bucket_count_spec() == old(self).bucket_count_spec(),
    {
        self.key_column = column;
    }

    /// The column whose values are indexed.
    pub fn key_column(&self) -> (r: &String)
        ensures
            r@ == self.spec_key_column(),
    {
        &self.key_column
    }

    #[verifier::when_used_as_spec(spec_initial_buckets)]
    pub fn initial_buckets(&self) -> (r: usize)
        ensures
            r == self.spec_initial_buckets(),
    {
        self.initial_buckets
    }

    /// The load-factor limit, in thousandths.
    #[verifier::when_used_as_spec(spec_max_load_permille)]
    pub fn max_load_permille(&self) -> (r: usize)
        ensures
            r == self.spec_max_load_permille(),
    {
        self.max_load_permille
    }

    /// Keys inserted.
    #[verifier::when_used_as_spec(spec_total_keys)]
    pub fn total_keys(&self) -> (r: usize)
        ensures
            r == self.spec_total_keys(),
    {
        self.total_keys
    }

    /// Inserts into a bucket that already held an entry.
    #[verifier::when_used_as_spec(spec_collision_count)]
    pub fn collision_count(&self) -> (r: usize)
        ensures
            r == self.spec_collision_count(),
    {
        self.collision_count
    }

    /// Times the bucket count doubled.
    #[verifier::when_used_as_spec(spec_rehash_count)]
    pub fn rehash_count(&self) -> (r: usize)
        ensures
            r == self.spec_rehash_count(),
    {
        self.rehash_count
    }

    /// Lookups served.
    #[verifier::when_used_as_spec(spec_lookup_count)]
    pub fn lookup_count(&self) -> (r: usize)
        ensures
            r == self.spec_lookup_count(),
    {
        self.lookup_count
    }

    /// The longest chain.
    pub fn max_chain_length(&self) -> (n: usize)
        ensures
            n == longest(self.chain_lengths()),
    {
        let mut n: usize = 0;
        let mut i: usize = 0;
        while i < self.buckets.len()
            invariant
                0 <= i <= self.buckets@.len(),
                self.chain_lengths().len() == self.buckets@.len(),
                n == longest(self.chain_lengths().subrange(0, i as int)),
            decreases self.buckets@.len() - i,
        {
            proof {
                let l = self.chain_lengths();
                assert(l.subrange(0, i as int + 1).drop_last() =~= l.subrange(0, i as int));
                assert(l[i as int] == self.buckets@[i as int]@.len());
            }
            let len = self.buckets[i].len();
            if len > n {
                n = len;
            }
            i = i + 1;
        }
        proof {
            assert(self.chain_lengths().subrange(0, i as int) =~= self.chain_lengths());
        }
        n
    }
}

/// Appends the entries of `chain`, in order, each to its bucket among
/// `2 * n`; all of them belong to bucket `i` among `n`, so only the
/// buckets `c` with `c % n == i` grow.
#[verifier::rlimit(80)]
fn place_chain(buckets: &mut Vec<Vec<HashEntry>>, chain: Vec<HashEntry>, n: usize, i: usize)
    requires
        n > 0,
        old(buckets)@.len() == n * 2,
        forall|t: int| 0 <= t < chain@.len() ==> bucket_of(#[trigger] chain@[t].key@, n) == i,
    ensures
        final(buckets)@.len() == n * 2,
        forall|c: int| 0 <= c < n * 2 && c % (n as int) != i ==> #[trigger] final(buckets)@[c] == old(buckets)@[c],
        forall|c: int| 0 <= c < n * 2 && c % (n as int) == i ==> (#[trigger] final(buckets)@[c])@.map_values(
            |x: HashEntry| (x.key@, x.tuple_id)) == old(buckets)@[c]@.map_values(|x: HashEntry| (x.key@, x.tuple_id))
            + chain@.map_values(|x: HashEntry| (x.key@, x.tuple_id)).filter(|x: IndexEntry| bucket_of(x.0, (n * 2) as usize) == c),
{
    let new_size = buckets.len();
    let ghost src = chain@.map_values(|x: HashEntry| (x.key@, x.tuple_id));
    let ghost start = buckets@;
    let mut chain = chain;
    let total: usize = chain.len();
    let mut k: usize = 0;
    while chain.len() > 0
        invariant
            n > 0,
            new_size == n * 2,
            buckets@.len() == new_size,
            0 <= k <= total,
            total == src.len(),
            forall|t: int| 0 <= t < src.len() ==> bucket_of(#[trigger] src[t].0, n) == i,
            chain@.len() == total - k,
            chain@.map_values(|x: HashEntry| (x.key@, x.tuple_id)) == src.subrange(k as int, total as int),
            forall|c: int| 0 <= c < new_size && c % (n as int) != i ==> #[trigger] buckets@[c] == start[c],
            forall|c: int| 0 <= c < new_size && c % (n as int) == i ==> (#[trigger] buckets@[c])@.map_values(
                |x: HashEntry| (x.key@, x.tuple_id)) == start[c]@.map_values(|x: HashEntry| (x.key@, x.tuple_id))
                + src.subrange(0, k as int).filter(|x: IndexEntry| bucket_of(x.0, new_size) == c),
        decreases chain@.len(),
    {
        let ghost before = buckets@;
        let ghost c0 = chain@;
        proof {
            assert(c0.map_values(|x: HashEntry| (x.key@, x.tuple_id))[0] == src.subrange(k as int, total as int)[0]);
        }
        let entry = chain.remove(0);
        let ghost ev = (entry.key@, entry.tuple_id);
        proof {
            assert(entry == c0[0]);
            assert(ev == src[k as int]);
            assert(chain@ == c0.remove(0));
            assert forall|t: int| 0 <= t < chain@.len() implies (chain@[t].key@, chain@[t].tuple_id) == src[k + 1 + t] by {
                assert(chain@[t] == c0[t + 1]);
                assert(c0.map_values(|x: HashEntry| (x.key@, x.tuple_id))[t + 1] == src.subrange(k as int, total as int)[t + 1]);
            }
            assert(chain@.map_values(|x: HashEntry| (x.key@, x.tuple_id)) =~= src.subrange(k as int + 1, total as int));
            assert(src.subrange(0, k as int + 1) =~= src.subrange(0, k as int).push(ev));
            assert(bucket_of(ev.0, n) == i);
        }
        let h = fnv1a_bytes(14695981039346656037, entry.key.as_slice());
        let idx = (h as usize) % new_size;
        proof {
            let hh = h as usize as int;
            vstd::arithmetic::div_mod::lemma_mod_mod(hh, n as int, 2);
            assert(idx as int == bucket_of(ev.0, new_size));
            assert((idx as int) % (n as int) == i);
        }
        buckets[idx].push(entry);
        proof {
            assert forall|c: int| 0 <= c < new_size && c % (n as int) != i implies #[trigger] buckets@[c] == start[c] by {
                assert(c != idx);
                assert(buckets@[c] == before[c]);
            }
            assert forall|c: int| 0 <= c < new_size && c % (n as int) == i implies (#[trigger] buckets@[c])@.map_values(
                |x: HashEntry| (x.key@, x.tuple_id)) == start[c]@.map_values(|x: HashEntry| (x.key@, x.tuple_id))
                + src.subrange(0, k as int + 1).filter(|x: IndexEntry| bucket_of(x.0, new_size) == c) by {
                src.subrange(0, k as int).lemma_filter_push(ev, |x: IndexEntry| bucket_of(x.0, new_size) == c);
                if c == idx {
                    assert(buckets@[c]@.map_values(|x: HashEntry| (x.key@, x.tuple_id)) =~= before[c]@.map_values(
                        |x: HashEntry| (x.key@, x.tuple_id)).push(ev));
                } else {
                    assert(buckets@[c] == before[c]);
                }
            }
        }
        k = k + 1;
    }
    proof {
        assert(src.subrange(0, k as int) =~= src);
    }
}

/// Byte-for-byte equality of two keys.
fn vec_u8_eq(a: &Vec<u8>, b: &Vec<u8>) -> (r: bool)
    ensures
        r == (a@ == b@),
{
    if a.len() != b.len() {
        return false;
    }
    let mut i: usize = 0;
    while i < a.len()
        invariant
            a@.len() == b@.len(),
            0 <= i <= a@.len(),
            forall|k: int| 0 <= k < i ==> a@[k] == b@[k],
        decreases a@.len() - i,
    {
        if a[i] != b[i] {
            return false;
        }
        i = i + 1;
    }
    proof {
        assert(a@ =~= b@);
    }
    true
}

impl HashIndexBlock {
    fn build_documentation() -> (d: BlockDocumentation)
        ensures
            d.overview@ == "A hash index provides constant-time average-case point lookups by \
                           hashing keys to bucket positions. Collisions are resolved via chaining \
                           (each bucket holds a list of entries). Unlike B-trees, hash indexes \
                           cannot serve range queries."@,
            d.algorithm@ == "Insert: hash key → bucket index, append to chain. If load factor \
                            exceeds threshold, double the bucket count and rehash all entries. \
                            Lookup: hash key → bucket index, scan chain for match."@,
            d.motivation@ == Seq::<char>::empty(),
            d.complexity.time@ == "O(1) average lookup/insert, O(n) worst case with many collisions"@,
            d.complexity.space@ == "O(n) entries + O(b) buckets"@,
            d.use_cases@.len() == 3,
            d.use_cases@[0]@ == "Equality lookups (WHERE id = ?)"@,
            d.use_cases@[1]@ == "Join operations (hash join build side)"@,
            d.use_cases@[2]@ == "Primary key constraint enforcement"@,
            d.tradeoffs@.len() == 3,
            d.tradeoffs@[0]@ == "O(1) lookups but no range scan support"@,
            d.tradeoffs@[1]@ == "Rehashing is expensive (O(n)) but amortized over inserts"@,
            d.tradeoffs@[2]@ == "Performance degrades if hash function has poor distribution"@,
            d.examples@.len() == 2,
            d.examples@[0]@ == "PostgreSQL hash indexes"@,
            d.examples@[1]@ == "In-memory hash tables for hash joins"@,
            d.suggested_questions@.len() == 0,
            d.parameter_guide@.len() == 0,
            d.alternatives@.len() == 0,
    {
        let mut use_cases: Vec<String> = Vec::new();
        use_cases.push(String::from_str("Equality lookups (WHERE id = ?)"));
        use_cases.push(String::from_str("Join operations (hash join build side)"));
        use_cases.push(String::from_str("Primary key constraint enforcement"));
        let mut tradeoffs: Vec<String> = Vec::new();
        tradeoffs.push(String::from_str("O(1) lookups but no range scan support"));
        tradeoffs.push(String::from_str("Rehashing is expensive (O(n)) but amortized over inserts"));
        tradeoffs.push(String::from_str("Performance degrades if hash function has poor distribution"));
        let mut examples: Vec<String> = Vec::new();
        examples.push(String::from_str("PostgreSQL hash indexes"));
        examples.push(String::from_str("In-memory hash tables for hash joins"));
        let mut suggested_questions: Vec<String> = Vec::new();
        let mut parameter_guide: Vec<(String, String)> = Vec::new();
        let mut alternatives: Vec<Alternative> = Vec::new();
        BlockDocumentation {
            overview: String::from_str("A hash index provides constant-time average-case point lookups by \
                           hashing keys to bucket positions. Collisions are resolved via chaining \
                           (each bucket holds a list of entries). Unlike B-trees, hash indexes \
                           cannot serve range queries."),
            algorithm: String::from_str("Insert: hash key → bucket index, append to chain. If load factor \
                            exceeds threshold, double the bucket count and rehash all entries. \
                            Lookup: hash key → bucket index, scan chain for match."),
            complexity: Complexity { time: String::from_str("O(1) average lookup/insert, O(n) worst case with many collisions"), space: String::from_str("O(n) entries + O(b) buckets") },
            use_cases,
            tradeoffs,
            examples,
            motivation: String::new(),
            parameter_guide,
            alternatives,
            suggested_questions,
        }
    }

    fn build_references() -> (r: Vec<Reference>)
        ensures
            r@.len() == 1,
            r@[0].ref_type == ReferenceType::Book,
            r@[0].title@ == "Database Internals by Alex Petrov — Chapter 7: Hash Indexes"@,
            r@[0].url is None,
            r@[0].citation matches Some(t) && t@ == "Petrov, A. (2019). Database Internals. O'Reilly."@,
    {
        let mut r: Vec<Reference> = Vec::new();
        r.push(Reference { ref_type: ReferenceType::Book, title: String::from_str("Database Internals by Alex Petrov — Chapter 7: Hash Indexes"), url: None, citation: Some(String::from_str("Petrov, A. (2019). Database Internals. O'Reilly.")) });
        r
    }

    fn build_metadata() -> (m: BlockMetadata)
        ensures
            m.documentation.overview@ == "A hash index provides constant-time average-case point lookups by \
                           hashing keys to bucket positions. Collisions are resolved via chaining \
                           (each bucket holds a list of entries). Unlike B-trees, hash indexes \
                           cannot serve range queries."@,
            m.references@.len() == 1,
            m.id@ == "hash-index"@,
            m.category == BlockCategory::Index,
            m.name@ == "Hash Index"@,
            m.description@ == "Hash-based index for O(1) point lookups with bucket chaining"@,
            m.version@ == "1.0.0"@,
            m.icon@ == "hash"@,
            m.color@ == "#F59E0B"@,
    {
        BlockMetadata::new(
            "hash-index",
            "Hash Index",
            BlockCategory::Index,
            "Hash-based index for O(1) point lookups with bucket chaining",
            "hash",
            "#F59E0B",
            Self::build_documentation(),
            Self::build_references(),
        )
    }

    fn build_inputs() -> (p: Vec<Port>)
        ensures
            p@.len() == 1,
            p@[0].id@ == "records"@,
    {
        let mut p: Vec<Port> = Vec::new();
        p.push(
            Port::new(
                "records",
                "Records",
                PortDirection::Input,
                true,
                false,
                "Records to index (must contain key_column and _page_id/_slot_id)",
            ),
        );
        p
    }

    fn build_outputs() -> (p: Vec<Port>)
        ensures
            p@.len() == 1,
            p@[0].id@ == "lookup_results"@,
    {
        let mut p: Vec<Port> = Vec::new();
        p.push(
            Port::new(
                "lookup_results",
                "Lookup Results",
                PortDirection::Output,
                false,
                true,
                "Results of point lookups",
            ),
        );
        p
    }

    fn build_metrics() -> (v: Vec<MetricDefinition>)
        ensures
            v@.len() == 7,
            v@[0].id@ == "total_keys"@,
            v@[1].id@ == "bucket_count"@,
            v@[2].id@ == "load_factor"@,
            v@[3].id@ == "lookups"@,
            v@[4].id@ == "collisions"@,
            v@[5].id@ == "rehashes"@,
            v@[6].id@ == "max_chain_len"@,
    {
        let mut v: Vec<MetricDefinition> = Vec::new();
        v.push(
            MetricDefinition::new(
                "total_keys",
                "Total Keys",
                MetricType::Gauge,
                "keys",
                "Number of indexed keys",
                AggregationType::Max,
            ),
        );
        v.push(
            MetricDefinition::new(
                "bucket_count",
                "Bucket Count",
                MetricType::Gauge,
                "buckets",
                "Current number of hash buckets",
                AggregationType::Max,
            ),
        );
        v.push(
            MetricDefinition::new(
                "load_factor",
                "Load Factor",
                MetricType::Gauge,
                "ratio",
                "entries / buckets",
                AggregationType::Max,
            ),
        );
        v.push(
            MetricDefinition::new(
                "lookups",
                "Lookups",
                MetricType::Counter,
                "ops",
                "Point lookups performed",
                AggregationType::Sum,
            ),
        );
        v.push(
            MetricDefinition::new(
                "collisions",
                "Collisions",
                MetricType::Counter,
                "ops",
                "Inserts that hit a non-empty bucket",
                AggregationType::Sum,
            ),
        );
        v.push(
            MetricDefinition::new(
                "rehashes",
                "Rehashes",
                MetricType::Counter,
                "ops",
                "Table resize operations",
                AggregationType::Sum,
            ),
        );
        v.push(
            MetricDefinition::new(
                "max_chain_len",
                "Max Chain Length",
                MetricType::Gauge,
                "entries",
                "Longest bucket chain",
                AggregationType::Max,
            ),
        );
        v
    }

    /// What the block says about itself.
    pub fn metadata(&self) -> (m: &BlockMetadata)
        ensures
            m == self.spec_metadata(),
    {
        &self.metadata
    }

    pub closed spec fn spec_metadata(&self) -> BlockMetadata {
        self.metadata
    }

    /// The block's input ports.
    pub fn inputs(&self) -> (p: &Vec<Port>)
        ensures
            p == self.spec_inputs(),
    {
        &self.input_ports
    }

    pub closed spec fn spec_inputs(&self) -> Vec<Port> {
        self.input_ports
    }

    /// The block's output ports.
    pub fn outputs(&self) -> (p: &Vec<Port>)
        ensures
            p == self.spec_outputs(),
    {
        &self.output_ports
    }

    pub closed spec fn spec_outputs(&self) -> Vec<Port> {
        self.output_ports
    }

    /// The metrics the block reports.
    pub fn metrics(&self) -> (m: &Vec<MetricDefinition>)
        ensures
            m == self.spec_metrics(),
    {
        &self.metric_defs
    }

    pub closed spec fn spec_metrics(&self) -> Vec<MetricDefinition> {
        self.metric_defs
    }
}
} // verus!
