//! LSM Tree Storage Block
//!
//! A log-structured merge tree. Writes go to an in-memory table (one value
//! per key); when it holds `memtable_size` keys it is flushed as a sorted
//! table onto level 0. When level 0 holds `level0_compaction_trigger`
//! tables, a compaction merges them with the next level into one table
//! there, and so on up the levels while a level outgrows its budget. A
//! read checks the in-memory table, then every level from 0 up, newest
//! table first; each table's Bloom filter is probed before the table is
//! searched, so a key whose positions are not all set is surely absent.
use serde_json::Value as JsonValue;
use vstd::multiset::Multiset;
use vstd::prelude::*;
use vstd::string::*;

use crate::common::block::{Alternative, BlockCategory, BlockDocumentation, BlockError, BlockMetadata, Complexity, Reference, ReferenceType};
use crate::common::keyed::{distinct_keys, has_key, key_index, lemma_key_index, lemma_push_row, lemma_update_value, value_of};
use crate::common::metrics::{AggregationType, MetricDefinition, MetricType};
use crate::common::port::{Port, PortDirection};
use crate::categories::text::{decimal, decimal_string, lemma_text_lt_asymmetric, lemma_text_lt_irreflexive, lemma_text_lt_total, lemma_text_lt_transitive, text_less, text_lt};
use crate::common::fnv::{fnv1a_bytes, fnv1a_from, fnv_offset};
use crate::common::json::{clone_value, json_text, json_text_of};
use vstd::utf8::encode_utf8;
use vstd::arithmetic::power2::{lemma2_to64, lemma_pow2_strictly_increases, lemma_pow2_unfold, pow2};

verus! {

broadcast use {vstd::seq_lib::group_to_multiset_ensures, vstd::multiset::group_multiset_axioms};

/// The hash a filter's `seed`-th function gives a key's bytes: FNV-1a from
/// the offset basis moved on by `seed * 2654435761`.
pub open spec fn key_hash(bytes: Seq<u8>, seed: u64) -> u64 {
    fnv1a_from(fnv_offset().wrapping_add((seed * 2654435761) as u64), bytes)
}

/// The bit the `seed`-th function picks for a key.
pub open spec fn key_position(bytes: Seq<u8>, seed: int, num_bits: usize) -> int {
    ((key_hash(bytes, seed as u64) as usize) % num_bits) as int
}

/// All of a key's positions are set.
pub open spec fn key_bits_set(bits: Seq<bool>, bytes: Seq<u8>, num_hashes: int) -> bool {
    forall|i: int| 0 <= i < num_hashes ==> bits[#[trigger] key_position(bytes, i, bits.len() as usize)]
}

/// A Bloom filter over string keys.
pub struct BloomFilter {
    bits: Vec<bool>,
    num_hashes: usize,
}

impl BloomFilter {
    /// The bit array.
    pub closed spec fn spec_bits(&self) -> Seq<bool> {
        self.bits@
    }

    pub closed spec fn spec_num_hashes(&self) -> usize {
        self.num_hashes
    }

    /// At least one bit, and few enough functions that every seed's offset
    /// fits in 64 bits.
    pub open spec fn wf(&self) -> bool {
        &&& self.spec_bits().len() > 0
        &&& self.spec_bits().len() <= usize::MAX
        &&& self.spec_num_hashes() * 2654435761 <= u64::MAX
    }

    /// A filter of `bits_count` clear bits probed by `num_hashes`
    /// functions.
    pub fn with_size(bits_count: usize, num_hashes: usize) -> (f: Self)
        requires
            bits_count > 0,
            num_hashes * 2654435761 <= u64::MAX,
        ensures
            f.wf(),
            f.spec_bits() == Seq::new(bits_count as nat, |i: int| false),
            f.spec_num_hashes() == num_hashes,
    {
        let mut bits: Vec<bool> = Vec::new();
        let mut i: usize = 0;
        while i < bits_count
            invariant
                0 <= i <= bits_count,
                bits@ == Seq::new(i as nat, |j: int| false),
            decreases bits_count - i,
        {
            bits.push(false);
            proof {
                assert(bits@ =~= Seq::new(i as nat + 1, |j: int| false));
            }
            i = i + 1;
        }
        BloomFilter { bits, num_hashes }
    }

    /// The number of bits.
    pub fn bit_count(&self) -> (n: usize)
        ensures
            n == self.spec_bits().len(),
    {
        self.bits.len()
    }

    /// The number of hash functions.
    pub fn num_hashes(&self) -> (n: usize)
        ensures
            n == self.spec_num_hashes(),
    {
        self.num_hashes
    }

    /// The `seed`-th function's hash of `key`.
    pub fn hash(&self, key: &str, seed: usize) -> (h: usize)
        requires
            seed * 2654435761 <= u64::MAX,
        ensures
            h == key_hash(key.spec_bytes(), seed as u64) as usize,
    {
        let start: u64 = 14695981039346656037u64.wrapping_add(seed as u64 * 2654435761);
        let h = fnv1a_bytes(start, key.as_bytes());
        h as usize
    }

    /// Sets every position of `key`.
    pub fn insert(&mut self, key: &str)
        requires
            old(self).wf(),
        ensures
            final(self).wf(),
            final(self).spec_num_hashes() == old(self).spec_num_hashes(),
            final(self).spec_bits().len() == old(self).spec_bits().len(),
            key_bits_set(final(self).spec_bits(), key.spec_bytes(), final(self).spec_num_hashes() as int),
            forall|j: int| 0 <= j < old(self).spec_bits().len() && #[trigger] old(self).spec_bits()[j]
                ==> final(self).spec_bits()[j],
            forall|j: int| 0 <= j < old(self).spec_bits().len() && #[trigger] final(self).spec_bits()[j]
                ==> old(self).spec_bits()[j] || exists|i: int| 0 <= i < old(self).spec_num_hashes()
                && #[trigger] key_position(key.spec_bytes(), i, old(self).spec_bits().len() as usize) == j,
    {
        let n = self.bits.len();
        let mut i: usize = 0;
        while i < self.num_hashes
            invariant
                self.wf(),
                self.num_hashes == old(self).num_hashes,
                self.bits@.len() == n,
                n == old(self).bits@.len(),
                0 <= i <= self.num_hashes,
                forall|s: int| 0 <= s < i ==> self.bits@[#[trigger] key_position(key.spec_bytes(), s, n)],
                forall|j: int| 0 <= j < n && #[trigger] old(self).bits@[j] ==> self.bits@[j],
                forall|j: int| 0 <= j < n && #[trigger] self.bits@[j] ==> old(self).bits@[j] || exists|s: int|
                    0 <= s < i && #[trigger] key_position(key.spec_bytes(), s, n) == j,
            decreases self.num_hashes - i,
        {
            let idx = self.hash(key, i) % n;
            let ghost before = self.bits@;
            self.bits.set(idx, true);
            proof {
                assert(idx as int == key_position(key.spec_bytes(), i as int, n));
                assert forall|s: int| 0 <= s < i + 1 implies self.bits@[#[trigger] key_position(key.spec_bytes(), s, n)] by {
                    if s < i {
                        assert(before[key_position(key.spec_bytes(), s, n)]);
                    }
                }
                assert forall|j: int| 0 <= j < n && #[trigger] self.bits@[j] implies old(self).bits@[j] || exists|s: int|
                    0 <= s < i + 1 && #[trigger] key_position(key.spec_bytes(), s, n) == j by {
                    if j != idx {
                        assert(before[j]);
                        if !old(self).bits@[j] {
                            let s = choose|s: int| 0 <= s < i && key_position(key.spec_bytes(), s, n) == j;
                            assert(0 <= s < i + 1 && key_position(key.spec_bytes(), s, n) == j);
                        }
                    } else {
                        assert(0 <= i < i + 1 && key_position(key.spec_bytes(), i as int, n) == j);
                    }
                }
            }
            i = i + 1;
        }
        proof {
            assert forall|j: int| 0 <= j < n && #[trigger] self.bits@[j] implies old(self).bits@[j] || exists|s: int|
                0 <= s < old(self).spec_num_hashes() && #[trigger] key_position(key.spec_bytes(), s, old(self).spec_bits().len() as usize) == j by {
                if !old(self).bits@[j] {
                    let s = choose|s: int| 0 <= s < i && #[trigger] key_position(key.spec_bytes(), s, n) == j;
                    assert(key_position(key.spec_bytes(), s, old(self).spec_bits().len() as usize) == j);
                }
            }
        }
    }

    /// Whether every position of `key` is set: false means the key was
    /// surely never inserted.
    pub fn might_contain(&self, key: &str) -> (r: bool)
        requires
            self.wf(),
        ensures
            r == key_bits_set(self.spec_bits(), key.spec_bytes(), self.spec_num_hashes() as int),
    {
        let n = self.bits.len();
        let mut i: usize = 0;
        while i < self.num_hashes
            invariant
                self.wf(),
                n == self.bits@.len(),
                0 <= i <= self.num_hashes,
                forall|s: int| 0 <= s < i ==> self.bits@[#[trigger] key_position(key.spec_bytes(), s, n)],
            decreases self.num_hashes - i,
        {
            let idx = self.hash(key, i) % n;
            if !self.bits[idx] {
                proof {
                    assert(idx as int == key_position(key.spec_bytes(), i as int, n));
                    assert(!self.bits@[key_position(key.spec_bytes(), i as int, self.spec_bits().len() as usize)]);
                }
                return false;
            }
            i = i + 1;
        }
        true
    }

    /// A key once inserted is always reported as maybe present: inserting
    /// other keys only sets more bits.
    pub proof fn lemma_no_false_negatives(&self, later: &Self, key: Seq<u8>)
        requires
            key_bits_set(self.spec_bits(), key, self.spec_num_hashes() as int),
            later.spec_bits().len() == self.spec_bits().len(),
            later.spec_num_hashes() == self.spec_num_hashes(),
            forall|j: int| 0 <= j < self.spec_bits().len() && #[trigger] self.spec_bits()[j] ==> later.spec_bits()[j],
            self.wf(),
        ensures
            key_bits_set(later.spec_bits(), key, later.spec_num_hashes() as int),
    {
        assert forall|i: int| 0 <= i < later.spec_num_hashes() implies later.spec_bits()[#[trigger] key_position(key, i, later.spec_bits().len() as usize)] by {
            let p = key_position(key, i, self.spec_bits().len() as usize);
            assert(self.spec_bits()[p]);
        }
    }
}

/// A stored pair as a value: the key's characters and the value.
pub type KV = (Seq<char>, JsonValue);

/// Keys strictly increasing.
pub open spec fn strictly_sorted(s: Seq<KV>) -> bool {
    forall|i: int, j: int| 0 <= i < j < s.len() ==> text_lt((#[trigger] s[i]).0, (#[trigger] s[j]).0)
}

/// The pairs as values.
pub open spec fn kv_view(v: Seq<(String, JsonValue)>) -> Seq<KV> {
    v.map_values(|e: (String, JsonValue)| (e.0@, e.1))
}

/// The length in bytes of a text, as `str::len` reports it: that of its
/// UTF-8 encoding.
pub open spec fn byte_len(s: Seq<char>) -> usize {
    encode_utf8(s).len() as usize
}

/// The bytes a pair counts for: its key's UTF-8 bytes, those of its
/// value's JSON text, and 16 bytes of overhead.
pub open spec fn pair_bytes(kv: KV) -> nat {
    (byte_len(kv.0) + byte_len(json_text_of(kv.1)) + 16) as nat
}

/// The bytes of all the pairs of `s`.
pub open spec fn pairs_bytes(s: Seq<KV>) -> nat
    decreases s.len(),
{
    if s.len() == 0 {
        0
    } else {
        pairs_bytes(s.drop_last()) + pair_bytes(s.last())
    }
}

/// `n`, capped at the largest `usize`.
pub open spec fn capped(n: int) -> usize {
    if n > usize::MAX {
        usize::MAX
    } else if n < 0 {
        0
    } else {
        n as usize
    }
}

/// The value of key `k` in `s`, where some pair has it.
pub open spec fn find_kv(s: Seq<KV>, k: Seq<char>) -> Option<JsonValue> {
    if exists|i: int| 0 <= i < s.len() && s[i].0 == k {
        Some(s[choose|i: int| 0 <= i < s.len() && s[i].0 == k].1)
    } else {
        None
    }
}

proof fn lemma_find_kv(s: Seq<KV>, i: int)
    requires
        strictly_sorted(s),
        0 <= i < s.len(),
    ensures
        find_kv(s, s[i].0) == Some(s[i].1),
{
    let j = choose|j: int| 0 <= j < s.len() && s[j].0 == s[i].0;
    if j != i {
        if j < i {
            assert(text_lt(s[j].0, s[i].0));
        } else {
            assert(text_lt(s[i].0, s[j].0));
        }
        lemma_text_lt_irreflexive(s[i].0);
    }
}

/// Inserts `e` into strictly sorted `v` before the first key above its
/// own, none of the keys being its own.
fn insert_sorted(v: &mut Vec<(String, JsonValue)>, e: (String, JsonValue))
    requires
        strictly_sorted(kv_view(old(v)@)),
        forall|i: int| 0 <= i < old(v)@.len() ==> (#[trigger] old(v)@[i]).0@ != e.0@,
    ensures
        strictly_sorted(kv_view(final(v)@)),
        kv_view(final(v)@).to_multiset() == kv_view(old(v)@).to_multiset().insert((e.0@, e.1)),
        final(v)@.len() == old(v)@.len() + 1,
{
    let ghost s0 = kv_view(v@);
    let mut p: usize = 0;
    while p < v.len() && text_less(v[p].0.as_str(), e.0.as_str())
        invariant
            s0 == kv_view(v@),
            0 <= p <= v@.len(),
            forall|i: int| 0 <= i < p ==> text_lt((#[trigger] s0[i]).0, e.0@),
        decreases v@.len() - p,
    {
        p = p + 1;
    }
    let ghost x = (e.0@, e.1);
    v.insert(p, e);
    proof {
        let s1 = kv_view(v@);
        assert(s1 =~= s0.insert(p as int, x));
        if p < s0.len() {
            assert(s0[p as int].0 != e.0@);
            lemma_text_lt_total(s0[p as int].0, e.0@);
        }
        assert forall|a: int, b: int| 0 <= a < b < s1.len() implies text_lt((#[trigger] s1[a]).0, (#[trigger] s1[b]).0) by {
            if b < p {
                assert(s1[a] == s0[a] && s1[b] == s0[b]);
            } else if b == p {
                assert(s1[a] == s0[a]);
            } else if a == p {
                assert(s1[b] == s0[b - 1]);
                if b - 1 > p {
                    assert(text_lt(s0[p as int].0, s0[b - 1].0));
                    lemma_text_lt_transitive(x.0, s0[p as int].0, s0[b - 1].0);
                }
            } else if a < p {
                assert(s1[a] == s0[a] && s1[b] == s0[b - 1]);
                assert(text_lt(s0[a].0, e.0@));
                if b - 1 == p {
                    lemma_text_lt_transitive(s0[a].0, x.0, s0[b - 1].0);
                } else {
                    assert(text_lt(s0[p as int].0, s0[b - 1].0));
                    lemma_text_lt_transitive(x.0, s0[p as int].0, s0[b - 1].0);
                    lemma_text_lt_transitive(s0[a].0, x.0, s0[b - 1].0);
                }
            } else {
                assert(s1[a] == s0[a - 1] && s1[b] == s0[b - 1]);
            }
        }
    }
}

/// The filter answers "maybe" for a key, given by its characters.
pub open spec fn filter_says(f: BloomFilter, k: Seq<char>) -> bool {
    key_bits_set(f.spec_bits(), encode_utf8(k), f.spec_num_hashes() as int)
}

/// A sorted string table: pairs in strictly increasing key order, with a
/// Bloom filter over the keys and a size estimate.
pub struct SSTable {
    entries: Vec<(String, JsonValue)>,
    bloom: BloomFilter,
    size_bytes: usize,
}

impl SSTable {
    /// The pairs, in key order.
    pub closed spec fn kvs(&self) -> Seq<KV> {
        kv_view(self.entries@)
    }

    /// The table's filter.
    pub closed spec fn filter(&self) -> BloomFilter {
        self.bloom
    }

    /// The table's size in bytes.
    pub closed spec fn size(&self) -> usize {
        self.size_bytes
    }

    /// Keys strictly increasing, and the filter answers "maybe" for each.
    pub open spec fn wf(&self) -> bool {
        &&& strictly_sorted(self.kvs())
        &&& self.filter().wf()
        &&& forall|i: int| 0 <= i < self.kvs().len() ==> filter_says(self.filter(), (#[trigger] self.kvs()[i]).0)
    }

    /// A table of `entries` (distinct keys), sorted, with a filter of
    /// `bits` bits and `hashes` functions holding every key. The size
    /// counts, per pair, the key's bytes, the value's JSON text and 16
    /// bytes of overhead, capped at the largest `usize`.
    pub fn from_entries(entries: Vec<(String, JsonValue)>, bits: usize, hashes: usize) -> (t: Self)
        requires
            bits > 0,
            hashes * 2654435761 <= u64::MAX,
            forall|i: int, j: int| 0 <= i < j < entries@.len() ==> (#[trigger] entries@[i]).0@ != (#[trigger] entries@[j]).0@,
        ensures
            t.wf(),
            t.kvs().to_multiset() == kv_view(entries@).to_multiset(),
            t.filter().spec_bits().len() == bits,
            t.filter().spec_num_hashes() == hashes,
            t.size() == capped(pairs_bytes(kv_view(entries@)) as int),
    {
        let mut sorted: Vec<(String, JsonValue)> = Vec::new();
        let mut bloom = BloomFilter::with_size(bits, hashes);
        let mut size: usize = 0;
        let mut rest = entries;
        let ghost all = kv_view(rest@);
        let ghost mut taken: Seq<KV> = Seq::empty();
        proof {
            assert(kv_view(sorted@) =~= Seq::<KV>::empty());
            assert(all =~= taken + kv_view(rest@));
        }
        while rest.len() > 0
            invariant
                strictly_sorted(kv_view(sorted@)),
                bloom.wf(),
                bloom.spec_bits().len() == bits,
                bloom.spec_num_hashes() == hashes,
                forall|i: int| 0 <= i < sorted@.len() ==> filter_says(bloom, (#[trigger] kv_view(sorted@)[i]).0),
                kv_view(sorted@).to_multiset() == taken.to_multiset(),
                all == taken + kv_view(rest@),
                forall|i: int, j: int| 0 <= i < j < all.len() ==> (#[trigger] all[i]).0 != (#[trigger] all[j]).0,
                taken.len() == sorted@.len(),
                size == capped(pairs_bytes(taken) as int),
            decreases rest@.len(),
        {
            let ghost r0 = kv_view(rest@);
            let e = rest.remove(0);
            let ghost x = (e.0@, e.1);
            proof {
                assert(r0[0] == x);
                assert(kv_view(rest@) =~= r0.drop_first());
                assert(all =~= taken.push(x) + kv_view(rest@));
                // The new key is none of the sorted ones: those came from
                // earlier in `all`.
                assert forall|i: int| 0 <= i < sorted@.len() implies (#[trigger] sorted@[i]).0@ != e.0@ by {
                    let y = kv_view(sorted@)[i];
                    assert(kv_view(sorted@).to_multiset().contains(y));
                    assert(taken.to_multiset().contains(y));
                    assert(taken.contains(y));
                    let t = choose|t: int| 0 <= t < taken.len() && taken[t] == y;
                    assert(all[t] == taken[t]);
                    assert(all[taken.len() as int] == x);
                }
            }
            let ghost b0 = bloom;
            bloom.insert(e.0.as_str());
            proof {
                assert forall|i: int| 0 <= i < sorted@.len() implies filter_says(bloom, (#[trigger] kv_view(sorted@)[i]).0) by {
                    let k = kv_view(sorted@)[i].0;
                    assert(filter_says(b0, k));
                    b0.lemma_no_false_negatives(&bloom, encode_utf8(k));
                }
                assert(filter_says(bloom, x.0));
            }
            let text = json_text(&e.1);
            let ts = text.as_str();
            let text_len = ts.len();
            let ks = e.0.as_str();
            let key_len = ks.len();
            proof {
                assert(ks@ == x.0);
                assert(key_len == byte_len(x.0));
                assert(ts@ == json_text_of(x.1));
                assert(text_len == byte_len(json_text_of(x.1)));
            }
            size = size.saturating_add(key_len).saturating_add(text_len).saturating_add(16);
            proof {
                assert(taken.push(x).drop_last() =~= taken);
                assert(pairs_bytes(taken.push(x)) == pairs_bytes(taken) + pair_bytes(x));
            }
            let ghost before = kv_view(sorted@);
            insert_sorted(&mut sorted, e);
            proof {
                taken = taken.push(x);
                let now = kv_view(sorted@);
                assert forall|i: int| 0 <= i < now.len() implies filter_says(bloom, (#[trigger] now[i]).0) by {
                    assert(now.to_multiset().contains(now[i]));
                    if now[i] != x {
                        assert(before.to_multiset().contains(now[i]));
                        assert(before.contains(now[i]));
                        let t = choose|t: int| 0 <= t < before.len() && before[t] == now[i];
                        assert(filter_says(bloom, before[t].0));
                    }
                }
            }
        }
        proof {
            assert(taken =~= all);
        }
        SSTable { entries: sorted, bloom, size_bytes: size }
    }
}

impl SSTable {
    /// The value stored for `key`, found by binary search.
    pub fn lookup(&self, key: &str) -> (r: Option<&JsonValue>)
        requires
            self.wf(),
        ensures
            match r {
                Some(v) => find_kv(self.kvs(), key@) == Some(*v),
                None => find_kv(self.kvs(), key@) is None,
            },
    {
        let ghost s = self.kvs();
        let mut lo: usize = 0;
        let mut hi: usize = self.entries.len();
        while lo < hi
            invariant
                s == self.kvs(),
                strictly_sorted(s),
                0 <= lo <= hi <= s.len(),
                forall|i: int| 0 <= i < lo ==> text_lt((#[trigger] s[i]).0, key@),
                forall|i: int| hi <= i < s.len() ==> text_lt(key@, (#[trigger] s[i]).0),
            decreases hi - lo,
        {
            let mid = lo + (hi - lo) / 2;
            let k = self.entries[mid].0.as_str();
            proof {
                assert(s[mid as int].0 == k@);
            }
            if text_less(k, key) {
                proof {
                    assert forall|i: int| 0 <= i < mid + 1 implies text_lt((#[trigger] s[i]).0, key@) by {
                        if i < mid {
                            lemma_text_lt_transitive(s[i].0, s[mid as int].0, key@);
                        }
                    }
                }
                lo = mid + 1;
            } else if text_less(key, k) {
                proof {
                    assert forall|i: int| mid <= i < s.len() implies text_lt(key@, (#[trigger] s[i]).0) by {
                        if i > mid {
                            lemma_text_lt_transitive(key@, s[mid as int].0, s[i].0);
                        }
                    }
                }
                hi = mid;
            } else {
                proof {
                    lemma_text_lt_total(k@, key@);
                    lemma_find_kv(s, mid as int);
                }
                return Some(&self.entries[mid].1);
            }
        }
        proof {
            assert forall|i: int| 0 <= i < s.len() implies (#[trigger] s[i]).0 != key@ by {
                if i < lo {
                    lemma_text_lt_irreflexive(key@);
                } else {
                    lemma_text_lt_irreflexive(key@);
                }
            }
        }
        None
    }

    /// Whether the filter answers "maybe" for `key`.
    fn might_contain(&self, key: &str) -> (r: bool)
        requires
            self.wf(),
        ensures
            r == filter_says(self.filter(), key@),
    {
        self.bloom.might_contain(key)
    }

    /// The number of pairs.
    pub fn len(&self) -> (n: usize)
        ensures
            n == self.kvs().len(),
    {
        self.entries.len()
    }
}

/// The tables a read checks, in order: level 0 first, each level newest
/// table (last added) first.
pub open spec fn search_order(levels: Seq<Seq<SSTable>>) -> Seq<SSTable>
    decreases levels.len(),
{
    if levels.len() == 0 {
        Seq::empty()
    } else {
        search_order(levels.drop_last()) + levels.last().reverse()
    }
}

/// A read of `k` over tables in order: the value of the first table whose
/// filter says "maybe" and that holds `k`, with the number of tables the
/// filter ruled out and of those it let through in vain on the way.
pub open spec fn probe(ts: Seq<SSTable>, k: Seq<char>) -> (Option<JsonValue>, nat, nat)
    decreases ts.len(),
{
    if ts.len() == 0 {
        (None, 0, 0)
    } else if !filter_says(ts[0].filter(), k) {
        (probe(ts.drop_first(), k).0, probe(ts.drop_first(), k).1 + 1, probe(ts.drop_first(), k).2)
    } else if find_kv(ts[0].kvs(), k) is Some {
        (find_kv(ts[0].kvs(), k), 0, 0)
    } else {
        (probe(ts.drop_first(), k).0, probe(ts.drop_first(), k).1, probe(ts.drop_first(), k).2 + 1)
    }
}

/// Reading two runs of tables is reading the first, then, where nothing
/// was found, the second.
proof fn lemma_probe_concat(a: Seq<SSTable>, b: Seq<SSTable>, k: Seq<char>)
    ensures
        probe(a + b, k) == if probe(a, k).0 is Some {
            probe(a, k)
        } else {
            (probe(b, k).0, probe(a, k).1 + probe(b, k).1, probe(a, k).2 + probe(b, k).2)
        },
    decreases a.len(),
{
    if a.len() == 0 {
        assert(a + b =~= b);
    } else {
        lemma_probe_concat(a.drop_first(), b, k);
        assert((a + b).drop_first() =~= a.drop_first() + b);
        assert((a + b)[0] == a[0]);
    }
}

/// `a * b`, capped at the largest `usize`.
pub open spec fn capped_mul(a: usize, b: usize) -> usize {
    if a * b > usize::MAX {
        usize::MAX
    } else {
        (a * b) as usize
    }
}

/// `b` to the power `e`, each product capped at the largest `usize`.
pub open spec fn capped_pow(b: usize, e: nat) -> usize
    decreases e,
{
    if e == 0 {
        1
    } else {
        capped_mul(capped_pow(b, (e - 1) as nat), b)
    }
}

/// The most pairs level `level + 1` may hold before it is compacted in
/// turn: the trigger times the ratio to the power `level + 1` times the
/// memtable size, each product capped at the largest `usize` (where the
/// products fit, this is the plain product).
pub open spec fn budget(trigger: usize, ratio: usize, level: nat, memtable_size: usize) -> usize {
    capped_mul(capped_mul(trigger, capped_pow(ratio, level + 1)), memtable_size)
}

/// The value of the first pair with key `k`.
pub open spec fn first_value(s: Seq<KV>, k: Seq<char>) -> Option<JsonValue>
    decreases s.len(),
{
    if s.len() == 0 {
        None
    } else if s[0].0 == k {
        Some(s[0].1)
    } else {
        first_value(s.drop_first(), k)
    }
}

/// The pairs of tables, table after table.
pub open spec fn level_pairs(ts: Seq<SSTable>) -> Seq<KV>
    decreases ts.len(),
{
    if ts.len() == 0 {
        Seq::empty()
    } else {
        level_pairs(ts.drop_last()) + ts.last().kvs()
    }
}

/// `t` holds, in key order, one pair per key of `s`: the first one.
pub open spec fn merged_from(t: SSTable, s: Seq<KV>) -> bool {
    &&& strictly_sorted(t.kvs())
    &&& forall|k: Seq<char>| #[trigger] find_kv(t.kvs(), k) == first_value(s, k)
}

/// One compaction of level `level`: the levels `a` (with an empty level
/// added above the last where needed) become `b`, where the level is
/// empty and the next holds one table merged from the two levels' pairs
/// in the order a read meets them: the level's tables first, newest
/// first, so that each key keeps its newest value.
pub open spec fn merge_step(a: Seq<Seq<SSTable>>, b: Seq<Seq<SSTable>>, level: int) -> bool {
    let ext = if level + 1 >= a.len() {
        a.push(Seq::empty())
    } else {
        a
    };
    &&& 0 <= level < a.len()
    &&& b.len() == ext.len()
    &&& b[level] == Seq::<SSTable>::empty()
    &&& b[level + 1].len() == 1
    &&& merged_from(b[level + 1][0], level_pairs(ext[level].reverse()) + level_pairs(ext[level + 1].reverse()))
    &&& forall|l: int| 0 <= l < b.len() && l != level && l != level + 1 ==> #[trigger] b[l] == ext[l]
}

proof fn lemma_first_value_concat(a: Seq<KV>, b: Seq<KV>, k: Seq<char>)
    ensures
        first_value(a + b, k) == if first_value(a, k) is Some {
            first_value(a, k)
        } else {
            first_value(b, k)
        },
    decreases a.len(),
{
    if a.len() == 0 {
        assert(a + b =~= b);
    } else {
        lemma_first_value_concat(a.drop_first(), b, k);
        assert((a + b).drop_first() =~= a.drop_first() + b);
        assert((a + b)[0] == a[0]);
    }
}

proof fn lemma_first_value_distinct(s: Seq<KV>, k: Seq<char>)
    requires
        distinct_keys(s),
    ensures
        first_value(s, k) == value_of(s, k),
    decreases s.len(),
{
    if s.len() > 0 {
        let t = s.drop_first();
        assert(distinct_keys(t)) by {
            assert forall|a: int, b: int| 0 <= a < t.len() && 0 <= b < t.len() && a != b implies #[trigger] t[a].0 != #[trigger] t[b].0 by {
                assert(t[a] == s[a + 1] && t[b] == s[b + 1]);
            }
        }
        lemma_first_value_distinct(t, k);
        if s[0].0 == k {
            lemma_key_index(s, 0);
        } else {
            if has_key(s, k) {
                let i = key_index(s, k);
                lemma_key_index(s, i);
                assert(i > 0);
                assert(t[i - 1] == s[i]);
                lemma_key_index(t, i - 1);
            }
            if has_key(t, k) {
                let i = key_index(t, k);
                lemma_key_index(t, i);
                assert(s[i + 1] == t[i]);
                lemma_key_index(s, i + 1);
            }
        }
    }
}

/// A strictly sorted table with the pairs of a distinct-keyed list finds
/// each key's value in that list.
proof fn lemma_sorted_finds(t: Seq<KV>, f: Seq<KV>, k: Seq<char>)
    requires
        strictly_sorted(t),
        distinct_keys(f),
        t.to_multiset() == f.to_multiset(),
    ensures
        find_kv(t, k) == value_of(f, k),
{
    if has_key(f, k) {
        let i = key_index(f, k);
        lemma_key_index(f, i);
        assert(f.to_multiset().contains(f[i]));
        assert(t.to_multiset().contains(f[i]));
        assert(t.contains(f[i]));
        let j = choose|j: int| 0 <= j < t.len() && t[j] == f[i];
        lemma_find_kv(t, j);
    } else {
        if exists|i: int| 0 <= i < t.len() && t[i].0 == k {
            let j = choose|j: int| 0 <= j < t.len() && t[j].0 == k;
            assert(t.to_multiset().contains(t[j]));
            assert(f.to_multiset().contains(t[j]));
            assert(f.contains(t[j]));
            let i = choose|i: int| 0 <= i < f.len() && f[i] == t[j];
            assert(f[i].0 == k);
        }
    }
}

/// Appends to `firsts` every pair of `tables`, newest table (last added)
/// first, whose key it does not hold yet.
fn collect_firsts(tables: &Vec<SSTable>, firsts: &mut Vec<(String, JsonValue)>)
    requires
        distinct_keys(kv_view(old(firsts)@)),
    ensures
        distinct_keys(kv_view(final(firsts)@)),
        forall|k: Seq<char>| #[trigger] value_of(kv_view(final(firsts)@), k) == first_value(kv_view(old(firsts)@) + level_pairs(tables@.reverse()), k),
{
    let ghost f0 = kv_view(firsts@);
    let ghost rev = tables@.reverse();
    let mut t: usize = tables.len();
    proof {
        assert(rev.take(0) =~= Seq::<SSTable>::empty());
        assert(f0 + level_pairs(rev.take(0)) =~= f0);
        assert forall|k: Seq<char>| #[trigger] value_of(kv_view(firsts@), k) == first_value(f0 + level_pairs(rev.take(0)), k) by {
            lemma_first_value_distinct(f0, k);
        }
    }
    while t > 0
        invariant
            0 <= t <= tables@.len(),
            rev == tables@.reverse(),
            distinct_keys(kv_view(firsts@)),
            forall|k: Seq<char>| #[trigger] value_of(kv_view(firsts@), k) == first_value(f0 + level_pairs(rev.take(tables@.len() - t)), k),
        decreases t,
    {
        let ghost done = tables@.len() - t;
        let entries = &tables[t - 1].entries;
        let ghost lp = level_pairs(rev.take(done));
        let ghost tk = tables@[t - 1].kvs();
        proof {
            assert(rev[done] == tables@[t - 1]);
            assert(rev.take(done + 1).drop_last() =~= rev.take(done));
            assert(level_pairs(rev.take(done + 1)) == lp + tk);
            assert(kv_view(entries@) == tk);
        }
        let mut e: usize = 0;
        while e < entries.len()
            invariant
                0 <= e <= entries@.len(),
                tk == kv_view(entries@),
                distinct_keys(kv_view(firsts@)),
                forall|k: Seq<char>| #[trigger] value_of(kv_view(firsts@), k) == first_value(f0 + lp + tk.take(e as int), k),
            decreases entries@.len() - e,
        {
            let name = &entries[e].0;
            let ghost fv = kv_view(firsts@);
            let ghost x = tk[e as int];
            let ghost prev = f0 + lp + tk.take(e as int);
            assert(forall|k: Seq<char>| #[trigger] value_of(fv, k) == first_value(prev, k));
            proof {
                assert(seq![x][0] == x);
                assert(seq![x].drop_first() =~= Seq::<KV>::empty());
                assert forall|k: Seq<char>| #[trigger] first_value(seq![x], k) == if x.0 == k {
                    Some(x.1)
                } else {
                    None::<JsonValue>
                } by {
                    assert(first_value(seq![x].drop_first(), k) == None::<JsonValue>);
                }
                assert(tk.take(e as int + 1) =~= tk.take(e as int) + seq![x]);
                assert(f0 + lp + tk.take(e as int + 1) =~= (f0 + lp + tk.take(e as int)) + seq![x]);
            }
            let mut i: usize = 0;
            while i < firsts.len() && firsts[i].0 != *name
                invariant
                    fv == kv_view(firsts@),
                    0 <= i <= firsts@.len(),
                    forall|j: int| 0 <= j < i ==> fv[j].0 != name@,
                decreases firsts@.len() - i,
            {
                i = i + 1;
            }
            if i == firsts.len() {
                let pair = (name.clone(), clone_value(&entries[e].1));
                firsts.push(pair);
                proof {
                    assert(x == (name@, entries@[e as int].1));
                    assert(!has_key(fv, x.0));
                    assert(kv_view(firsts@) =~= fv.push(x));
                    lemma_push_row(fv, x);
                    assert forall|k: Seq<char>| #[trigger] value_of(kv_view(firsts@), k) == first_value(f0 + lp + tk.take(e as int + 1), k) by {
                        lemma_first_value_concat(prev, seq![x], k);
                        assert(value_of(fv, k) == first_value(prev, k));
                    }
                }
            } else {
                proof {
                    lemma_key_index(fv, i as int);
                    assert forall|k: Seq<char>| #[trigger] value_of(kv_view(firsts@), k) == first_value(f0 + lp + tk.take(e as int + 1), k) by {
                        lemma_first_value_concat(prev, seq![x], k);
                        assert(value_of(fv, k) == first_value(prev, k));
                        if k == x.0 {
                            assert(fv[i as int].0 == name@);
                            assert(value_of(fv, k) is Some);
                        }
                    }
                }
            }
            e = e + 1;
        }
        proof {
            assert(tk.take(e as int) =~= tk);
            assert(f0 + lp + tk =~= f0 + (lp + tk));
        }
        t = t - 1;
    }
    proof {
        assert(rev.take(tables@.len() as int) =~= rev);
    }
}

/// A log-structured merge tree of JSON values under string keys.
pub struct LSMTreeBlock {
    metadata: BlockMetadata,
    input_ports: Vec<Port>,
    output_ports: Vec<Port>,
    metric_defs: Vec<MetricDefinition>,
    memtable_size: usize,
    level0_compaction_trigger: usize,
    size_ratio: usize,
    memtable: Vec<(String, JsonValue)>,
    levels: Vec<Vec<SSTable>>,
    flush_count: usize,
    compaction_count: usize,
    bloom_true_negatives: usize,
    bloom_false_positives: usize,
    total_bytes_written: usize,
    user_bytes_written: usize,
}

impl LSMTreeBlock {
    /// The in-memory pairs, one per key.
    pub closed spec fn mem(&self) -> Seq<KV> {
        kv_view(self.memtable@)
    }

    /// The tables of each level, oldest first.
    pub closed spec fn tables(&self) -> Seq<Seq<SSTable>> {
        self.levels@.map_values(|l: Vec<SSTable>| l@)
    }

    /// What a read of `k` returns.
    pub open spec fn read(&self, k: Seq<char>) -> Option<JsonValue> {
        match value_of(self.mem(), k) {
            Some(v) => Some(v),
            None => probe(search_order(self.tables()), k).0,
        }
    }

    pub closed spec fn spec_memtable_size(&self) -> usize {
        self.memtable_size
    }

    pub closed spec fn spec_trigger(&self) -> usize {
        self.level0_compaction_trigger
    }

    pub closed spec fn spec_size_ratio(&self) -> usize {
        self.size_ratio
    }

    pub closed spec fn spec_flush_count(&self) -> usize {
        self.flush_count
    }

    pub closed spec fn spec_compaction_count(&self) -> usize {
        self.compaction_count
    }

    pub closed spec fn spec_true_negatives(&self) -> usize {
        self.bloom_true_negatives
    }

    pub closed spec fn spec_false_positives(&self) -> usize {
        self.bloom_false_positives
    }

    /// One in-memory value per key; every table well formed; at least one
    /// level; a memtable of at least one key, a trigger of at least one
    /// table and a size ratio of at least 2.
    pub closed spec fn wf(&self) -> bool {
        &&& distinct_keys(self.mem())
        &&& self.levels@.len() >= 1
        &&& tables_wf(self.tables())
        &&& self.memtable_size >= 1
        &&& self.level0_compaction_trigger >= 1
        &&& self.size_ratio >= 2
    }

    /// An empty tree with the given memtable size, level-0 trigger and
    /// size ratio, and four empty levels.
    pub fn with_sizes(memtable_size: usize, level0_compaction_trigger: usize, size_ratio: usize) -> (t: Self)
        requires
            memtable_size >= 1,
            level0_compaction_trigger >= 1,
            size_ratio >= 2,
        ensures
            t.wf(),
            t.mem() == Seq::<KV>::empty(),
            t.tables() == Seq::new(4, |i: int| Seq::<SSTable>::empty()),
            t.spec_memtable_size() == memtable_size,
            t.spec_trigger() == level0_compaction_trigger,
            t.spec_size_ratio() == size_ratio,
            t.spec_flush_count() == 0,
            t.spec_compaction_count() == 0,
            t.spec_true_negatives() == 0,
            t.spec_false_positives() == 0,
            t.spec_metadata().id@ == "lsm-tree-storage"@,
            t.spec_metadata().category == BlockCategory::Storage,
    {
        let mut levels: Vec<Vec<SSTable>> = Vec::new();
        levels.push(Vec::new());
        levels.push(Vec::new());
        levels.push(Vec::new());
        levels.push(Vec::new());
        let t = Self {
            metadata: Self::build_metadata(),
            input_ports: Self::build_inputs(),
            output_ports: Self::build_outputs(),
            metric_defs: Self::build_metrics(),
            memtable_size,
            level0_compaction_trigger,
            size_ratio,
            memtable: Vec::new(),
            levels,
            flush_count: 0,
            compaction_count: 0,
            bloom_true_negatives: 0,
            bloom_false_positives: 0,
            total_bytes_written: 0,
            user_bytes_written: 0,
        };
        proof {
            assert(t.mem() =~= Seq::<KV>::empty());
            assert(t.tables() =~= Seq::new(4, |i: int| Seq::<SSTable>::empty()));
        }
        t
    }

    /// A tree with a memtable of 1000 keys, compaction at 4 level-0 tables
    /// and a size ratio of 10.
    pub fn new() -> (t: Self)
        ensures
            t.wf(),
            t.mem() == Seq::<KV>::empty(),
            t.spec_memtable_size() == 1000,
            t.spec_trigger() == 4,
            t.spec_size_ratio() == 10,
            t.spec_flush_count() == 0,
            t.spec_compaction_count() == 0,
    {
        Self::with_sizes(1000, 4, 10)
    }

    /// Reads `key`: the in-memory value, else the value of the first table
    /// in search order whose filter lets the key through and that holds
    /// it. Tables the filter rules out, and those it lets through in vain,
    /// are counted (saturating).
    pub fn get(&mut self, key: &str) -> (r: Option<JsonValue>)
        requires
            old(self).wf(),
        ensures
            final(self).wf(),
            r == old(self).read(key@),
            final(self).mem() == old(self).mem(),
            final(self).tables() == old(self).tables(),
            value_of(old(self).mem(), key@) is Some ==> {
                &&& final(self).spec_true_negatives() == old(self).spec_true_negatives()
                &&& final(self).spec_false_positives() == old(self).spec_false_positives()
            },
            value_of(old(self).mem(), key@) is None ==> {
                &&& final(self).spec_true_negatives() == capped(old(self).spec_true_negatives() + probe(search_order(old(self).tables()), key@).1)
                &&& final(self).spec_false_positives() == capped(old(self).spec_false_positives() + probe(search_order(old(self).tables()), key@).2)
            },
            final(self).spec_flush_count() == old(self).spec_flush_count(),
            final(self).spec_compaction_count() == old(self).spec_compaction_count(),
            final(self).spec_user_bytes() == old(self).spec_user_bytes(),
            final(self).spec_total_bytes() == old(self).spec_total_bytes(),
            final(self).spec_memtable_size() == old(self).spec_memtable_size(),
            final(self).spec_trigger() == old(self).spec_trigger(),
            final(self).spec_size_ratio() == old(self).spec_size_ratio(),
    {
        let k = key.to_owned();
        let mut i: usize = 0;
        while i < self.memtable.len()
            invariant
                *self == *old(self),
                k@ == key@,
                self.wf(),
                distinct_keys(self.mem()),
                0 <= i <= self.memtable@.len(),
                self.mem().len() == self.memtable@.len(),
                forall|j: int| 0 <= j < i ==> self.mem()[j].0 != k@,
            decreases self.memtable@.len() - i,
        {
            if self.memtable[i].0 == k {
                proof {
                    assert(self.mem()[i as int] == (self.memtable@[i as int].0@, self.memtable@[i as int].1));
                    assert(k@ == key@);
                    lemma_key_index(self.mem(), i as int);
                    assert(self.mem()[i as int].0 == key@);
                    assert(self.mem()[i as int].1 == self.memtable@[i as int].1);
                }
                return Some(clone_value(&self.memtable[i].1));
            }
            i = i + 1;
        }
        proof {
            assert(!has_key(self.mem(), k@));
            assert(value_of(old(self).mem(), key@) is None);
            assert(all_take_zero(self.tables()));
        }
        let ghost all = self.tables();
        let mut l: usize = 0;
        while l < self.levels.len()
            invariant
                all == self.tables(),
                all == old(self).tables(),
                value_of(old(self).mem(), key@) is None,
                self.wf(),
                self.memtable == old(self).memtable,
                self.levels == old(self).levels,
                self.flush_count == old(self).flush_count,
                self.compaction_count == old(self).compaction_count,
                self.user_bytes_written == old(self).user_bytes_written,
                self.total_bytes_written == old(self).total_bytes_written,
                self.memtable_size == old(self).memtable_size,
                self.level0_compaction_trigger == old(self).level0_compaction_trigger,
                self.size_ratio == old(self).size_ratio,
                0 <= l <= all.len(),
                probe(search_order(all.take(l as int)), key@).0 is None,
                self.bloom_true_negatives == capped(old(self).bloom_true_negatives + probe(search_order(all.take(l as int)), key@).1),
                self.bloom_false_positives == capped(old(self).bloom_false_positives + probe(search_order(all.take(l as int)), key@).2),
                probe(search_order(all.take(l as int)), key@).1 <= search_order(all.take(l as int)).len(),
                probe(search_order(all.take(l as int)), key@).2 <= search_order(all.take(l as int)).len(),
                search_order(all.take(l as int)).len() <= search_order(all).len(),
            decreases all.len() - l,
        {
            let level = &self.levels[l];
            let ghost lv = all[l as int];
            let ghost done = search_order(all.take(l as int));
            proof {
                assert(level@ == lv);
                assert(all.take(l as int + 1).drop_last() =~= all.take(l as int));
                assert(search_order(all.take(l as int + 1)) == done + lv.reverse());
                lemma_probe_concat(done, lv.reverse(), key@);
                lemma_search_order_prefix(all, l as int + 1);
            }
            let found = probe_level(level, key, &mut self.bloom_true_negatives, &mut self.bloom_false_positives);
            match found {
                Some(v) => {
                    proof {
                        lemma_search_order_split(all, l as int);
                        lemma_probe_concat(done + lv.reverse(), search_order_after(all, l as int), key@);
                    }
                    return Some(v);
                },
                None => {
                    proof {
                        lemma_probe_bounds(search_order(all.take(l as int + 1)), key@);
                    }
                },
            }
            l = l + 1;
        }
        proof {
            assert(all.take(l as int) =~= all);
        }
        None
    }
}

/// `a * b`, capped at the largest `usize`.
fn mul_capped(a: usize, b: usize) -> (r: usize)
    ensures
        r == capped_mul(a, b),
{
    match a.checked_mul(b) {
        Some(x) => x,
        None => usize::MAX,
    }
}

/// The budget of level `level + 1`.
fn level_budget(trigger: usize, ratio: usize, level: usize, memtable_size: usize) -> (b: usize)
    requires
        level < usize::MAX,
    ensures
        b == budget(trigger, ratio, level as nat, memtable_size),
{
    let mut p: usize = 1;
    let mut i: usize = 0;
    while i <= level
        invariant
            level < usize::MAX,
            0 <= i <= level + 1,
            p == capped_pow(ratio, i as nat),
        decreases level + 1 - i,
    {
        p = mul_capped(p, ratio);
        i = i + 1;
    }
    mul_capped(mul_capped(trigger, p), memtable_size)
}

/// Probes the tables of one level, newest first, counting the tables the
/// filter rules out and those it lets through in vain.
fn probe_level(level: &Vec<SSTable>, key: &str, tn: &mut usize, fp: &mut usize) -> (r: Option<JsonValue>)
    requires
        forall|t: int| 0 <= t < level@.len() ==> (#[trigger] level@[t]).wf(),
    ensures
        r == probe(level@.reverse(), key@).0,
        *final(tn) == capped(*old(tn) + probe(level@.reverse(), key@).1),
        *final(fp) == capped(*old(fp) + probe(level@.reverse(), key@).2),
{
    let ghost lv = level@;
    let mut t: usize = level.len();
    proof {
        assert(lv.reverse().take(0) =~= Seq::<SSTable>::empty());
    }
    while t > 0
        invariant
            lv == level@,
            forall|x: int| 0 <= x < lv.len() ==> (#[trigger] lv[x]).wf(),
            0 <= t <= lv.len(),
            probe(lv.reverse().take(lv.len() - t), key@).0 is None,
            *tn == capped(*old(tn) + probe(lv.reverse().take(lv.len() - t), key@).1),
            *fp == capped(*old(fp) + probe(lv.reverse().take(lv.len() - t), key@).2),
        decreases t,
    {
        let sst = &level[t - 1];
        let ghost pre = lv.reverse().take(lv.len() - t);
        proof {
            assert(lv.reverse()[lv.len() - t] == lv[t - 1]);
            assert(lv.reverse().take(lv.len() - t + 1) =~= pre + seq![*sst]);
            lemma_probe_concat(pre, seq![*sst], key@);
            assert(seq![*sst].drop_first() =~= Seq::<SSTable>::empty());
            lemma_probe_bounds(pre, key@);
            assert(lv.reverse() =~= (pre + seq![*sst]) + lv.reverse().skip(lv.len() - t + 1));
            lemma_probe_concat(pre + seq![*sst], lv.reverse().skip(lv.len() - t + 1), key@);
        }
        let ghost one = seq![*sst];
        proof {
            assert(one[0] == *sst);
            assert(one.drop_first() =~= Seq::<SSTable>::empty());
            assert(probe(Seq::<SSTable>::empty(), key@) == (None::<JsonValue>, 0nat, 0nat));
        }
        if !sst.might_contain(key) {
            proof {
                assert(probe(one, key@) == (None::<JsonValue>, 1nat, 0nat));
            }
            *tn = tn.saturating_add(1);
        } else {
            match sst.lookup(key) {
                Some(v) => {
                    proof {
                        assert(probe(one, key@) == (Some(*v), 0nat, 0nat));
                    }
                    return Some(clone_value(v));
                },
                None => {
                    proof {
                        assert(probe(one, key@) == (None::<JsonValue>, 0nat, 1nat));
                    }
                    *fp = fp.saturating_add(1);
                },
            }
        }
        t = t - 1;
    }
    proof {
        assert(lv.reverse().take(lv.len() as int) =~= lv.reverse());
    }
    None
}

/// No levels are checked before the first.
pub open spec fn all_take_zero(levels: Seq<Seq<SSTable>>) -> bool {
    search_order(levels.take(0)) == Seq::<SSTable>::empty()
}

impl LSMTreeBlock {
    /// Compacts level `level`: its tables and those of the next level
    /// (added where missing) become one table on the next level, keeping
    /// for each key its newest value: the first pair met, the level's
    /// tables first, newest first. The new table's filter is sized by `sizing` for its number
    /// of pairs.
    fn compact_one<F: Fn(usize) -> (usize, usize)>(&mut self, level: usize, sizing: &F)
        requires
            old(self).wf(),
            level < old(self).tables().len(),
            level + 1 < usize::MAX,
            old(self).spec_compaction_count() < usize::MAX,
            forall|n: usize| #[trigger] sizing.requires((n,)),
            forall|n: usize, r: (usize, usize)| #[trigger] sizing.ensures((n,), r) ==> r.0 > 0 && r.1 <= 10,
        ensures
            final(self).wf(),
            merge_step(old(self).tables(), final(self).tables(), level as int),
            final(self).mem() == old(self).mem(),
            final(self).spec_compaction_count() == old(self).spec_compaction_count() + 1,
            final(self).spec_flush_count() == old(self).spec_flush_count(),
            final(self).spec_true_negatives() == old(self).spec_true_negatives(),
            final(self).spec_false_positives() == old(self).spec_false_positives(),
            final(self).spec_memtable_size() == old(self).spec_memtable_size(),
            final(self).spec_trigger() == old(self).spec_trigger(),
            final(self).spec_size_ratio() == old(self).spec_size_ratio(),
            final(self).spec_user_bytes() == old(self).spec_user_bytes(),
            final(self).spec_total_bytes() == capped(old(self).spec_total_bytes() + final(self).tables()[level + 1][0].size()),
    {
        if level + 1 >= self.levels.len() {
            self.levels.push(Vec::new());
            proof {
                assert(self.tables() =~= old(self).tables().push(Seq::<SSTable>::empty()));
            }
        }
        let ghost ext = self.tables();
        let mut firsts: Vec<(String, JsonValue)> = Vec::new();
        proof {
            assert(distinct_keys(kv_view(firsts@))) by {
                assert(kv_view(firsts@) =~= Seq::<KV>::empty());
            }
        }
        collect_firsts(&self.levels[level], &mut firsts);
        let ghost f1 = kv_view(firsts@);
        collect_firsts(&self.levels[level + 1], &mut firsts);
        let ghost f2 = kv_view(firsts@);
        proof {
            assert(self.levels@[level as int]@ == ext[level as int]);
            assert(self.levels@[level as int + 1]@ == ext[level as int + 1]);
            assert(Seq::<KV>::empty() + level_pairs(ext[level as int].reverse()) =~= level_pairs(ext[level as int].reverse()));
            assert forall|k: Seq<char>| #[trigger] value_of(f2, k) == first_value(level_pairs(ext[level as int].reverse()) + level_pairs(ext[level as int + 1].reverse()), k) by {
                lemma_first_value_concat(f1, level_pairs(ext[level as int + 1].reverse()), k);
                lemma_first_value_concat(level_pairs(ext[level as int].reverse()), level_pairs(ext[level as int + 1].reverse()), k);
                lemma_first_value_distinct(f1, k);
            }
        }
        let ghost before_set = self.tables();
        self.levels.set(level, Vec::new());
        self.levels.set(level + 1, Vec::new());
        let n = firsts.len();
        let sizes = sizing(n);
        let bits = sizes.0;
        let hashes = sizes.1;
        proof {
            assert forall|i: int, j: int| 0 <= i < j < firsts@.len() implies (#[trigger] firsts@[i]).0@ != (#[trigger] firsts@[j]).0@ by {
                assert(f2[i].0 == firsts@[i].0@ && f2[j].0 == firsts@[j].0@);
            }
        }
        let sst = SSTable::from_entries(firsts, bits, hashes);
        proof {
            assert forall|k: Seq<char>| #[trigger] find_kv(sst.kvs(), k) == first_value(level_pairs(ext[level as int].reverse()) + level_pairs(ext[level as int + 1].reverse()), k) by {
                lemma_sorted_finds(sst.kvs(), f2, k);
            }
        }
        self.total_bytes_written = self.total_bytes_written.saturating_add(sst.size_bytes);
        self.levels[level + 1].push(sst);
        self.compaction_count = self.compaction_count + 1;
        proof {
            let b = self.tables();
            assert(b[level as int + 1] =~= seq![sst]);
            assert(b[level as int] =~= Seq::<SSTable>::empty());
            assert forall|l: int| 0 <= l < b.len() && l != level && l != level + 1 implies #[trigger] b[l] == ext[l] by {
                assert(b[l] == before_set[l]);
            }
            assert forall|l: int, t: int| 0 <= l < b.len() && 0 <= t < b[l].len() implies (#[trigger] b[l][t]).wf() by {
                if l != level && l != level + 1 {
                    assert(b[l] == ext[l]);
                    if l < old(self).tables().len() {
                        assert(ext[l] == old(self).tables()[l]);
                    }
                }
            }
        }
    }
}

/// The compactions a flush sets off. `trace[0]` are the levels once the
/// new table is on level 0; entry `i + 1` follows from entry `i` by a
/// compaction of level `i`, and every table on the way is well formed.
/// A flush sets off at most 64 compactions: from level 63 on, a level's
/// budget is the largest `usize`. The first compaction comes when level 0 holds
/// `trigger` tables; another follows while the table a compaction made
/// holds more pairs than the budget of its level.
pub open spec fn compaction_trace(trace: Seq<Seq<Seq<SSTable>>>, trigger: usize, ratio: usize, memtable_size: usize) -> bool {
    &&& 1 <= trace.len() <= 65
    &&& trace[0].len() >= 1
    &&& (trace.len() == 1 <==> trace[0][0].len() < trigger)
    &&& forall|i: int| 0 <= i < trace.len() - 1 ==> #[trigger] merge_step(trace[i], trace[i + 1], i)
    &&& forall|i: int| 0 <= i < trace.len() ==> tables_wf(#[trigger] trace[i])
    &&& forall|i: int| 0 <= i < trace.len() - 2 ==> (#[trigger] trace[i + 1])[i + 1][0].kvs().len() > budget(trigger, ratio, i as nat, memtable_size)
    &&& trace.len() > 1 ==> trace.last()[trace.len() - 1][0].kvs().len() <= budget(trigger, ratio, (trace.len() - 2) as nat, memtable_size)
}

/// `b` is `a` after a flush: the in-memory pairs became one table on top
/// of level 0, in key order, and the compactions it set off ran; the
/// bytes of each table made were counted as written.
pub open spec fn flushed(a: LSMTreeBlock, b: LSMTreeBlock) -> bool {
    &&& b.mem() == Seq::<KV>::empty()
    &&& b.spec_flush_count() == a.spec_flush_count() + 1
    &&& exists|t: SSTable, trace: Seq<Seq<Seq<SSTable>>>| {
        &&& strictly_sorted(t.kvs())
        &&& t.kvs().to_multiset() == a.mem().to_multiset()
        &&& t.size() == capped(pairs_bytes(a.mem()) as int)
        &&& trace[0] == a.tables().update(0, a.tables()[0].push(t))
        &&& compaction_trace(trace, a.spec_trigger(), a.spec_size_ratio(), a.spec_memtable_size())
        &&& b.tables() == trace.last()
        &&& b.spec_compaction_count() == a.spec_compaction_count() + trace.len() - 1
        &&& b.spec_total_bytes() == capped(a.spec_total_bytes() + t.size() + trace_bytes(trace))
    }
}

/// The sizes of the tables the compactions of a trace made.
pub open spec fn trace_bytes(trace: Seq<Seq<Seq<SSTable>>>) -> nat
    decreases trace.len(),
{
    if trace.len() <= 1 {
        0
    } else {
        trace_bytes(trace.drop_last()) + trace.last()[trace.len() - 1][0].size() as nat
    }
}

proof fn lemma_capped_pow_doubles(r: usize, e: nat)
    requires
        r >= 2,
    ensures
        capped_pow(r, e) >= if pow2(e) > usize::MAX {
            usize::MAX as nat
        } else {
            pow2(e)
        },
    decreases e,
{
    if e == 0 {
        lemma2_to64();
    } else {
        lemma_capped_pow_doubles(r, (e - 1) as nat);
        lemma_pow2_unfold(e);
        let p = capped_pow(r, (e - 1) as nat);
        assert(p * r >= 2 * p) by (nonlinear_arith)
            requires r >= 2, p >= 0;
    }
}

/// From level 63 on, every budget is the largest `usize`.
proof fn lemma_budget_saturates(trigger: usize, ratio: usize, level: nat, memtable_size: usize)
    requires
        trigger >= 1,
        ratio >= 2,
        memtable_size >= 1,
        level + 1 >= 64,
    ensures
        budget(trigger, ratio, level, memtable_size) == usize::MAX,
{
    lemma_capped_pow_doubles(ratio, level + 1);
    lemma2_to64();
    if level + 1 > 64 {
        lemma_pow2_strictly_increases(64, level + 1);
    }
    let p = capped_pow(ratio, level + 1);
    assert(p == usize::MAX);
    assert(trigger * p >= p) by (nonlinear_arith)
        requires trigger >= 1, p >= 0;
    let q = capped_mul(trigger, p);
    assert(q == usize::MAX);
    assert(q * memtable_size >= q) by (nonlinear_arith)
        requires memtable_size >= 1, q >= 0;
}

impl LSMTreeBlock {
    /// Every counter and setting is as in `other`, but for the flush and
    /// compaction counts and the bytes written.
    pub open spec fn same_settings(&self, other: Self) -> bool {
        &&& self.spec_memtable_size() == other.spec_memtable_size()
        &&& self.spec_trigger() == other.spec_trigger()
        &&& self.spec_size_ratio() == other.spec_size_ratio()
        &&& self.spec_true_negatives() == other.spec_true_negatives()
        &&& self.spec_false_positives() == other.spec_false_positives()
    }

    /// Flushes the in-memory pairs, if any, as a sorted table on top of
    /// level 0, its filter sized by `sizing`, then runs the compactions
    /// this sets off.
    pub fn flush_memtable<F: Fn(usize) -> (usize, usize)>(&mut self, sizing: &F)
        requires
            old(self).wf(),
            old(self).spec_flush_count() < usize::MAX,
            old(self).spec_compaction_count() + 64 <= usize::MAX,
            forall|n: usize| #[trigger] sizing.requires((n,)),
            forall|n: usize, r: (usize, usize)| #[trigger] sizing.ensures((n,), r) ==> r.0 > 0 && r.1 <= 10,
        ensures
            final(self).wf(),
            old(self).mem().len() == 0 ==> *final(self) == *old(self),
            old(self).mem().len() > 0 ==> flushed(*old(self), *final(self)),
            final(self).same_settings(*old(self)),
            final(self).spec_user_bytes() == old(self).spec_user_bytes(),
    {
        if self.memtable.len() == 0 {
            return;
        }
        let ghost a = *self;
        let mut entries: Vec<(String, JsonValue)> = Vec::new();
        core::mem::swap(&mut entries, &mut self.memtable);
        let n = entries.len();
        let sizes = sizing(n);
        proof {
            assert(kv_view(entries@) == a.mem());
            assert forall|i: int, j: int| 0 <= i < j < entries@.len() implies (#[trigger] entries@[i]).0@ != (#[trigger] entries@[j]).0@ by {
                assert(a.mem()[i].0 == entries@[i].0@ && a.mem()[j].0 == entries@[j].0@);
            }
        }
        let sst = SSTable::from_entries(entries, sizes.0, sizes.1);
        let ghost t = sst;
        self.total_bytes_written = self.total_bytes_written.saturating_add(sst.size_bytes);
        self.levels[0].push(sst);
        self.flush_count = self.flush_count + 1;
        let ghost mut trace = seq![self.tables()];
        proof {
            assert(self.mem() =~= Seq::<KV>::empty());
            assert(self.tables() =~= a.tables().update(0, a.tables()[0].push(t)));
            assert forall|l: int, x: int| 0 <= l < self.tables().len() && 0 <= x < self.tables()[l].len() implies (#[trigger] self.tables()[l][x]).wf() by {
                if !(l == 0 && x == a.tables()[0].len()) {
                    assert(self.tables()[l][x] == a.tables()[l][x]);
                }
            }
        }
        if self.levels[0].len() >= self.level0_compaction_trigger {
            let mut level: usize = 0;
            loop
                invariant_except_break
                    self.wf(),
                    self.mem() == Seq::<KV>::empty(),
                    self.flush_count == a.flush_count + 1,
                    self.same_settings(a),
                    self.user_bytes_written == a.user_bytes_written,
                    self.total_bytes_written == capped(a.total_bytes_written + t.size() + trace_bytes(trace)),
                    trace.len() == level + 1,
                    trace[0] == a.tables().update(0, a.tables()[0].push(t)),
                    trace[0][0].len() >= self.level0_compaction_trigger,
                    trace[0].len() >= 1,
                    self.tables() == trace.last(),
                    level < self.tables().len(),
                    level < 64,
                    self.compaction_count == a.compaction_count + level,
                    a.compaction_count + 64 <= usize::MAX,
                    forall|n: usize| #[trigger] sizing.requires((n,)),
                    forall|n: usize, r: (usize, usize)| #[trigger] sizing.ensures((n,), r) ==> r.0 > 0 && r.1 <= 10,
                    forall|i: int| 0 <= i < trace.len() - 1 ==> #[trigger] merge_step(trace[i], trace[i + 1], i),
                    forall|i: int| 0 <= i < trace.len() ==> tables_wf(#[trigger] trace[i]),
                    forall|i: int| 0 <= i < trace.len() - 1 ==> (#[trigger] trace[i + 1])[i + 1][0].kvs().len() > budget(self.level0_compaction_trigger, self.size_ratio, i as nat, self.memtable_size),
                ensures
                    self.wf(),
                    self.mem() == Seq::<KV>::empty(),
                    self.flush_count == a.flush_count + 1,
                    self.same_settings(a),
                    self.user_bytes_written == a.user_bytes_written,
                    self.total_bytes_written == capped(a.total_bytes_written + t.size() + trace_bytes(trace)),
                    compaction_trace(trace, a.spec_trigger(), a.spec_size_ratio(), a.spec_memtable_size()),
                    trace[0] == a.tables().update(0, a.tables()[0].push(t)),
                    self.tables() == trace.last(),
                    self.compaction_count == a.compaction_count + trace.len() - 1,
                decreases 64 - level,
            {
                let ghost before = trace;
                self.compact_one(level, sizing);
                proof {
                    trace = trace.push(self.tables());
                    assert(trace.drop_last() =~= before);
                }
                let next = self.levels[level + 1][0].len();
                let b = level_budget(self.level0_compaction_trigger, self.size_ratio, level, self.memtable_size);
                proof {
                    assert(self.levels@[level + 1]@[0].kvs().len() == next);
                }
                if next > b {
                    proof {
                        if level + 1 >= 64 {
                            lemma_budget_saturates(self.level0_compaction_trigger, self.size_ratio, level as nat, self.memtable_size);
                        }
                    }
                    level = level + 1;
                } else {
                    break;
                }
            }
        } else {
            proof {
                assert(compaction_trace(trace, a.spec_trigger(), a.spec_size_ratio(), a.spec_memtable_size()));
            }
        }
        proof {
            assert(strictly_sorted(t.kvs()));
            assert(t.kvs().to_multiset() == a.mem().to_multiset());
            assert(self.spec_compaction_count() == a.spec_compaction_count() + trace.len() - 1);
            assert(self.spec_flush_count() == a.spec_flush_count() + 1);
            assert(self.mem() == Seq::<KV>::empty());
            assert(trace[0] == a.tables().update(0, a.tables()[0].push(t)));
            assert(compaction_trace(trace, a.spec_trigger(), a.spec_size_ratio(), a.spec_memtable_size()));
            assert(self.tables() == trace.last());
            assert(flushed(a, *self));
        }
    }
}

/// The in-memory pairs with `k` set to `v`: its pair's value replaced
/// where it has one, else a new pair at the end.
pub open spec fn upsert(t: Seq<KV>, k: Seq<char>, v: JsonValue) -> Seq<KV> {
    if has_key(t, k) {
        t.update(key_index(t, k), (k, v))
    } else {
        t.push((k, v))
    }
}

/// A flush changes no read: every key reads as before, whatever
/// compactions it set off.
pub proof fn lemma_flush_keeps_reads(a: LSMTreeBlock, b: LSMTreeBlock, k: Seq<char>)
    requires
        a.wf(),
        b.wf(),
        flushed(a, b),
    ensures
        b.read(k) == a.read(k),
{
    let (t, trace) = choose|t: SSTable, trace: Seq<Seq<Seq<SSTable>>>| {
        &&& strictly_sorted(t.kvs())
        &&& t.kvs().to_multiset() == a.mem().to_multiset()
        &&& trace[0] == a.tables().update(0, a.tables()[0].push(t))
        &&& compaction_trace(trace, a.spec_trigger(), a.spec_size_ratio(), a.spec_memtable_size())
        &&& b.tables() == trace.last()
        &&& b.spec_compaction_count() == a.spec_compaction_count() + trace.len() - 1
    };
    lemma_trace_keeps_reads(trace, k);
    lemma_search_order_push(a.tables(), t);
    assert(b.mem() == Seq::<KV>::empty());
    assert(!has_key(b.mem(), k));
    lemma_read_first(trace[0], k);
    lemma_read_first(a.tables(), k);
    let rest = search_order(a.tables());
    lemma_level_pairs_concat(seq![t], rest);
    lemma_level_pairs_one(t);
    lemma_first_value_concat(t.kvs(), level_pairs(rest), k);
    lemma_sorted_first(t.kvs(), k);
    lemma_sorted_finds(t.kvs(), a.mem(), k);
}

impl LSMTreeBlock {
    pub closed spec fn spec_user_bytes(&self) -> usize {
        self.user_bytes_written
    }

    pub closed spec fn spec_total_bytes(&self) -> usize {
        self.total_bytes_written
    }

    /// Sets `key` to `value` in memory, counting the pair's bytes (key,
    /// JSON text and 16 bytes of overhead, saturating) as written by the
    /// user; once memory holds `memtable_size` keys, flushes it. Every key
    /// then reads as before, but `key`, which reads as `value`.
    pub fn put<F: Fn(usize) -> (usize, usize)>(&mut self, key: String, value: JsonValue, sizing: &F)
        requires
            old(self).wf(),
            old(self).spec_flush_count() < usize::MAX,
            old(self).spec_compaction_count() + 64 <= usize::MAX,
            forall|n: usize| #[trigger] sizing.requires((n,)),
            forall|n: usize, r: (usize, usize)| #[trigger] sizing.ensures((n,), r) ==> r.0 > 0 && r.1 <= 10,
        ensures
            final(self).wf(),
            final(self).same_settings(*old(self)),
            final(self).spec_user_bytes() == capped(old(self).spec_user_bytes() + pair_bytes((key@, value))),
            forall|k: Seq<char>| #[trigger] final(self).read(k) == if k == key@ {
                Some(value)
            } else {
                old(self).read(k)
            },
            upsert(old(self).mem(), key@, value).len() < old(self).spec_memtable_size() ==> {
                &&& final(self).mem() == upsert(old(self).mem(), key@, value)
                &&& final(self).tables() == old(self).tables()
                &&& final(self).spec_flush_count() == old(self).spec_flush_count()
                &&& final(self).spec_compaction_count() == old(self).spec_compaction_count()
                &&& final(self).spec_total_bytes() == old(self).spec_total_bytes()
            },
            upsert(old(self).mem(), key@, value).len() >= old(self).spec_memtable_size() ==> exists|mid: LSMTreeBlock| {
                &&& mid.wf()
                &&& mid.mem() == upsert(old(self).mem(), key@, value)
                &&& mid.tables() == old(self).tables()
                &&& mid.same_settings(*old(self))
                &&& mid.spec_flush_count() == old(self).spec_flush_count()
                &&& mid.spec_compaction_count() == old(self).spec_compaction_count()
                &&& mid.spec_total_bytes() == old(self).spec_total_bytes()
                &&& flushed(mid, *final(self))
            },
    {
        let text = json_text(&value);
        let ts = text.as_str();
        let text_len = ts.len();
        let ks = key.as_str();
        let key_len = ks.len();
        proof {
            assert(ks@ == key@);
            assert(key_len == byte_len(key@));
            assert(ts@ == json_text_of(value));
            assert(text_len == byte_len(json_text_of(value)));
        }
        let entry_size = key_len.saturating_add(text_len).saturating_add(16);
        self.user_bytes_written = self.user_bytes_written.saturating_add(entry_size);
        let ghost m0 = self.mem();
        let mut i: usize = 0;
        while i < self.memtable.len() && self.memtable[i].0 != key
            invariant
                m0 == self.mem(),
                0 <= i <= self.memtable@.len(),
                forall|j: int| 0 <= j < i ==> m0[j].0 != key@,
            decreases self.memtable@.len() - i,
        {
            i = i + 1;
        }
        if i < self.memtable.len() {
            proof {
                assert(m0[i as int].0 == key@);
                lemma_key_index(m0, i as int);
                lemma_update_value(m0, i as int, value);
            }
            self.memtable.set(i, (key, value));
            proof {
                assert(self.mem() =~= m0.update(i as int, (m0[i as int].0, value)));
            }
        } else {
            proof {
                assert(!has_key(m0, key@));
                lemma_push_row(m0, (key@, value));
            }
            self.memtable.push((key, value));
            proof {
                assert(self.mem() =~= m0.push((key@, value)));
            }
        }
        let ghost mid = *self;
        proof {
            assert(mid.mem() == upsert(old(self).mem(), key@, value));
            assert forall|k: Seq<char>| #[trigger] mid.read(k) == if k == key@ {
                Some(value)
            } else {
                old(self).read(k)
            } by {}
        }
        if self.memtable.len() >= self.memtable_size {
            self.flush_memtable(sizing);
            proof {
                assert forall|k: Seq<char>| #[trigger] self.read(k) == if k == key@ {
                    Some(value)
                } else {
                    old(self).read(k)
                } by {
                    lemma_flush_keeps_reads(mid, *self, k);
                    assert(mid.read(k) == if k == key@ {
                        Some(value)
                    } else {
                        old(self).read(k)
                    });
                }
                assert(mid.wf() && flushed(mid, *self));
            }
        }
    }
}

/// The number of pairs in the tables of `levels`.
pub open spec fn pair_count(levels: Seq<Seq<SSTable>>) -> nat
    decreases levels.len(),
{
    if levels.len() == 0 {
        0
    } else {
        pair_count(levels.drop_last()) + level_pairs(levels.last()).len()
    }
}

/// The number of levels of `levels` that hold a table.
pub open spec fn non_empty_count(levels: Seq<Seq<SSTable>>) -> nat
    decreases levels.len(),
{
    if levels.len() == 0 {
        0
    } else {
        non_empty_count(levels.drop_last()) + if levels.last().len() > 0 {
            1nat
        } else {
            0nat
        }
    }
}

proof fn lemma_non_empty_count_bound(levels: Seq<Seq<SSTable>>)
    ensures
        non_empty_count(levels) <= levels.len(),
    decreases levels.len(),
{
    if levels.len() > 0 {
        lemma_non_empty_count_bound(levels.drop_last());
    }
}

impl LSMTreeBlock {
    /// Sets the settings given, each checked before it is set: a memtable
    /// size outside 10..=100000, a level-0 trigger or a size ratio outside
    /// 2..=20 is refused, and what was set before it stays set.
    pub fn configure(&mut self, memtable_size: Option<i64>, level0_compaction_trigger: Option<i64>, size_ratio: Option<i64>) -> (r: Result<(), BlockError>)
        requires
            old(self).wf(),
        ensures
            final(self).wf(),
            final(self).mem() == old(self).mem(),
            final(self).tables() == old(self).tables(),
            final(self).spec_flush_count() == old(self).spec_flush_count(),
            final(self).spec_compaction_count() == old(self).spec_compaction_count(),
            final(self).spec_true_negatives() == old(self).spec_true_negatives(),
            final(self).spec_false_positives() == old(self).spec_false_positives(),
            final(self).spec_user_bytes() == old(self).spec_user_bytes(),
            final(self).spec_total_bytes() == old(self).spec_total_bytes(),
            ({
                let bad_m = memtable_size matches Some(m) && (m < 10 || m > 100000);
                let bad_t = level0_compaction_trigger matches Some(t) && (t < 2 || t > 20);
                let bad_r = size_ratio matches Some(x) && (x < 2 || x > 20);
                &&& r is Err <==> bad_m || bad_t || bad_r
                &&& final(self).spec_memtable_size() == match memtable_size {
                    Some(m) if !bad_m => m as usize,
                    _ => old(self).spec_memtable_size(),
                }
                &&& final(self).spec_trigger() == match level0_compaction_trigger {
                    Some(t) if !bad_m && !bad_t => t as usize,
                    _ => old(self).spec_trigger(),
                }
                &&& final(self).spec_size_ratio() == match size_ratio {
                    Some(x) if !bad_m && !bad_t && !bad_r => x as usize,
                    _ => old(self).spec_size_ratio(),
                }
            }),
    {
        if let Some(m) = memtable_size {
            if m < 10 || m > 100000 {
                return Err(BlockError::InvalidParameter(String::from_str("memtable_size must be between 10 and 100000")));
            }
            self.memtable_size = m as usize;
        }
        if let Some(t) = level0_compaction_trigger {
            if t < 2 || t > 20 {
                return Err(BlockError::InvalidParameter(String::from_str("level0_compaction_trigger must be between 2 and 20")));
            }
            self.level0_compaction_trigger = t as usize;
        }
        if let Some(x) = size_ratio {
            if x < 2 || x > 20 {
                return Err(BlockError::InvalidParameter(String::from_str("size_ratio must be between 2 and 20")));
            }
            self.size_ratio = x as usize;
        }
        Ok(())
    }

    /// The number of tables over all levels.
    pub fn total_sstables(&self) -> (n: usize)
        requires
            self.wf(),
            search_order(self.tables()).len() <= usize::MAX,
        ensures
            n == search_order(self.tables()).len(),
    {
        let ghost all = self.tables();
        let mut n: usize = 0;
        let mut l: usize = 0;
        while l < self.levels.len()
            invariant
                all == self.tables(),
                0 <= l <= all.len(),
                n == search_order(all.take(l as int)).len(),
                search_order(all).len() <= usize::MAX,
            decreases all.len() - l,
        {
            proof {
                assert(all.take(l as int + 1).drop_last() =~= all.take(l as int));
                assert(all.take(l as int + 1).last() == all[l as int]);
                lemma_search_order_prefix(all, l as int + 1);
            }
            n = n + self.levels[l].len();
            l = l + 1;
        }
        proof {
            assert(all.take(l as int) =~= all);
        }
        n
    }

    /// The number of levels that hold a table.
    pub fn non_empty_levels(&self) -> (n: usize)
        ensures
            n == non_empty_count(self.tables()),
    {
        let ghost all = self.tables();
        let mut n: usize = 0;
        let mut l: usize = 0;
        while l < self.levels.len()
            invariant
                all == self.tables(),
                0 <= l <= all.len(),
                n == non_empty_count(all.take(l as int)),
            decreases all.len() - l,
        {
            proof {
                assert(all.take(l as int + 1).drop_last() =~= all.take(l as int));
                assert(all.take(l as int + 1).last() == all[l as int]);
                lemma_non_empty_count_bound(all.take(l as int));
            }
            if self.levels[l].len() > 0 {
                n = n + 1;
            }
            l = l + 1;
        }
        proof {
            assert(all.take(l as int) =~= all);
        }
        n
    }

    /// The number of pairs, in memory and in every table.
    pub fn total_entries(&self) -> (n: usize)
        requires
            self.wf(),
            self.mem().len() + pair_count(self.tables()) <= usize::MAX,
        ensures
            n == self.mem().len() + pair_count(self.tables()),
    {
        let ghost all = self.tables();
        let mut n: usize = 0;
        let mut l: usize = 0;
        while l < self.levels.len()
            invariant
                all == self.tables(),
                0 <= l <= all.len(),
                n == pair_count(all.take(l as int)),
                self.mem().len() + pair_count(all) <= usize::MAX,
            decreases all.len() - l,
        {
            let level = &self.levels[l];
            let ghost lv = level@;
            proof {
                assert(all.take(l as int + 1).drop_last() =~= all.take(l as int));
                assert(all.take(l as int + 1).last() == all[l as int]);
                lemma_pair_count_prefix(all, l as int + 1);
                assert(lv == all[l as int]);
            }
            let mut t: usize = 0;
            while t < level.len()
                invariant
                    lv == level@,
                    0 <= t <= lv.len(),
                    n == pair_count(all.take(l as int)) + level_pairs(lv.take(t as int)).len(),
                    pair_count(all.take(l as int)) + level_pairs(lv).len() <= usize::MAX,
                decreases lv.len() - t,
            {
                proof {
                    assert(lv.take(t as int + 1).drop_last() =~= lv.take(t as int));
                    assert(lv.take(t as int + 1).last() == lv[t as int]);
                    lemma_level_pairs_concat(lv.take(t as int + 1), lv.skip(t as int + 1));
                    assert(lv =~= lv.take(t as int + 1) + lv.skip(t as int + 1));
                }
                n = n + level[t].len();
                t = t + 1;
            }
            proof {
                assert(lv.take(t as int) =~= lv);
            }
            l = l + 1;
        }
        proof {
            assert(all.take(l as int) =~= all);
        }
        self.memtable.len() + n
    }

    /// The key a record is put under: the JSON text of its id, or
    /// `key_<n>` for `n` the pairs held, where it has none.
    pub fn record_key(&self, id: Option<&JsonValue>) -> (k: String)
        requires
            self.wf(),
            self.mem().len() + pair_count(self.tables()) <= usize::MAX,
        ensures
            k@ == match id {
                Some(v) => json_text_of(*v),
                None => "key_"@ + decimal((self.mem().len() + pair_count(self.tables())) as nat),
            },
    {
        match id {
            Some(v) => json_text(v),
            None => {
                let n = self.total_entries();
                let prefix = String::from_str("key_");
                proof {
                    reveal_strlit("key_");
                }
                prefix.concat(decimal_string(n as u64).as_str())
            },
        }
    }

    /// The number of pairs in memory.
    pub fn memtable_len(&self) -> (n: usize)
        ensures
            n == self.mem().len(),
    {
        self.memtable.len()
    }

    /// The number of tables on level `level`, 0 where there is no such
    /// level.
    pub fn level_len(&self, level: usize) -> (n: usize)
        ensures
            n == if level < self.tables().len() {
                self.tables()[level as int].len()
            } else {
                0
            },
    {
        if level < self.levels.len() {
            self.levels[level].len()
        } else {
            0
        }
    }

    /// The number of flushes so far.
    pub fn flush_count(&self) -> (n: usize)
        ensures
            n == self.spec_flush_count(),
    {
        self.flush_count
    }

    /// The number of compactions so far.
    pub fn compaction_count(&self) -> (n: usize)
        ensures
            n == self.spec_compaction_count(),
    {
        self.compaction_count
    }

    /// The number of tables reads skipped on their filter's word.
    pub fn bloom_true_negatives(&self) -> (n: usize)
        ensures
            n == self.spec_true_negatives(),
    {
        self.bloom_true_negatives
    }

    /// The number of tables whose filter let a read through in vain.
    pub fn bloom_false_positives(&self) -> (n: usize)
        ensures
            n == self.spec_false_positives(),
    {
        self.bloom_false_positives
    }

    /// The bytes written to tables, by flushes and compactions
    /// (saturating).
    pub fn total_bytes_written(&self) -> (n: usize)
        ensures
            n == self.spec_total_bytes(),
    {
        self.total_bytes_written
    }

    /// The bytes of the pairs put (saturating).
    pub fn user_bytes_written(&self) -> (n: usize)
        ensures
            n == self.spec_user_bytes(),
    {
        self.user_bytes_written
    }

    /// The memtable size setting.
    pub fn memtable_size(&self) -> (n: usize)
        ensures
            n == self.spec_memtable_size(),
    {
        self.memtable_size
    }

    /// The level-0 compaction trigger setting.
    pub fn level0_compaction_trigger(&self) -> (n: usize)
        ensures
            n == self.spec_trigger(),
    {
        self.level0_compaction_trigger
    }

    /// The size ratio setting.
    pub fn size_ratio(&self) -> (n: usize)
        ensures
            n == self.spec_size_ratio(),
    {
        self.size_ratio
    }
}

proof fn lemma_pair_count_prefix(levels: Seq<Seq<SSTable>>, k: int)
    requires
        0 <= k <= levels.len(),
    ensures
        pair_count(levels.take(k)) <= pair_count(levels),
    decreases levels.len() - k,
{
    if k < levels.len() {
        lemma_pair_count_prefix(levels, k + 1);
        assert(levels.take(k + 1).drop_last() =~= levels.take(k));
    } else {
        assert(levels.take(k) =~= levels);
    }
}

/// The tables a read checks after level `l`.
pub open spec fn search_order_after(levels: Seq<Seq<SSTable>>, l: int) -> Seq<SSTable> {
    search_order(levels.skip(l + 1).reverse().reverse())
}

proof fn lemma_search_order_prefix(levels: Seq<Seq<SSTable>>, k: int)
    requires
        0 <= k <= levels.len(),
    ensures
        search_order(levels.take(k)).len() <= search_order(levels).len(),
    decreases levels.len() - k,
{
    if k < levels.len() {
        lemma_search_order_prefix(levels, k + 1);
        assert(levels.take(k + 1).drop_last() =~= levels.take(k));
    } else {
        assert(levels.take(k) =~= levels);
    }
}

proof fn lemma_search_order_concat(a: Seq<Seq<SSTable>>, b: Seq<Seq<SSTable>>)
    ensures
        search_order(a + b) == search_order(a) + search_order(b),
    decreases b.len(),
{
    if b.len() == 0 {
        assert(a + b =~= a);
        assert(search_order(a) + Seq::<SSTable>::empty() =~= search_order(a));
    } else {
        lemma_search_order_concat(a, b.drop_last());
        assert((a + b).drop_last() =~= a + b.drop_last());
        assert((a + b).last() == b.last());
        assert(search_order(a) + search_order(b.drop_last()) + b.last().reverse() =~= search_order(a) + (search_order(b.drop_last()) + b.last().reverse()));
    }
}

/// The search order splits at level `l`: the levels before it, then its
/// tables newest first, then the levels after it.
proof fn lemma_search_order_split(levels: Seq<Seq<SSTable>>, l: int)
    requires
        0 <= l < levels.len(),
    ensures
        search_order(levels) == search_order(levels.take(l)) + levels[l].reverse() + search_order_after(levels, l),
{
    assert(levels =~= levels.take(l + 1) + levels.skip(l + 1));
    lemma_search_order_concat(levels.take(l + 1), levels.skip(l + 1));
    assert(levels.take(l + 1).drop_last() =~= levels.take(l));
    assert(levels.skip(l + 1).reverse().reverse() =~= levels.skip(l + 1));
}

proof fn lemma_probe_bounds(ts: Seq<SSTable>, k: Seq<char>)
    ensures
        probe(ts, k).1 + probe(ts, k).2 <= ts.len(),
    decreases ts.len(),
{
    if ts.len() > 0 {
        lemma_probe_bounds(ts.drop_first(), k);
    }
}

/// Every table of every level is well formed.
pub open spec fn tables_wf(levels: Seq<Seq<SSTable>>) -> bool {
    forall|l: int, t: int| 0 <= l < levels.len() && 0 <= t < levels[l].len() ==> (#[trigger] levels[l][t]).wf()
}

proof fn lemma_level_pairs_concat(a: Seq<SSTable>, b: Seq<SSTable>)
    ensures
        level_pairs(a + b) == level_pairs(a) + level_pairs(b),
    decreases b.len(),
{
    if b.len() == 0 {
        assert(a + b =~= a);
        assert(level_pairs(a) + level_pairs(b) =~= level_pairs(a));
    } else {
        lemma_level_pairs_concat(a, b.drop_last());
        assert((a + b).drop_last() =~= a + b.drop_last());
        assert((a + b).last() == b.last());
        assert(level_pairs(a) + level_pairs(b.drop_last()) + b.last().kvs() =~= level_pairs(a) + (level_pairs(b.drop_last()) + b.last().kvs()));
    }
}

proof fn lemma_level_pairs_one(x: SSTable)
    ensures
        level_pairs(seq![x]) == x.kvs(),
{
    let one = seq![x];
    assert(one.drop_last() =~= Seq::<SSTable>::empty());
    assert(one.last() == x);
    assert(level_pairs(Seq::<SSTable>::empty()) == Seq::<KV>::empty());
    assert(level_pairs(one) == level_pairs(one.drop_last()) + one.last().kvs());
    assert(Seq::<KV>::empty() + x.kvs() =~= x.kvs());
}

/// In a table in key order, the value found for a key is its first.
proof fn lemma_sorted_first(s: Seq<KV>, k: Seq<char>)
    requires
        strictly_sorted(s),
    ensures
        find_kv(s, k) == first_value(s, k),
{
    assert(distinct_keys(s)) by {
        assert forall|i: int, j: int| 0 <= i < s.len() && 0 <= j < s.len() && i != j implies #[trigger] s[i].0 != #[trigger] s[j].0 by {
            if i < j {
                assert(text_lt(s[i].0, s[j].0));
                lemma_text_lt_irreflexive(s[i].0);
            } else {
                assert(text_lt(s[j].0, s[i].0));
                lemma_text_lt_irreflexive(s[j].0);
            }
        }
    }
    lemma_first_value_distinct(s, k);
    assert(find_kv(s, k) == value_of(s, k));
}

/// A read over well-formed tables finds the first pair of the key, the
/// tables taken in order.
proof fn lemma_probe_first(ts: Seq<SSTable>, k: Seq<char>)
    requires
        forall|i: int| 0 <= i < ts.len() ==> (#[trigger] ts[i]).wf(),
    ensures
        probe(ts, k).0 == first_value(level_pairs(ts), k),
    decreases ts.len(),
{
    if ts.len() > 0 {
        let x = ts[0];
        let r = ts.drop_first();
        assert(ts =~= seq![x] + r);
        assert forall|i: int| 0 <= i < r.len() implies (#[trigger] r[i]).wf() by {
            assert(r[i] == ts[i + 1]);
        }
        lemma_level_pairs_concat(seq![x], r);
        lemma_level_pairs_one(x);
        lemma_first_value_concat(x.kvs(), level_pairs(r), k);
        lemma_probe_first(r, k);
        lemma_sorted_first(x.kvs(), k);
        assert(x.wf());
        if find_kv(x.kvs(), k) is Some {
            let i = choose|i: int| 0 <= i < x.kvs().len() && x.kvs()[i].0 == k;
            assert(filter_says(x.filter(), x.kvs()[i].0));
        }
    }
}

proof fn lemma_search_order_wf(levels: Seq<Seq<SSTable>>)
    requires
        tables_wf(levels),
    ensures
        forall|i: int| 0 <= i < search_order(levels).len() ==> (#[trigger] search_order(levels)[i]).wf(),
    decreases levels.len(),
{
    if levels.len() > 0 {
        let d = levels.drop_last();
        assert(tables_wf(d)) by {
            assert forall|l: int, t: int| 0 <= l < d.len() && 0 <= t < d[l].len() implies (#[trigger] d[l][t]).wf() by {
                assert(d[l] == levels[l]);
            }
        }
        lemma_search_order_wf(d);
        let s = search_order(levels);
        let p = search_order(d);
        let last = levels[levels.len() - 1];
        let q = last.reverse();
        assert forall|i: int| 0 <= i < s.len() implies (#[trigger] s[i]).wf() by {
            if i < p.len() {
                assert(s[i] == p[i]);
            } else {
                let j = last.len() - 1 - (i - p.len());
                assert(s[i] == q[i - p.len()]);
                assert(q[i - p.len()] == last[j]);
                assert(levels[levels.len() - 1][j].wf());
            }
        }
    }
}

/// What a read of `k` finds in the levels: the first pair of the key in
/// search order.
proof fn lemma_read_first(levels: Seq<Seq<SSTable>>, k: Seq<char>)
    requires
        tables_wf(levels),
    ensures
        probe(search_order(levels), k).0 == first_value(level_pairs(search_order(levels)), k),
{
    lemma_search_order_wf(levels);
    lemma_probe_first(search_order(levels), k);
}

proof fn lemma_search_order_two(x: Seq<SSTable>, y: Seq<SSTable>)
    ensures
        search_order(seq![x, y]) == x.reverse() + y.reverse(),
{
    let two = seq![x, y];
    let one = seq![x];
    assert(two.drop_last() =~= one);
    assert(two.last() == y);
    assert(one.drop_last() =~= Seq::<Seq<SSTable>>::empty());
    assert(one.last() == x);
    assert(search_order(Seq::<Seq<SSTable>>::empty()) == Seq::<SSTable>::empty());
    assert(search_order(one) == search_order(one.drop_last()) + one.last().reverse());
    assert(search_order(two) == search_order(two.drop_last()) + two.last().reverse());
    assert(Seq::<SSTable>::empty() + x.reverse() =~= x.reverse());
}

/// A compaction changes no read.
proof fn lemma_merge_keeps_reads(a: Seq<Seq<SSTable>>, b: Seq<Seq<SSTable>>, level: int, k: Seq<char>)
    requires
        merge_step(a, b, level),
        tables_wf(a),
        tables_wf(b),
    ensures
        probe(search_order(b), k).0 == probe(search_order(a), k).0,
{
    let ext = if level + 1 >= a.len() {
        a.push(Seq::empty())
    } else {
        a
    };
    if level + 1 >= a.len() {
        assert(ext.drop_last() =~= a);
        assert(search_order(a) + Seq::<SSTable>::empty().reverse() =~= search_order(a));
    }
    assert(search_order(ext) == search_order(a));
    assert(tables_wf(ext)) by {
        assert forall|l: int, t: int| 0 <= l < ext.len() && 0 <= t < ext[l].len() implies (#[trigger] ext[l][t]).wf() by {
            assert(ext[l] == a[l]);
        }
    }
    let pre = ext.take(level);
    let post = ext.skip(level + 2);
    let m = b[level + 1][0];
    assert(ext =~= pre + seq![ext[level], ext[level + 1]] + post);
    assert(b =~= pre + seq![b[level], b[level + 1]] + post) by {
        assert forall|l: int| 0 <= l < level implies #[trigger] b[l] == ext[l] by {}
        assert forall|l: int| level + 2 <= l < b.len() implies #[trigger] b[l] == ext[l] by {}
    }
    lemma_search_order_concat(pre + seq![ext[level], ext[level + 1]], post);
    lemma_search_order_concat(pre, seq![ext[level], ext[level + 1]]);
    lemma_search_order_concat(pre + seq![b[level], b[level + 1]], post);
    lemma_search_order_concat(pre, seq![b[level], b[level + 1]]);
    lemma_search_order_two(ext[level], ext[level + 1]);
    lemma_search_order_two(b[level], b[level + 1]);
    assert(b[level + 1] =~= seq![m]);
    assert(b[level].reverse() + b[level + 1].reverse() =~= seq![m]);
    let sp = search_order(pre);
    let sq = search_order(post);
    let src = level_pairs(ext[level].reverse()) + level_pairs(ext[level + 1].reverse());
    lemma_level_pairs_concat(ext[level].reverse(), ext[level + 1].reverse());
    lemma_level_pairs_concat(sp + (ext[level].reverse() + ext[level + 1].reverse()), sq);
    lemma_level_pairs_concat(sp, ext[level].reverse() + ext[level + 1].reverse());
    lemma_level_pairs_concat(sp + seq![m], sq);
    lemma_level_pairs_concat(sp, seq![m]);
    lemma_level_pairs_one(m);
    lemma_first_value_concat(level_pairs(sp) + src, level_pairs(sq), k);
    lemma_first_value_concat(level_pairs(sp), src, k);
    lemma_first_value_concat(level_pairs(sp) + m.kvs(), level_pairs(sq), k);
    lemma_first_value_concat(level_pairs(sp), m.kvs(), k);
    assert(m.wf());
    lemma_sorted_first(m.kvs(), k);
    lemma_read_first(ext, k);
    lemma_read_first(b, k);
}

/// The compactions of a trace change no read.
proof fn lemma_trace_keeps_reads(trace: Seq<Seq<Seq<SSTable>>>, k: Seq<char>)
    requires
        trace.len() >= 1,
        forall|i: int| 0 <= i < trace.len() - 1 ==> #[trigger] merge_step(trace[i], trace[i + 1], i),
        forall|i: int| 0 <= i < trace.len() ==> tables_wf(#[trigger] trace[i]),
    ensures
        probe(search_order(trace.last()), k).0 == probe(search_order(trace[0]), k).0,
    decreases trace.len(),
{
    if trace.len() > 1 {
        let d = trace.drop_last();
        assert forall|i: int| 0 <= i < d.len() - 1 implies #[trigger] merge_step(d[i], d[i + 1], i) by {
            assert(merge_step(trace[i], trace[i + 1], i));
        }
        assert forall|i: int| 0 <= i < d.len() implies tables_wf(#[trigger] d[i]) by {
            assert(tables_wf(trace[i]));
        }
        lemma_trace_keeps_reads(d, k);
        let n = trace.len() - 2;
        assert(merge_step(trace[n], trace[n + 1], n));
        assert(tables_wf(trace[n]));
        assert(tables_wf(trace[n + 1]));
        lemma_merge_keeps_reads(trace[n], trace[n + 1], n, k);
    }
}

/// A new table on top of level 0 comes first in search order.
proof fn lemma_search_order_push(levels: Seq<Seq<SSTable>>, t: SSTable)
    requires
        levels.len() >= 1,
    ensures
        search_order(levels.update(0, levels[0].push(t))) == seq![t] + search_order(levels),
{
    let u = levels.update(0, levels[0].push(t));
    let rest = levels.skip(1);
    assert(levels =~= seq![levels[0]] + rest);
    assert(u =~= seq![levels[0].push(t)] + rest);
    lemma_search_order_concat(seq![levels[0]], rest);
    lemma_search_order_concat(seq![levels[0].push(t)], rest);
    let one = seq![levels[0]];
    let one_t = seq![levels[0].push(t)];
    assert(one.drop_last() =~= Seq::<Seq<SSTable>>::empty());
    assert(one_t.drop_last() =~= Seq::<Seq<SSTable>>::empty());
    assert(one.last() == levels[0]);
    assert(one_t.last() == levels[0].push(t));
    assert(search_order(Seq::<Seq<SSTable>>::empty()) == Seq::<SSTable>::empty());
    assert(search_order(one) == search_order(one.drop_last()) + one.last().reverse());
    assert(search_order(one_t) == search_order(one_t.drop_last()) + one_t.last().reverse());
    assert(search_order(one) =~= levels[0].reverse());
    assert(search_order(one_t) =~= seq![t] + levels[0].reverse());
    assert(seq![t] + levels[0].reverse() + search_order(rest) =~= seq![t] + (levels[0].reverse() + search_order(rest)));
}

impl LSMTreeBlock {
    fn build_documentation() -> (d: BlockDocumentation)
        ensures
            d.overview@ == "An LSM Tree (Log-Structured Merge-Tree) optimizes write throughput by \
                           buffering all writes in a fast, in-memory sorted structure called a \
                           memtable. When the memtable reaches a configured size threshold, it is \
                           frozen and flushed to disk as an immutable Sorted String Table (SSTable). \
                           Background compaction merges SSTables across levels to bound read \
                           amplification and reclaim space from obsolete entries.\n\n\
                           In a database system, the LSM tree sits at the storage engine layer and \
                           is the dominant architecture for write-optimized key-value stores. Unlike \
                           B-trees that update data in-place (requiring random I/O), LSM trees \
                           convert random writes into sequential writes by batching them in memory \
                           and writing sorted runs. This makes them ideal for modern SSDs and \
                           spinning disks alike.\n\n\
                           Think of an LSM tree like a mail sorting system: incoming letters \
                           (writes) pile up in your inbox (memtable). Periodically you sort the \
                           inbox and file it into a cabinet drawer (Level 0 SSTable). When a drawer \
                           gets too full, you merge it with the next larger filing cabinet \
                           (compaction to Level 1). Finding a specific letter means checking the \
                           inbox first, then the most recent drawer, working backward."@,
            d.algorithm@ == "WRITE (put key, value):\n  \
                           1. Insert (key, value) into the memtable (BTreeMap, O(log n))\n  \
                           2. Track user_bytes_written for amplification metrics\n  \
                           3. If memtable.len() >= memtable_size:\n    \
                              a. Freeze the memtable\n    \
                              b. Sort entries and write as a new SSTable at Level 0\n    \
                              c. Create a Bloom filter for the new SSTable\n    \
                              d. Increment flush_count\n    \
                              e. If Level 0 has >= level0_compaction_trigger SSTables:\n      \
                                 Trigger compaction of Level 0 into Level 1\n\n\
                           COMPACTION (level L):\n  \
                           1. Collect all entries from all SSTables at level L\n  \
                           2. Merge with all entries at level L+1\n  \
                           3. Sort by key, deduplicate (keep newest value)\n  \
                           4. Write as a new SSTable at level L+1\n  \
                           5. Track total_bytes_written for amplification\n  \
                           6. Check if L+1 also needs compaction (cascading)\n\n\
                           READ (get key):\n  \
                           1. Check memtable — return if found (newest data)\n  \
                           2. For each level, newest SSTable first:\n    \
                              a. Check Bloom filter — skip if definitely absent\n    \
                              b. Binary search SSTable entries\n    \
                              c. Return if found\n  \
                           3. Return None if not found in any level"@,
            d.motivation@ == "Traditional B-tree storage engines must perform random I/O for every \
                             write because they update data in-place on disk. When write throughput \
                             is the bottleneck — such as ingesting millions of events per second, \
                             logging, or time-series data — this random I/O becomes the limiting \
                             factor.\n\n\
                             The LSM tree solves this by converting random writes into sequential \
                             writes. Instead of seeking to the right page on disk for each insert, \
                             it batches writes in memory and periodically flushes them as a large, \
                             sorted, sequential write. This can achieve 10-100x higher write \
                             throughput compared to B-tree engines, at the cost of more expensive \
                             reads and background compaction work."@,
            d.complexity.time@ == "Write O(log n) amortized, Point read O(L * log n) where L = levels"@,
            d.complexity.space@ == "O(n) with write amplification factor ~size_ratio per level"@,
            d.use_cases@.len() == 5,
            d.use_cases@[0]@ == "Write-heavy workloads (logging, time-series, event ingestion)"@,
            d.use_cases@[1]@ == "Key-value stores (RocksDB, LevelDB, Cassandra)"@,
            d.use_cases@[2]@ == "Workloads where reads can tolerate some amplification"@,
            d.use_cases@[3]@ == "Append-heavy ingestion pipelines where data arrives faster than a B-tree can index it"@,
            d.use_cases@[4]@ == "Time-series databases where recent data is queried most often"@,
            d.tradeoffs@.len() == 6,
            d.tradeoffs@[0]@ == "Excellent write throughput but reads check multiple levels"@,
            d.tradeoffs@[1]@ == "Write amplification from compaction (each record rewritten ~size_ratio times per level)"@,
            d.tradeoffs@[2]@ == "Space amplification before compaction catches up"@,
            d.tradeoffs@[3]@ == "Bloom filters reduce read cost but use memory"@,
            d.tradeoffs@[4]@ == "Compaction can cause latency spikes if not properly scheduled or rate-limited"@,
            d.tradeoffs@[5]@ == "Range scans are more expensive than B-trees since data is spread across levels"@,
            d.examples@.len() == 4,
            d.examples@[0]@ == "RocksDB (Meta) — the most widely used LSM engine, used in MySQL (MyRocks), CockroachDB, TiKV"@,
            d.examples@[1]@ == "LevelDB (Google) — the original leveled compaction implementation, inspiration for RocksDB"@,
            d.examples@[2]@ == "Apache Cassandra SSTables — distributed LSM storage with size-tiered compaction"@,
            d.examples@[3]@ == "ScyllaDB — high-performance Cassandra-compatible LSM engine written in C++"@,
            d.suggested_questions@.len() == 3,
            d.suggested_questions@[0]@ == "How does write amplification change as the size_ratio increases from 2 to 20?"@,
            d.suggested_questions@[1]@ == "Why do Bloom filters help read performance, and what happens if the false positive rate is too high?"@,
            d.suggested_questions@[2]@ == "What is the difference between size-tiered and leveled compaction strategies?"@,
            d.parameter_guide@.len() == 4,
            d.parameter_guide@[0].0@ == "memtable_size"@,
            d.parameter_guide@[0].1@ == "Controls how many entries accumulate in memory before being flushed to \
                      disk as an SSTable. Larger memtable (e.g., 10000-100000) means fewer \
                      flushes, larger SSTables, and better write throughput — but uses more \
                      RAM and risks more data loss on crash (unless a WAL is used). Smaller \
                      memtable (e.g., 10-100) flushes frequently, creating many small SSTables \
                      that increase read amplification and trigger more compactions. \
                      Recommended: 1000-10000 for general workloads. Default is 1000."@,
            d.parameter_guide@[1].0@ == "level0_compaction_trigger"@,
            d.parameter_guide@[1].1@ == "Number of SSTables at Level 0 before compaction merges them into Level 1. \
                      Higher values (e.g., 8-20) delay compaction, which improves write throughput \
                      but makes reads slower because more L0 SSTables must be checked. Lower \
                      values (e.g., 2-4) compact sooner, keeping reads fast but increasing write \
                      amplification. Recommended: 4-8 for balanced workloads, 2-3 for read-heavy, \
                      10+ for write-heavy. Default is 4."@,
            d.parameter_guide@[2].0@ == "size_ratio"@,
            d.parameter_guide@[2].1@ == "The size multiplier between adjacent levels. With size_ratio=10, Level 1 \
                      can hold 10x more data than Level 0, Level 2 holds 100x, etc. Higher \
                      values (e.g., 10-20) mean fewer levels and fewer compactions, but each \
                      compaction moves more data (higher write amplification per compaction). \
                      Lower values (e.g., 2-4) create more levels, meaning more SSTables to \
                      check during reads. Recommended: 10 for most workloads (matches LevelDB/RocksDB \
                      defaults). Range: 2-20."@,
            d.parameter_guide@[3].0@ == "key_column"@,
            d.parameter_guide@[3].1@ == "The column name used as the key for the LSM tree. Each record must have \
                      this column. The key determines how records are sorted within SSTables \
                      and how duplicates are resolved (latest value wins). Choose the column \
                      that you will most frequently look up by. Default is 'id'."@,
            d.alternatives@.len() == 3,
            d.alternatives@[0].block_type@ == "heap-file-storage"@,
            d.alternatives@[0].comparison@ == "Heap files append records to unordered pages with no memtable \
                                     or compaction overhead. They are simpler and have no write \
                                     amplification, but offer no key-based organization. Choose heap \
                                     for simple row storage with separate B-tree indexes. Choose LSM \
                                     when write throughput is the primary concern and you need built-in \
                                     key-value semantics."@,
            d.alternatives@[1].block_type@ == "clustered-storage"@,
            d.alternatives@[1].comparison@ == "Clustered storage sorts records by a key on disk for fast range \
                                     scans but suffers from page splits on random inserts. Choose \
                                     clustered when range scan performance on the sort key matters \
                                     most. Choose LSM when write throughput is more important than \
                                     range scan speed."@,
            d.alternatives@[2].block_type@ == "columnar-storage"@,
            d.alternatives@[2].comparison@ == "Columnar storage organizes data by column for analytical queries. \
                                     It excels at scanning few columns across many rows but is poor \
                                     at point lookups and single-row writes. Choose columnar for \
                                     OLAP/warehouse workloads. Choose LSM for OLTP key-value workloads \
                                     with high write rates."@,
    {
        let mut use_cases: Vec<String> = Vec::new();
        use_cases.push(String::from_str("Write-heavy workloads (logging, time-series, event ingestion)"));
        use_cases.push(String::from_str("Key-value stores (RocksDB, LevelDB, Cassandra)"));
        use_cases.push(String::from_str("Workloads where reads can tolerate some amplification"));
        use_cases.push(String::from_str("Append-heavy ingestion pipelines where data arrives faster than a B-tree can index it"));
        use_cases.push(String::from_str("Time-series databases where recent data is queried most often"));
        let mut tradeoffs: Vec<String> = Vec::new();
        tradeoffs.push(String::from_str("Excellent write throughput but reads check multiple levels"));
        tradeoffs.push(String::from_str("Write amplification from compaction (each record rewritten ~size_ratio times per level)"));
        tradeoffs.push(String::from_str("Space amplification before compaction catches up"));
        tradeoffs.push(String::from_str("Bloom filters reduce read cost but use memory"));
        tradeoffs.push(String::from_str("Compaction can cause latency spikes if not properly scheduled or rate-limited"));
        tradeoffs.push(String::from_str("Range scans are more expensive than B-trees since data is spread across levels"));
        let mut examples: Vec<String> = Vec::new();
        examples.push(String::from_str("RocksDB (Meta) — the most widely used LSM engine, used in MySQL (MyRocks), CockroachDB, TiKV"));
        examples.push(String::from_str("LevelDB (Google) — the original leveled compaction implementation, inspiration for RocksDB"));
        examples.push(String::from_str("Apache Cassandra SSTables — distributed LSM storage with size-tiered compaction"));
        examples.push(String::from_str("ScyllaDB — high-performance Cassandra-compatible LSM engine written in C++"));
        let mut suggested_questions: Vec<String> = Vec::new();
        suggested_questions.push(String::from_str("How does write amplification change as the size_ratio increases from 2 to 20?"));
        suggested_questions.push(String::from_str("Why do Bloom filters help read performance, and what happens if the false positive rate is too high?"));
        suggested_questions.push(String::from_str("What is the difference between size-tiered and leveled compaction strategies?"));
        let mut parameter_guide: Vec<(String, String)> = Vec::new();
        parameter_guide.push((String::from_str("memtable_size"), String::from_str("Controls how many entries accumulate in memory before being flushed to \
                      disk as an SSTable. Larger memtable (e.g., 10000-100000) means fewer \
                      flushes, larger SSTables, and better write throughput — but uses more \
                      RAM and risks more data loss on crash (unless a WAL is used). Smaller \
                      memtable (e.g., 10-100) flushes frequently, creating many small SSTables \
                      that increase read amplification and trigger more compactions. \
                      Recommended: 1000-10000 for general workloads. Default is 1000.")));
        parameter_guide.push((String::from_str("level0_compaction_trigger"), String::from_str("Number of SSTables at Level 0 before compaction merges them into Level 1. \
                      Higher values (e.g., 8-20) delay compaction, which improves write throughput \
                      but makes reads slower because more L0 SSTables must be checked. Lower \
                      values (e.g., 2-4) compact sooner, keeping reads fast but increasing write \
                      amplification. Recommended: 4-8 for balanced workloads, 2-3 for read-heavy, \
                      10+ for write-heavy. Default is 4.")));
        parameter_guide.push((String::from_str("size_ratio"), String::from_str("The size multiplier between adjacent levels. With size_ratio=10, Level 1 \
                      can hold 10x more data than Level 0, Level 2 holds 100x, etc. Higher \
                      values (e.g., 10-20) mean fewer levels and fewer compactions, but each \
                      compaction moves more data (higher write amplification per compaction). \
                      Lower values (e.g., 2-4) create more levels, meaning more SSTables to \
                      check during reads. Recommended: 10 for most workloads (matches LevelDB/RocksDB \
                      defaults). Range: 2-20.")));
        parameter_guide.push((String::from_str("key_column"), String::from_str("The column name used as the key for the LSM tree. Each record must have \
                      this column. The key determines how records are sorted within SSTables \
                      and how duplicates are resolved (latest value wins). Choose the column \
                      that you will most frequently look up by. Default is 'id'.")));
        let mut alternatives: Vec<Alternative> = Vec::new();
        alternatives.push(Alternative { block_type: String::from_str("heap-file-storage"), comparison: String::from_str("Heap files append records to unordered pages with no memtable \
                                     or compaction overhead. They are simpler and have no write \
                                     amplification, but offer no key-based organization. Choose heap \
                                     for simple row storage with separate B-tree indexes. Choose LSM \
                                     when write throughput is the primary concern and you need built-in \
                                     key-value semantics.") });
        alternatives.push(Alternative { block_type: String::from_str("clustered-storage"), comparison: String::from_str("Clustered storage sorts records by a key on disk for fast range \
                                     scans but suffers from page splits on random inserts. Choose \
                                     clustered when range scan performance on the sort key matters \
                                     most. Choose LSM when write throughput is more important than \
                                     range scan speed.") });
        alternatives.push(Alternative { block_type: String::from_str("columnar-storage"), comparison: String::from_str("Columnar storage organizes data by column for analytical queries. \
                                     It excels at scanning few columns across many rows but is poor \
                                     at point lookups and single-row writes. Choose columnar for \
                                     OLAP/warehouse workloads. Choose LSM for OLTP key-value workloads \
                                     with high write rates.") });
        BlockDocumentation {
            overview: String::from_str("An LSM Tree (Log-Structured Merge-Tree) optimizes write throughput by \
                           buffering all writes in a fast, in-memory sorted structure called a \
                           memtable. When the memtable reaches a configured size threshold, it is \
                           frozen and flushed to disk as an immutable Sorted String Table (SSTable). \
                           Background compaction merges SSTables across levels to bound read \
                           amplification and reclaim space from obsolete entries.\n\n\
                           In a database system, the LSM tree sits at the storage engine layer and \
                           is the dominant architecture for write-optimized key-value stores. Unlike \
                           B-trees that update data in-place (requiring random I/O), LSM trees \
                           convert random writes into sequential writes by batching them in memory \
                           and writing sorted runs. This makes them ideal for modern SSDs and \
                           spinning disks alike.\n\n\
                           Think of an LSM tree like a mail sorting system: incoming letters \
                           (writes) pile up in your inbox (memtable). Periodically you sort the \
                           inbox and file it into a cabinet drawer (Level 0 SSTable). When a drawer \
                           gets too full, you merge it with the next larger filing cabinet \
                           (compaction to Level 1). Finding a specific letter means checking the \
                           inbox first, then the most recent drawer, working backward."),
            algorithm: String::from_str("WRITE (put key, value):\n  \
                           1. Insert (key, value) into the memtable (BTreeMap, O(log n))\n  \
                           2. Track user_bytes_written for amplification metrics\n  \
                           3. If memtable.len() >= memtable_size:\n    \
                              a. Freeze the memtable\n    \
                              b. Sort entries and write as a new SSTable at Level 0\n    \
                              c. Create a Bloom filter for the new SSTable\n    \
                              d. Increment flush_count\n    \
                              e. If Level 0 has >= level0_compaction_trigger SSTables:\n      \
                                 Trigger compaction of Level 0 into Level 1\n\n\
                           COMPACTION (level L):\n  \
                           1. Collect all entries from all SSTables at level L\n  \
                           2. Merge with all entries at level L+1\n  \
                           3. Sort by key, deduplicate (keep newest value)\n  \
                           4. Write as a new SSTable at level L+1\n  \
                           5. Track total_bytes_written for amplification\n  \
                           6. Check if L+1 also needs compaction (cascading)\n\n\
                           READ (get key):\n  \
                           1. Check memtable — return if found (newest data)\n  \
                           2. For each level, newest SSTable first:\n    \
                              a. Check Bloom filter — skip if definitely absent\n    \
                              b. Binary search SSTable entries\n    \
                              c. Return if found\n  \
                           3. Return None if not found in any level"),
            complexity: Complexity { time: String::from_str("Write O(log n) amortized, Point read O(L * log n) where L = levels"), space: String::from_str("O(n) with write amplification factor ~size_ratio per level") },
            use_cases,
            tradeoffs,
            examples,
            motivation: String::from_str("Traditional B-tree storage engines must perform random I/O for every \
                             write because they update data in-place on disk. When write throughput \
                             is the bottleneck — such as ingesting millions of events per second, \
                             logging, or time-series data — this random I/O becomes the limiting \
                             factor.\n\n\
                             The LSM tree solves this by converting random writes into sequential \
                             writes. Instead of seeking to the right page on disk for each insert, \
                             it batches writes in memory and periodically flushes them as a large, \
                             sorted, sequential write. This can achieve 10-100x higher write \
                             throughput compared to B-tree engines, at the cost of more expensive \
                             reads and background compaction work."),
            parameter_guide,
            alternatives,
            suggested_questions,
        }
    }

    fn build_references() -> (r: Vec<Reference>)
        ensures
            r@.len() == 1,
            r@[0].ref_type == ReferenceType::Paper,
            r@[0].title@ == "The Log-Structured Merge-Tree (LSM-Tree)"@,
            r@[0].url is None,
            r@[0].citation matches Some(t) && t@ == "O'Neil, P. et al. (1996). Acta Informatica, 33(4), 351–385."@,
    {
        let mut r: Vec<Reference> = Vec::new();
        r.push(Reference { ref_type: ReferenceType::Paper, title: String::from_str("The Log-Structured Merge-Tree (LSM-Tree)"), url: None, citation: Some(String::from_str("O'Neil, P. et al. (1996). Acta Informatica, 33(4), 351–385.")) });
        r
    }

    fn build_metadata() -> (m: BlockMetadata)
        ensures
            m.documentation.overview@ == "An LSM Tree (Log-Structured Merge-Tree) optimizes write throughput by \
                           buffering all writes in a fast, in-memory sorted structure called a \
                           memtable. When the memtable reaches a configured size threshold, it is \
                           frozen and flushed to disk as an immutable Sorted String Table (SSTable). \
                           Background compaction merges SSTables across levels to bound read \
                           amplification and reclaim space from obsolete entries.\n\n\
                           In a database system, the LSM tree sits at the storage engine layer and \
                           is the dominant architecture for write-optimized key-value stores. Unlike \
                           B-trees that update data in-place (requiring random I/O), LSM trees \
                           convert random writes into sequential writes by batching them in memory \
                           and writing sorted runs. This makes them ideal for modern SSDs and \
                           spinning disks alike.\n\n\
                           Think of an LSM tree like a mail sorting system: incoming letters \
                           (writes) pile up in your inbox (memtable). Periodically you sort the \
                           inbox and file it into a cabinet drawer (Level 0 SSTable). When a drawer \
                           gets too full, you merge it with the next larger filing cabinet \
                           (compaction to Level 1). Finding a specific letter means checking the \
                           inbox first, then the most recent drawer, working backward."@,
            m.references@.len() == 1,
            m.id@ == "lsm-tree-storage"@,
            m.category == BlockCategory::Storage,
            m.name@ == "LSM Tree"@,
            m.description@ == "Log-Structured Merge-Tree with memtable, SSTables, and compaction"@,
            m.version@ == "1.0.0"@,
            m.icon@ == "layers"@,
            m.color@ == "#8B5CF6"@,
    {
        BlockMetadata::new(
            "lsm-tree-storage",
            "LSM Tree",
            BlockCategory::Storage,
            "Log-Structured Merge-Tree with memtable, SSTables, and compaction",
            "layers",
            "#8B5CF6",
            Self::build_documentation(),
            Self::build_references(),
        )
    }

    fn build_inputs() -> (p: Vec<Port>)
        ensures
            p@.len() == 1,
            p@[0].id@ == "records"@,
    {
        let mut p: Vec<Port> = Vec::new();
        p.push(
            Port::new(
                "records",
                "Records",
                PortDirection::Input,
                true,
                false,
                "Stream of records to store (must have a key column)",
            ),
        );
        p
    }

    fn build_outputs() -> (p: Vec<Port>)
        ensures
            p@.len() == 1,
            p@[0].id@ == "stored"@,
    {
        let mut p: Vec<Port> = Vec::new();
        p.push(
            Port::new(
                "stored",
                "Stored Records",
                PortDirection::Output,
                false,
                true,
                "Records after storage with level metadata",
            ),
        );
        p
    }

    fn build_metrics() -> (v: Vec<MetricDefinition>)
        ensures
            v@.len() == 8,
            v@[0].id@ == "memtable_entries"@,
            v@[1].id@ == "total_sstables"@,
            v@[2].id@ == "level_count"@,
            v@[3].id@ == "flushes"@,
            v@[4].id@ == "compactions"@,
            v@[5].id@ == "bloom_true_negatives"@,
            v@[6].id@ == "bloom_false_positives"@,
            v@[7].id@ == "write_amplification"@,
    {
        let mut v: Vec<MetricDefinition> = Vec::new();
        v.push(
            MetricDefinition::new(
                "memtable_entries",
                "Memtable Entries",
                MetricType::Gauge,
                "entries",
                "Current entries in the active memtable",
                AggregationType::Max,
            ),
        );
        v.push(
            MetricDefinition::new(
                "total_sstables",
                "Total SSTables",
                MetricType::Gauge,
                "tables",
                "Total SSTables across all levels",
                AggregationType::Max,
            ),
        );
        v.push(
            MetricDefinition::new(
                "level_count",
                "Level Count",
                MetricType::Gauge,
                "levels",
                "Number of non-empty levels",
                AggregationType::Max,
            ),
        );
        v.push(
            MetricDefinition::new(
                "flushes",
                "Flushes",
                MetricType::Counter,
                "ops",
                "Memtable flushes to Level 0",
                AggregationType::Sum,
            ),
        );
        v.push(
            MetricDefinition::new(
                "compactions",
                "Compactions",
                MetricType::Counter,
                "ops",
                "Compaction operations performed",
                AggregationType::Sum,
            ),
        );
        v.push(
            MetricDefinition::new(
                "bloom_true_negatives",
                "Bloom True Negatives",
                MetricType::Counter,
                "ops",
                "Reads skipped by bloom filter (correctly)",
                AggregationType::Sum,
            ),
        );
        v.push(
            MetricDefinition::new(
                "bloom_false_positives",
                "Bloom False Positives",
                MetricType::Counter,
                "ops",
                "Bloom filter said yes but key was absent",
                AggregationType::Sum,
            ),
        );
        v.push(
            MetricDefinition::new(
                "write_amplification",
                "Write Amplification",
                MetricType::Gauge,
                "x",
                "Total bytes written / user bytes written",
                AggregationType::Max,
            ),
        );
        v
    }

    /// What the block says about itself.
    pub fn metadata(&self) -> (m: &BlockMetadata)
        ensures
            m == self.spec_metadata(),
    {
        &self.metadata
    }

    pub closed spec fn spec_metadata(&self) -> BlockMetadata {
        self.metadata
    }

    /// The block's input ports.
    pub fn inputs(&self) -> (p: &Vec<Port>)
        ensures
            p == self.spec_inputs(),
    {
        &self.input_ports
    }

    pub closed spec fn spec_inputs(&self) -> Vec<Port> {
        self.input_ports
    }

    /// The block's output ports.
    pub fn outputs(&self) -> (p: &Vec<Port>)
        ensures
            p == self.spec_outputs(),
    {
        &self.output_ports
    }

    pub closed spec fn spec_outputs(&self) -> Vec<Port> {
        self.output_ports
    }

    /// The metrics the block reports.
    pub fn metrics(&self) -> (m: &Vec<MetricDefinition>)
        ensures
            m == self.spec_metrics(),
    {
        &self.metric_defs
    }

    pub closed spec fn spec_metrics(&self) -> Vec<MetricDefinition> {
        self.metric_defs
    }
}


} // verus!
