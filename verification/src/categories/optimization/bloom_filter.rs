//! Bloom Filter Block
//!
//! A bit array probed at `num_hash_fns` positions per key. Inserting a key
//! sets its positions; a query answers "maybe present" exactly when all of
//! the key's positions are set, so a key that was inserted is always found
//! (no false negatives), while an absent key may be reported present.
use std::collections::HashSet;
use vstd::prelude::*;
use vstd::string::*;

use crate::common::block::{Alternative, BlockCategory, BlockDocumentation, BlockMetadata, Complexity, Reference, ReferenceType};
use crate::common::metrics::{AggregationType, MetricDefinition, MetricType};
use crate::common::port::{Port, PortDirection};

verus! {

broadcast use vstd::std_specs::hash::group_hash_axioms;

/// The 64-bit mix that spreads a key and a seed over the bit array.
#[verifier::opaque]
pub open spec fn bloom_mix(key: u64, seed: u64) -> u64 {
    let h0 = key.wrapping_add(seed).wrapping_mul(6364136223846793005u64);
    let h1 = h0 ^ (h0 >> 33u64);
    let h2 = h1.wrapping_mul(0xff51afd7ed558ccdu64);
    h2 ^ (h2 >> 33u64)
}

/// The bit that the `seed`-th hash function picks for a key.
pub open spec fn bloom_position(key: u64, seed: int, num_bits: usize) -> int {
    ((bloom_mix(key, seed as u64) as usize) % num_bits) as int
}

/// All `k` positions of a key are set.
pub open spec fn probes_set(bits: Seq<bool>, key: u64, k: int, num_bits: usize) -> bool {
    forall|i: int| 0 <= i < k ==> bits[#[trigger] bloom_position(key, i, num_bits)]
}

/// Bit `j` is one of the first `upto` positions of a key.
pub open spec fn probed_by(key: u64, j: int, upto: int, num_bits: usize) -> bool {
    exists|s: int| 0 <= s < upto && bloom_position(key, s, num_bits) == j
}

proof fn lemma_probed_by_step(key: u64, j: int, upto: int, num_bits: usize)
    requires
        0 <= upto,
    ensures
        probed_by(key, j, upto + 1, num_bits) == (probed_by(key, j, upto, num_bits)
            || bloom_position(key, upto, num_bits) == j),
{
    if probed_by(key, j, upto + 1, num_bits) {
        let s = choose|s: int| 0 <= s < upto + 1 && bloom_position(key, s, num_bits) == j;
        if s < upto {
            assert(probed_by(key, j, upto, num_bits));
        }
    }
    if bloom_position(key, upto, num_bits) == j {
        assert(0 <= upto < upto + 1 && bloom_position(key, upto, num_bits) == j);
    }
    if probed_by(key, j, upto, num_bits) {
        let s = choose|s: int| 0 <= s < upto && bloom_position(key, s, num_bits) == j;
        assert(0 <= s < upto + 1 && bloom_position(key, s, num_bits) == j);
    }
}

/// The number of set bits.
pub open spec fn count_set(bits: Seq<bool>) -> nat
    decreases bits.len(),
{
    if bits.len() == 0 {
        0
    } else {
        count_set(bits.drop_last()) + if bits.last() {
            1nat
        } else {
            0nat
        }
    }
}

/// Some insert among the first `n` requests probes bit `j`.
pub open spec fn inserted_at(reqs: Seq<(bool, u64)>, j: int, n: int, k: int, num_bits: usize) -> bool {
    exists|i: int| 0 <= i < n && reqs[i].0 && #[trigger] probed_by(reqs[i].1, j, k, num_bits)
}

/// The positions among the first `n` requests of the inserts
/// (`inserts`) or of the queries, in order.
pub open spec fn request_positions(reqs: Seq<(bool, u64)>, inserts: bool, n: int) -> Seq<usize>
    decreases n,
{
    if n <= 0 {
        Seq::empty()
    } else {
        request_positions(reqs, inserts, n - 1) + if reqs[n - 1].0 == inserts {
            seq![(n - 1) as usize]
        } else {
            Seq::<usize>::empty()
        }
    }
}

/// Setting one bit adds one to the count where it was clear.
proof fn lemma_count_set_update(s: Seq<bool>, idx: int)
    requires
        0 <= idx < s.len(),
    ensures
        count_set(s.update(idx, true)) == count_set(s) + if s[idx] {
            0nat
        } else {
            1nat
        },
    decreases s.len(),
{
    let u = s.update(idx, true);
    if idx == s.len() - 1 {
        assert(u.drop_last() =~= s.drop_last());
    } else {
        lemma_count_set_update(s.drop_last(), idx);
        assert(u.drop_last() =~= s.drop_last().update(idx, true));
    }
}

/// No more bits are set than there are.
pub proof fn lemma_count_set_bound(s: Seq<bool>)
    ensures
        count_set(s) <= s.len(),
    decreases s.len(),
{
    if s.len() > 0 {
        lemma_count_set_bound(s.drop_last());
    }
}

/// A Bloom filter over 64-bit keys that tracks how its answers compare
/// with the keys actually inserted.
pub struct BloomFilterBlock {
    metadata: BlockMetadata,
    input_ports: Vec<Port>,
    output_ports: Vec<Port>,
    metric_defs: Vec<MetricDefinition>,
    num_bits: usize,
    num_hash_fns: usize,
    bits: Vec<bool>,
    inserted_keys: HashSet<u64>,
    checks: usize,
    true_positives: usize,
    false_positives: usize,
    true_negatives: usize,
}

impl BloomFilterBlock {
    /// The bit array.
    pub closed spec fn bits(&self) -> Seq<bool> {
        self.bits@
    }

    /// The keys inserted so far.
    pub closed spec fn inserted(&self) -> Set<u64> {
        self.inserted_keys@
    }

    /// Every inserted key has all its positions set, so none is ever
    /// reported absent.
    pub open spec fn remembers(&self) -> bool {
        forall|k: u64| #[trigger] self.inserted().contains(k) ==> probes_set(self.bits(), k, self.num_hash_fns() as int, self.num_bits())
    }

    pub closed spec fn spec_num_bits(&self) -> usize {
        self.num_bits
    }

    pub closed spec fn spec_num_hash_fns(&self) -> usize {
        self.num_hash_fns
    }

    pub closed spec fn spec_checks(&self) -> usize {
        self.checks
    }

    pub closed spec fn spec_true_positives(&self) -> usize {
        self.true_positives
    }

    pub closed spec fn spec_false_positives(&self) -> usize {
        self.false_positives
    }

    pub closed spec fn spec_true_negatives(&self) -> usize {
        self.true_negatives
    }

    /// The bit array has `num_bits` bits.
    pub closed spec fn wf(&self) -> bool {
        self.bits@.len() == self.num_bits
    }

    #[verifier::when_used_as_spec(spec_num_bits)]
    pub fn num_bits(&self) -> (r: usize)
        ensures
            r == self.spec_num_bits(),
    {
        self.num_bits
    }

    #[verifier::when_used_as_spec(spec_num_hash_fns)]
    pub fn num_hash_fns(&self) -> (r: usize)
        ensures
            r == self.spec_num_hash_fns(),
    {
        self.num_hash_fns
    }

    /// Queries answered.
    #[verifier::when_used_as_spec(spec_checks)]
    pub fn checks(&self) -> (r: usize)
        ensures
            r == self.spec_checks(),
    {
        self.checks
    }

    /// Queries answered "maybe present" for an inserted key.
    #[verifier::when_used_as_spec(spec_true_positives)]
    pub fn true_positives(&self) -> (r: usize)
        ensures
            r == self.spec_true_positives(),
    {
        self.true_positives
    }

    /// Queries answered "maybe present" for a key never inserted.
    #[verifier::when_used_as_spec(spec_false_positives)]
    pub fn false_positives(&self) -> (r: usize)
        ensures
            r == self.spec_false_positives(),
    {
        self.false_positives
    }

    /// Queries answered "absent".
    #[verifier::when_used_as_spec(spec_true_negatives)]
    pub fn true_negatives(&self) -> (r: usize)
        ensures
            r == self.spec_true_negatives(),
    {
        self.true_negatives
    }

    /// 10,000 bits probed by 7 hash functions.
    pub fn new() -> (bf: Self)
        ensures
            bf.wf(),
            bf.num_bits() == 10_000,
            bf.num_hash_fns() == 7,
            bf.bits() == Seq::new(10_000, |i: int| false),
            bf.inserted() == Set::<u64>::empty(),
            bf.remembers(),
            bf.checks() == 0,
            bf.true_positives() == 0,
            bf.false_positives() == 0,
            bf.true_negatives() == 0,
            bf.spec_metadata().id@ == "bloom-filter"@,
            bf.spec_metadata().category == BlockCategory::Optimization,
    {
        let num_bits: usize = 10_000;
        let bits = vec![false; num_bits];
        let bf = Self {
            metadata: Self::build_metadata(),
            input_ports: Self::build_inputs(),
            output_ports: Self::build_outputs(),
            metric_defs: Self::build_metrics(),
            num_bits,
            num_hash_fns: 7,
            bits,
            inserted_keys: HashSet::new(),
            checks: 0,
            true_positives: 0,
            false_positives: 0,
            true_negatives: 0,
        };
        proof {
            assert(bf.bits@ =~= Seq::new(10_000, |i: int| false));
        }
        bf
    }

    /// Replaces the bit array by `num_bits` clear bits. The record of
    /// inserted keys is kept.
    pub fn set_num_bits(&mut self, num_bits: usize)
        ensures
            final(self).wf(),
            final(self).num_bits() == num_bits,
            final(self).bits() == Seq::new(num_bits as nat, |i: int| false),
            final(self).num_hash_fns() == old(self).num_hash_fns(),
            final(self).inserted() == old(self).inserted(),
            final(self).checks() == old(self).checks(),
            final(self).true_positives() == old(self).true_positives(),
            final(self).false_positives() == old(self).false_positives(),
            final(self).true_negatives() == old(self).true_negatives(),
    {
        self.num_bits = num_bits;
        self.bits = vec![false; num_bits];
        proof {
            assert(self.bits@ =~= Seq::new(num_bits as nat, |i: int| false));
        }
    }

    /// Sets how many hash functions probe each key.
    pub fn set_num_hash_functions(&mut self, num_hash_fns: usize)
        ensures
            final(self).num_hash_fns() == num_hash_fns,
            final(self).num_bits() == old(self).num_bits(),
            final(self).bits() == old(self).bits(),
            final(self).inserted() == old(self).inserted(),
            final(self).checks() == old(self).checks(),
            final(self).true_positives() == old(self).true_positives(),
            final(self).false_positives() == old(self).false_positives(),
            final(self).true_negatives() == old(self).true_negatives(),
            old(self).wf() ==> final(self).wf(),
    {
        self.num_hash_fns = num_hash_fns;
    }

    /// The bit that the `seed`-th hash function picks for a key.
    fn hash(&self, key: u64, seed: usize) -> (idx: usize)
        requires
            self.num_bits > 0,
        ensures
            idx == bloom_position(key, seed as int, self.num_bits),
            idx < self.num_bits,
    {
        proof {
            reveal(bloom_mix);
        }
        let mut h = key.wrapping_add(seed as u64).wrapping_mul(6364136223846793005);
        h ^= h >> 33;
        h = h.wrapping_mul(0xff51afd7ed558ccd);
        h ^= h >> 33;
        (h as usize) % self.num_bits
    }

    /// Sets the key's positions and records it as inserted. Bits that were
    /// set stay set.
    pub fn insert(&mut self, key: u64)
        requires
            old(self).wf(),
            old(self).num_bits() > 0,
        ensures
            final(self).wf(),
            final(self).inserted() == old(self).inserted().insert(key),
            final(self).bits().len() == old(self).bits().len(),
            forall|j: int|
                0 <= j < final(self).bits().len() ==> #[trigger] final(self).bits()[j] == (old(
                    self,
                ).bits()[j] || probed_by(key, j, old(self).num_hash_fns() as int, old(self).num_bits())),
            probes_set(final(self).bits(), key, final(self).num_hash_fns() as int, final(self).num_bits()),
            old(self).remembers() ==> final(self).remembers(),
            count_set(old(self).bits()) <= count_set(final(self).bits()),
            count_set(final(self).bits()) <= count_set(old(self).bits()) + old(self).num_hash_fns(),
            probes_set(old(self).bits(), key, old(self).num_hash_fns() as int, old(self).num_bits()) ==> final(self).bits() == old(self).bits(),
            final(self).num_bits() == old(self).num_bits(),
            final(self).num_hash_fns() == old(self).num_hash_fns(),
            final(self).checks() == old(self).checks(),
            final(self).true_positives() == old(self).true_positives(),
            final(self).false_positives() == old(self).false_positives(),
            final(self).true_negatives() == old(self).true_negatives(),
    {
        self.inserted_keys.insert(key);
        let ghost old_bits = self.bits@;
        let k = self.num_hash_fns;
        for i in 0..k
            invariant
                self.bits@.len() == self.num_bits == old_bits.len(),
                self.num_bits > 0,
                self.num_hash_fns == k,
                self.num_bits == old(self).num_bits,
                self.num_hash_fns == old(self).num_hash_fns,
                self.inserted_keys@ == old(self).inserted_keys@.insert(key),
                self.checks == old(self).checks,
                self.true_positives == old(self).true_positives,
                self.false_positives == old(self).false_positives,
                self.true_negatives == old(self).true_negatives,
                forall|j: int|
                    0 <= j < self.bits@.len() ==> #[trigger] self.bits@[j] == (old_bits[j] || probed_by(
                        key,
                        j,
                        i as int,
                        self.num_bits,
                    )),
                count_set(old_bits) <= count_set(self.bits@) <= count_set(old_bits) + i,
                probes_set(old_bits, key, k as int, self.num_bits) ==> self.bits@ == old_bits,
        {
            let idx = self.hash(key, i);
            let ghost before = self.bits@;
            proof {
                lemma_count_set_update(before, idx as int);
                if probes_set(old_bits, key, k as int, self.num_bits) {
                    assert(old_bits[bloom_position(key, i as int, self.num_bits)]);
                    assert(before.update(idx as int, true) =~= before);
                }
            }
            self.bits.set(idx, true);
            proof {
                assert forall|j: int| 0 <= j < self.bits@.len() implies #[trigger] self.bits@[j] == (
                old_bits[j] || probed_by(key, j, i + 1, self.num_bits)) by {
                    lemma_probed_by_step(key, j, i as int, self.num_bits);
                }
            }
        }
        proof {
            assert forall|i: int| 0 <= i < k implies self.bits@[#[trigger] bloom_position(
                key,
                i,
                self.num_bits,
            )] by {
                let j = bloom_position(key, i, self.num_bits);
                vstd::arithmetic::div_mod::lemma_mod_bound(
                    (#[verifier::truncate] (bloom_mix(key, i as u64) as usize)) as int,
                    self.num_bits as int,
                );
                assert(0 <= j < self.bits@.len());
                assert(probed_by(key, j, k as int, self.num_bits));
            }
            if old(self).remembers() {
                assert forall|x: u64| #[trigger] self.inserted().contains(x) implies probes_set(self.bits(), x, self.num_hash_fns() as int, self.num_bits()) by {
                    if x != key {
                        assert(old(self).inserted().contains(x));
                        assert forall|i: int| 0 <= i < k implies self.bits@[#[trigger] bloom_position(x, i, self.num_bits)] by {
                            let j = bloom_position(x, i, self.num_bits);
                            vstd::arithmetic::div_mod::lemma_mod_bound(
                                (#[verifier::truncate] (bloom_mix(x, i as u64) as usize)) as int,
                                self.num_bits as int,
                            );
                            assert(old_bits[j]);
                        }
                    }
                }
            }
        }
    }

    /// Answers whether a key may have been inserted: true exactly when all
    /// of its positions are set. The answer is tallied as a true positive,
    /// false positive or true negative against the keys actually inserted.
    pub fn might_contain(&mut self, key: u64) -> (maybe: bool)
        requires
            old(self).wf(),
            old(self).num_bits() > 0,
            old(self).checks() < usize::MAX,
            old(self).true_positives() < usize::MAX,
            old(self).false_positives() < usize::MAX,
            old(self).true_negatives() < usize::MAX,
        ensures
            final(self).wf(),
            maybe == probes_set(old(self).bits(), key, old(self).num_hash_fns() as int, old(self).num_bits()),
            old(self).remembers() && old(self).inserted().contains(key) ==> maybe,
            old(self).remembers() ==> final(self).remembers(),
            final(self).checks() == old(self).checks() + 1,
            final(self).true_positives() == old(self).true_positives() + (if maybe && old(self).inserted().contains(key) {
                1int
            } else {
                0int
            }),
            final(self).false_positives() == old(self).false_positives() + (if maybe && !old(self).inserted().contains(key) {
                1int
            } else {
                0int
            }),
            final(self).true_negatives() == old(self).true_negatives() + (if !maybe {
                1int
            } else {
                0int
            }),
            final(self).bits() == old(self).bits(),
            final(self).inserted() == old(self).inserted(),
            final(self).num_bits() == old(self).num_bits(),
            final(self).num_hash_fns() == old(self).num_hash_fns(),
    {
        self.checks = self.checks + 1;
        let k = self.num_hash_fns;
        let mut bloom_says_yes = true;
        let mut i: usize = 0;
        while i < k && bloom_says_yes
            invariant
                0 <= i <= k,
                k == self.num_hash_fns,
                self.num_bits > 0,
                self.bits@.len() == self.num_bits,
                self.bits@ == old(self).bits@,
                self.num_bits == old(self).num_bits,
                self.num_hash_fns == old(self).num_hash_fns,
                self.inserted_keys@ == old(self).inserted_keys@,
                self.checks == old(self).checks + 1,
                self.true_positives == old(self).true_positives,
                self.false_positives == old(self).false_positives,
                self.true_negatives == old(self).true_negatives,
                bloom_says_yes ==> probes_set(self.bits@, key, i as int, self.num_bits),
                !bloom_says_yes ==> !probes_set(self.bits@, key, k as int, self.num_bits),
            decreases k - i,
        {
            let idx = self.hash(key, i);
            if !self.bits[idx] {
                bloom_says_yes = false;
            }
            i = i + 1;
        }
        let actually_present = self.inserted_keys.contains(&key);
        if bloom_says_yes {
            if actually_present {
                self.true_positives = self.true_positives + 1;
            } else {
                self.false_positives = self.false_positives + 1;
            }
        } else {
            self.true_negatives = self.true_negatives + 1;
        }
        proof {
            if old(self).remembers() {
                assert forall|x: u64| #[trigger] self.inserted().contains(x) implies probes_set(self.bits(), x, self.num_hash_fns() as int, self.num_bits()) by {
                    assert(old(self).inserted().contains(x));
                }
            }
        }
        bloom_says_yes
    }

    /// Serves a batch of requests, each an insert (`true`) or a query
    /// (`false`) of a key: every insert first, in order, then every query.
    /// The answers come out queries first, in order, each with its position
    /// and whether the filter may hold its key, then the inserts, each with
    /// its position and `true`.
    pub fn serve_requests(&mut self, reqs: &Vec<(bool, u64)>) -> (out: Vec<(usize, bool)>)
        requires
            old(self).wf(),
            old(self).num_bits() > 0,
            old(self).checks() + reqs@.len() <= usize::MAX,
            old(self).true_positives() + reqs@.len() <= usize::MAX,
            old(self).false_positives() + reqs@.len() <= usize::MAX,
            old(self).true_negatives() + reqs@.len() <= usize::MAX,
        ensures
            final(self).wf(),
            final(self).num_bits() == old(self).num_bits(),
            final(self).num_hash_fns() == old(self).num_hash_fns(),
            final(self).bits().len() == old(self).bits().len(),
            forall|j: int| 0 <= j < final(self).bits().len() ==> #[trigger] final(self).bits()[j] == (old(self).bits()[j]
                || inserted_at(reqs@, j, reqs@.len() as int, old(self).num_hash_fns() as int, old(self).num_bits())),
            old(self).remembers() ==> final(self).remembers(),
            out@ == request_positions(reqs@, false, reqs@.len() as int).map_values(|i: usize| (i, probes_set(
                final(self).bits(),
                reqs@[i as int].1,
                final(self).num_hash_fns() as int,
                final(self).num_bits(),
            ))) + request_positions(reqs@, true, reqs@.len() as int).map_values(|i: usize| (i, true)),
            final(self).checks() == old(self).checks() + request_positions(reqs@, false, reqs@.len() as int).len(),
    {
        let ghost k = self.num_hash_fns as int;
        let ghost nb = self.num_bits;
        let ghost b0 = self.bits@;
        let mut i: usize = 0;
        while i < reqs.len()
            invariant
                self.wf(),
                self.num_bits == nb,
                self.num_bits > 0,
                self.num_hash_fns as int == k,
                b0 == old(self).bits(),
                self.bits@.len() == b0.len(),
                0 <= i <= reqs@.len(),
                forall|j: int| 0 <= j < self.bits@.len() ==> #[trigger] self.bits@[j] == (b0[j] || inserted_at(reqs@, j, i as int, k, nb)),
                old(self).remembers() ==> self.remembers(),
                self.checks() == old(self).checks(),
                self.true_positives() == old(self).true_positives(),
                self.false_positives() == old(self).false_positives(),
                self.true_negatives() == old(self).true_negatives(),
            decreases reqs@.len() - i,
        {
            let ghost before = self.bits@;
            if reqs[i].0 {
                self.insert(reqs[i].1);
            }
            proof {
                assert forall|j: int| 0 <= j < self.bits@.len() implies #[trigger] self.bits@[j] == (b0[j] || inserted_at(reqs@, j, i + 1, k, nb)) by {
                    assert(before[j] == (b0[j] || inserted_at(reqs@, j, i as int, k, nb)));
                }
            }
            i = i + 1;
        }
        let ghost bits = self.bits@;
        let mut out: Vec<(usize, bool)> = Vec::new();
        let mut q: usize = 0;
        while q < reqs.len()
            invariant
                self.wf(),
                self.num_bits == nb,
                self.num_bits > 0,
                self.num_hash_fns as int == k,
                self.bits@ == bits,
                0 <= q <= reqs@.len(),
                out@ == request_positions(reqs@, false, q as int).map_values(|p: usize| (p, probes_set(bits, reqs@[p as int].1, k, nb))),
                old(self).remembers() ==> self.remembers(),
                self.checks() == old(self).checks() + request_positions(reqs@, false, q as int).len(),
                request_positions(reqs@, false, q as int).len() <= q,
                self.true_positives() <= old(self).true_positives() + q,
                self.false_positives() <= old(self).false_positives() + q,
                self.true_negatives() <= old(self).true_negatives() + q,
                old(self).checks() + reqs@.len() <= usize::MAX,
                old(self).true_positives() + reqs@.len() <= usize::MAX,
                old(self).false_positives() + reqs@.len() <= usize::MAX,
                old(self).true_negatives() + reqs@.len() <= usize::MAX,
            decreases reqs@.len() - q,
        {
            let ghost o0 = out@;
            if !reqs[q].0 {
                let hit = self.might_contain(reqs[q].1);
                out.push((q, hit));
                proof {
                    assert(out@ =~= request_positions(reqs@, false, q + 1).map_values(|p: usize| (p, probes_set(bits, reqs@[p as int].1, k, nb))));
                }
            } else {
                proof {
                    assert(out@ =~= request_positions(reqs@, false, q + 1).map_values(|p: usize| (p, probes_set(bits, reqs@[p as int].1, k, nb))));
                }
            }
            q = q + 1;
        }
        let ghost queries = out@;
        let mut t: usize = 0;
        while t < reqs.len()
            invariant
                0 <= t <= reqs@.len(),
                out@ == queries + request_positions(reqs@, true, t as int).map_values(|p: usize| (p, true)),
            decreases reqs@.len() - t,
        {
            if reqs[t].0 {
                out.push((t, true));
            }
            proof {
                assert(out@ =~= queries + request_positions(reqs@, true, t + 1).map_values(|p: usize| (p, true)));
            }
            t = t + 1;
        }
        out
    }

    /// The number of set bits.
    pub fn bits_used(&self) -> (r: usize)
        ensures
            r == count_set(self.bits()),
            r <= self.bits().len(),
    {
        let mut count: usize = 0;
        let mut i: usize = 0;
        while i < self.bits.len()
            invariant
                0 <= i <= self.bits@.len(),
                count == count_set(self.bits@.subrange(0, i as int)),
                count <= i,
            decreases self.bits@.len() - i,
        {
            proof {
                assert(self.bits@.subrange(0, i as int + 1).drop_last() =~= self.bits@.subrange(0, i as int));
            }
            if self.bits[i] {
                count = count + 1;
            }
            i = i + 1;
        }
        proof {
            assert(self.bits@.subrange(0, i as int) =~= self.bits@);
        }
        count
    }
}

impl BloomFilterBlock {
    fn build_documentation() -> (d: BlockDocumentation)
        ensures
            d.overview@ == "A Bloom filter is a space-efficient probabilistic data structure that tests whether \
                           an element is a member of a set. It can tell you with certainty that an element is \
                           NOT in the set, but can only say that an element is PROBABLY in the set. False positives \
                           are possible, but false negatives are not.\n\n\
                           In database systems, Bloom filters are used as a first-pass check before expensive \
                           disk I/O. When a query looks up a key, the Bloom filter is checked first. If the \
                           filter says 'no', the database skips the disk read entirely — a huge performance win. \
                           If the filter says 'maybe yes', the database proceeds with the actual read, which \
                           might turn out to be a false positive (the key is not actually there).\n\n\
                           Think of a Bloom filter like a bouncer at a club with a guest list. The bouncer can \
                           instantly tell you 'you are definitely NOT on the list' (true negative). But sometimes \
                           the bouncer says 'you might be on the list, go check inside' — and when you get \
                           inside, it turns out you were not actually on the list (false positive). The bouncer \
                           never wrongly turns away someone who IS on the list (no false negatives)."@,
            d.algorithm@ == "INSERT(key):\n  \
                           For i in 0..k (each hash function):\n    \
                             index = hash_i(key) % num_bits\n    \
                             bits[index] = 1\n\n\
                           QUERY(key):\n  \
                           For i in 0..k:\n    \
                             index = hash_i(key) % num_bits\n    \
                             If bits[index] == 0:\n      \
                               Return DEFINITELY_NOT_PRESENT\n  \
                           Return POSSIBLY_PRESENT\n\n\
                           FALSE_POSITIVE_RATE:\n  \
                           Theoretical: (1 - e^(-kn/m))^k\n  \
                           Where n=items inserted, m=total bits, k=hash functions\n  \
                           Optimal k = (m/n) * ln(2) ≈ 0.693 * (m/n)"@,
            d.motivation@ == "Without a Bloom filter, a point lookup in an LSM-tree database might need to check \
                             every SSTable on disk to determine if a key exists. With thousands of SSTables, \
                             this means thousands of disk reads for a single query — each taking milliseconds. \
                             A Bloom filter for each SSTable allows the database to skip the vast majority of \
                             these disk reads with a single in-memory bit check.\n\n\
                             The impact is dramatic: RocksDB with 10 bits per key achieves roughly a 1% false \
                             positive rate, meaning 99% of unnecessary disk reads are eliminated. For a read-heavy \
                             workload with many non-existent keys, this can improve query latency by 10-100x."@,
            d.complexity.time@ == "O(k) per insert and query, where k is the number of hash functions"@,
            d.complexity.space@ == "O(m) bits, where m = -n·ln(p) / (ln2)² for n items at false-positive rate p"@,
            d.use_cases@.len() == 5,
            d.use_cases@[0]@ == "LSM-tree databases skip SSTables that don't contain the key"@,
            d.use_cases@[1]@ == "Cassandra checks Bloom filters before reading from disk"@,
            d.use_cases@[2]@ == "RocksDB uses per-SSTable Bloom filters to reduce read amplification"@,
            d.use_cases@[3]@ == "Network routers use Bloom filters for packet filtering and deduplication"@,
            d.use_cases@[4]@ == "Distributed caches use Bloom filters to avoid network round-trips for missing keys"@,
            d.tradeoffs@.len() == 6,
            d.tradeoffs@[0]@ == "More bits = lower false positive rate but more memory"@,
            d.tradeoffs@[1]@ == "More hash functions = lower false positives up to a point, then diminishing returns"@,
            d.tradeoffs@[2]@ == "Cannot delete elements (use Counting Bloom filter for that)"@,
            d.tradeoffs@[3]@ == "Optimal k = (m/n) · ln(2) ≈ 0.693 · (m/n)"@,
            d.tradeoffs@[4]@ == "Filter must be rebuilt if the underlying data changes (no incremental delete)"@,
            d.tradeoffs@[5]@ == "At high fill ratios (>50% bits set), false positive rate degrades rapidly"@,
            d.examples@.len() == 5,
            d.examples@[0]@ == "Cassandra — per-SSTable Bloom filter configured via bloom_filter_fp_chance (default 0.01)"@,
            d.examples@[1]@ == "RocksDB — configurable bits_per_key (default 10), full and partitioned filters"@,
            d.examples@[2]@ == "LevelDB — uses Bloom filters to skip levels during point lookups"@,
            d.examples@[3]@ == "Chrome — used Bloom filters for safe browsing URL checking before switching to prefix sets"@,
            d.examples@[4]@ == "HBase — per-StoreFile Bloom filter to skip unnecessary block reads"@,
            d.suggested_questions@.len() == 3,
            d.suggested_questions@[0]@ == "How do I calculate the optimal number of bits and hash functions for a target false positive rate?"@,
            d.suggested_questions@[1]@ == "What is a Counting Bloom filter, and how does it support deletions?"@,
            d.suggested_questions@[2]@ == "Why do LSM-tree databases need Bloom filters but B-tree databases generally do not?"@,
            d.parameter_guide@.len() == 2,
            d.parameter_guide@[0].0@ == "num_bits"@,
            d.parameter_guide@[0].1@ == "The total number of bits in the Bloom filter's bit array. More bits means lower false \
                      positive rates but higher memory usage. The relationship is: for n items with target \
                      false positive rate p, you need m = -n*ln(p)/(ln2)^2 bits. For example, 1000 items \
                      at 1% FP rate needs ~9585 bits (~1.2 KB). At 10 bits per item, expect ~1% FP rate. \
                      At 5 bits per item, expect ~5% FP rate. Recommended: 10,000-100,000 for typical \
                      SSTable sizes, scaling with the number of keys per SSTable."@,
            d.parameter_guide@[1].0@ == "num_hash_functions"@,
            d.parameter_guide@[1].1@ == "The number of independent hash functions used to set and check bits. The optimal \
                      number is k = (m/n) * ln(2), where m is bits and n is items. Too few hash functions \
                      means higher false positive rates. Too many means the bit array fills up faster, also \
                      increasing false positives. For 10 bits per key, the optimal k is about 7. For 5 bits \
                      per key, optimal k is about 3-4. Recommended: 7 for the default 10,000 bits with \
                      ~1000 items; adjust based on your bits-per-key ratio."@,
            d.alternatives@.len() == 1,
            d.alternatives@[0].block_type@ == "statistics-collector"@,
            d.alternatives@[0].comparison@ == "Bloom filters and statistics collectors serve different optimization \
                                     purposes. Bloom filters answer 'is this specific key present?' with a \
                                     quick probabilistic check, avoiding unnecessary I/O for point lookups. \
                                     Statistics collectors gather distribution data (cardinality, histograms) \
                                     to help the query planner choose efficient execution strategies. Use Bloom \
                                     filters for point lookup optimization in LSM-trees; use statistics for \
                                     query planning and join order selection."@,
    {
        let mut use_cases: Vec<String> = Vec::new();
        use_cases.push(String::from_str("LSM-tree databases skip SSTables that don't contain the key"));
        use_cases.push(String::from_str("Cassandra checks Bloom filters before reading from disk"));
        use_cases.push(String::from_str("RocksDB uses per-SSTable Bloom filters to reduce read amplification"));
        use_cases.push(String::from_str("Network routers use Bloom filters for packet filtering and deduplication"));
        use_cases.push(String::from_str("Distributed caches use Bloom filters to avoid network round-trips for missing keys"));
        let mut tradeoffs: Vec<String> = Vec::new();
        tradeoffs.push(String::from_str("More bits = lower false positive rate but more memory"));
        tradeoffs.push(String::from_str("More hash functions = lower false positives up to a point, then diminishing returns"));
        tradeoffs.push(String::from_str("Cannot delete elements (use Counting Bloom filter for that)"));
        tradeoffs.push(String::from_str("Optimal k = (m/n) · ln(2) ≈ 0.693 · (m/n)"));
        tradeoffs.push(String::from_str("Filter must be rebuilt if the underlying data changes (no incremental delete)"));
        tradeoffs.push(String::from_str("At high fill ratios (>50% bits set), false positive rate degrades rapidly"));
        let mut examples: Vec<String> = Vec::new();
        examples.push(String::from_str("Cassandra — per-SSTable Bloom filter configured via bloom_filter_fp_chance (default 0.01)"));
        examples.push(String::from_str("RocksDB — configurable bits_per_key (default 10), full and partitioned filters"));
        examples.push(String::from_str("LevelDB — uses Bloom filters to skip levels during point lookups"));
        examples.push(String::from_str("Chrome — used Bloom filters for safe browsing URL checking before switching to prefix sets"));
        examples.push(String::from_str("HBase — per-StoreFile Bloom filter to skip unnecessary block reads"));
        let mut suggested_questions: Vec<String> = Vec::new();
        suggested_questions.push(String::from_str("How do I calculate the optimal number of bits and hash functions for a target false positive rate?"));
        suggested_questions.push(String::from_str("What is a Counting Bloom filter, and how does it support deletions?"));
        suggested_questions.push(String::from_str("Why do LSM-tree databases need Bloom filters but B-tree databases generally do not?"));
        let mut parameter_guide: Vec<(String, String)> = Vec::new();
        parameter_guide.push((String::from_str("num_bits"), String::from_str("The total number of bits in the Bloom filter's bit array. More bits means lower false \
                      positive rates but higher memory usage. The relationship is: for n items with target \
                      false positive rate p, you need m = -n*ln(p)/(ln2)^2 bits. For example, 1000 items \
                      at 1% FP rate needs ~9585 bits (~1.2 KB). At 10 bits per item, expect ~1% FP rate. \
                      At 5 bits per item, expect ~5% FP rate. Recommended: 10,000-100,000 for typical \
                      SSTable sizes, scaling with the number of keys per SSTable.")));
        parameter_guide.push((String::from_str("num_hash_functions"), String::from_str("The number of independent hash functions used to set and check bits. The optimal \
                      number is k = (m/n) * ln(2), where m is bits and n is items. Too few hash functions \
                      means higher false positive rates. Too many means the bit array fills up faster, also \
                      increasing false positives. For 10 bits per key, the optimal k is about 7. For 5 bits \
                      per key, optimal k is about 3-4. Recommended: 7 for the default 10,000 bits with \
                      ~1000 items; adjust based on your bits-per-key ratio.")));
        let mut alternatives: Vec<Alternative> = Vec::new();
        alternatives.push(Alternative { block_type: String::from_str("statistics-collector"), comparison: String::from_str("Bloom filters and statistics collectors serve different optimization \
                                     purposes. Bloom filters answer 'is this specific key present?' with a \
                                     quick probabilistic check, avoiding unnecessary I/O for point lookups. \
                                     Statistics collectors gather distribution data (cardinality, histograms) \
                                     to help the query planner choose efficient execution strategies. Use Bloom \
                                     filters for point lookup optimization in LSM-trees; use statistics for \
                                     query planning and join order selection.") });
        BlockDocumentation {
            overview: String::from_str("A Bloom filter is a space-efficient probabilistic data structure that tests whether \
                           an element is a member of a set. It can tell you with certainty that an element is \
                           NOT in the set, but can only say that an element is PROBABLY in the set. False positives \
                           are possible, but false negatives are not.\n\n\
                           In database systems, Bloom filters are used as a first-pass check before expensive \
                           disk I/O. When a query looks up a key, the Bloom filter is checked first. If the \
                           filter says 'no', the database skips the disk read entirely — a huge performance win. \
                           If the filter says 'maybe yes', the database proceeds with the actual read, which \
                           might turn out to be a false positive (the key is not actually there).\n\n\
                           Think of a Bloom filter like a bouncer at a club with a guest list. The bouncer can \
                           instantly tell you 'you are definitely NOT on the list' (true negative). But sometimes \
                           the bouncer says 'you might be on the list, go check inside' — and when you get \
                           inside, it turns out you were not actually on the list (false positive). The bouncer \
                           never wrongly turns away someone who IS on the list (no false negatives)."),
            algorithm: String::from_str("INSERT(key):\n  \
                           For i in 0..k (each hash function):\n    \
                             index = hash_i(key) % num_bits\n    \
                             bits[index] = 1\n\n\
                           QUERY(key):\n  \
                           For i in 0..k:\n    \
                             index = hash_i(key) % num_bits\n    \
                             If bits[index] == 0:\n      \
                               Return DEFINITELY_NOT_PRESENT\n  \
                           Return POSSIBLY_PRESENT\n\n\
                           FALSE_POSITIVE_RATE:\n  \
                           Theoretical: (1 - e^(-kn/m))^k\n  \
                           Where n=items inserted, m=total bits, k=hash functions\n  \
                           Optimal k = (m/n) * ln(2) ≈ 0.693 * (m/n)"),
            complexity: Complexity { time: String::from_str("O(k) per insert and query, where k is the number of hash functions"), space: String::from_str("O(m) bits, where m = -n·ln(p) / (ln2)² for n items at false-positive rate p") },
            use_cases,
            tradeoffs,
            examples,
            motivation: String::from_str("Without a Bloom filter, a point lookup in an LSM-tree database might need to check \
                             every SSTable on disk to determine if a key exists. With thousands of SSTables, \
                             this means thousands of disk reads for a single query — each taking milliseconds. \
                             A Bloom filter for each SSTable allows the database to skip the vast majority of \
                             these disk reads with a single in-memory bit check.\n\n\
                             The impact is dramatic: RocksDB with 10 bits per key achieves roughly a 1% false \
                             positive rate, meaning 99% of unnecessary disk reads are eliminated. For a read-heavy \
                             workload with many non-existent keys, this can improve query latency by 10-100x."),
            parameter_guide,
            alternatives,
            suggested_questions,
        }
    }

    fn build_references() -> (r: Vec<Reference>)
        ensures
            r@.len() == 2,
            r@[0].ref_type == ReferenceType::Paper,
            r@[0].title@ == "Space/Time Trade-offs in Hash Coding with Allowable Errors — Burton Howard Bloom (1970)"@,
            r@[0].url is None,
            r@[0].citation matches Some(t) && t@ == "Bloom, B. H. (1970). Communications of the ACM, 13(7), 422–426."@,
            r@[1].ref_type == ReferenceType::Book,
            r@[1].title@ == "Database Internals by Alex Petrov — Chapter 8: Log-Structured Storage"@,
            r@[1].url is None,
            r@[1].citation matches Some(t) && t@ == "Petrov, A. (2019). Database Internals. O'Reilly."@,
    {
        let mut r: Vec<Reference> = Vec::new();
        r.push(Reference { ref_type: ReferenceType::Paper, title: String::from_str("Space/Time Trade-offs in Hash Coding with Allowable Errors — Burton Howard Bloom (1970)"), url: None, citation: Some(String::from_str("Bloom, B. H. (1970). Communications of the ACM, 13(7), 422–426.")) });
        r.push(Reference { ref_type: ReferenceType::Book, title: String::from_str("Database Internals by Alex Petrov — Chapter 8: Log-Structured Storage"), url: None, citation: Some(String::from_str("Petrov, A. (2019). Database Internals. O'Reilly.")) });
        r
    }

    fn build_metadata() -> (m: BlockMetadata)
        ensures
            m.documentation.overview@ == "A Bloom filter is a space-efficient probabilistic data structure that tests whether \
                           an element is a member of a set. It can tell you with certainty that an element is \
                           NOT in the set, but can only say that an element is PROBABLY in the set. False positives \
                           are possible, but false negatives are not.\n\n\
                           In database systems, Bloom filters are used as a first-pass check before expensive \
                           disk I/O. When a query looks up a key, the Bloom filter is checked first. If the \
                           filter says 'no', the database skips the disk read entirely — a huge performance win. \
                           If the filter says 'maybe yes', the database proceeds with the actual read, which \
                           might turn out to be a false positive (the key is not actually there).\n\n\
                           Think of a Bloom filter like a bouncer at a club with a guest list. The bouncer can \
                           instantly tell you 'you are definitely NOT on the list' (true negative). But sometimes \
                           the bouncer says 'you might be on the list, go check inside' — and when you get \
                           inside, it turns out you were not actually on the list (false positive). The bouncer \
                           never wrongly turns away someone who IS on the list (no false negatives)."@,
            m.references@.len() == 2,
            m.id@ == "bloom-filter"@,
            m.category == BlockCategory::Optimization,
            m.name@ == "Bloom Filter"@,
            m.description@ == "Probabilistic filter that prevents unnecessary disk reads"@,
            m.version@ == "1.0.0"@,
            m.icon@ == "sparkles"@,
            m.color@ == "#8B5CF6"@,
    {
        BlockMetadata::new(
            "bloom-filter",
            "Bloom Filter",
            BlockCategory::Optimization,
            "Probabilistic filter that prevents unnecessary disk reads",
            "sparkles",
            "#8B5CF6",
            Self::build_documentation(),
            Self::build_references(),
        )
    }

    fn build_inputs() -> (p: Vec<Port>)
        ensures
            p@.len() == 1,
            p@[0].id@ == "requests"@,
    {
        let mut p: Vec<Port> = Vec::new();
        p.push(
            Port::new(
                "requests",
                "Lookup Requests",
                PortDirection::Input,
                true,
                false,
                "Records to check against the filter. Uses `_key` field for membership test.",
            ),
        );
        p
    }

    fn build_outputs() -> (p: Vec<Port>)
        ensures
            p@.len() == 1,
            p@[0].id@ == "filtered"@,
    {
        let mut p: Vec<Port> = Vec::new();
        p.push(
            Port::new(
                "filtered",
                "Filtered Results",
                PortDirection::Output,
                false,
                true,
                "Records enriched with `_bloom_hit` (bool) — true if possibly present",
            ),
        );
        p
    }

    fn build_metrics() -> (v: Vec<MetricDefinition>)
        ensures
            v@.len() == 6,
            v@[0].id@ == "checks"@,
            v@[1].id@ == "true_positives"@,
            v@[2].id@ == "false_positives"@,
            v@[3].id@ == "true_negatives"@,
            v@[4].id@ == "false_positive_rate"@,
            v@[5].id@ == "bits_used"@,
    {
        let mut v: Vec<MetricDefinition> = Vec::new();
        v.push(
            MetricDefinition::new(
                "checks",
                "Total Checks",
                MetricType::Counter,
                "queries",
                "Total membership queries against the filter",
                AggregationType::Sum,
            ),
        );
        v.push(
            MetricDefinition::new(
                "true_positives",
                "True Positives",
                MetricType::Counter,
                "queries",
                "Queries correctly identified as present",
                AggregationType::Sum,
            ),
        );
        v.push(
            MetricDefinition::new(
                "false_positives",
                "False Positives",
                MetricType::Counter,
                "queries",
                "Queries incorrectly reported as present (wasted reads)",
                AggregationType::Sum,
            ),
        );
        v.push(
            MetricDefinition::new(
                "true_negatives",
                "True Negatives",
                MetricType::Counter,
                "queries",
                "Queries correctly filtered out (saved reads)",
                AggregationType::Sum,
            ),
        );
        v.push(
            MetricDefinition::new(
                "false_positive_rate",
                "False Positive Rate",
                MetricType::Gauge,
                "%",
                "Percentage of negative queries that were false positives",
                AggregationType::Avg,
            ),
        );
        v.push(
            MetricDefinition::new(
                "bits_used",
                "Bits Used",
                MetricType::Gauge,
                "bits",
                "Number of set bits in the filter",
                AggregationType::Max,
            ),
        );
        v
    }

    /// What the block says about itself.
    pub fn metadata(&self) -> (m: &BlockMetadata)
        ensures
            m == self.spec_metadata(),
    {
        &self.metadata
    }

    pub closed spec fn spec_metadata(&self) -> BlockMetadata {
        self.metadata
    }

    /// The block's input ports.
    pub fn inputs(&self) -> (p: &Vec<Port>)
        ensures
            p == self.spec_inputs(),
    {
        &self.input_ports
    }

    pub closed spec fn spec_inputs(&self) -> Vec<Port> {
        self.input_ports
    }

    /// The block's output ports.
    pub fn outputs(&self) -> (p: &Vec<Port>)
        ensures
            p == self.spec_outputs(),
    {
        &self.output_ports
    }

    pub closed spec fn spec_outputs(&self) -> Vec<Port> {
        self.output_ports
    }

    /// The metrics the block reports.
    pub fn metrics(&self) -> (m: &Vec<MetricDefinition>)
        ensures
            m == self.spec_metrics(),
    {
        &self.metric_defs
    }

    pub closed spec fn spec_metrics(&self) -> Vec<MetricDefinition> {
        self.metric_defs
    }
}

} // verus!
