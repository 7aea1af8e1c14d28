//! MVCC Block
//!
//! Snapshot isolation through multi-version concurrency control. A write
//! adds a new version of a key instead of overwriting it. Each version
//! carries the timestamp of the transaction that created it (`xmin`) and,
//! once superseded, of the one that replaced it (`xmax`). A snapshot at
//! time `ts` sees the newest version with `xmin <= ts` and no `xmax`, or
//! an `xmax` after `ts`. Garbage collection drops versions superseded
//! before the oldest active transaction began.
use serde_json::Value as JsonValue;
use std::collections::HashMap;
use vstd::prelude::*;
use vstd::string::*;

use crate::categories::text::{decimal, decimal_string};
use crate::common::block::{Alternative, BlockCategory, BlockDocumentation, BlockError, BlockMetadata, Complexity, Reference, ReferenceType};
use crate::common::json::{clone_value, json_text, json_text_of};
use crate::common::keyed::{distinct_keys, has_key, key_index, lemma_key_index, lemma_push_row, lemma_remove_row, lemma_update_value, value_of};
use crate::common::metrics::{AggregationType, MetricDefinition, MetricType};
use crate::common::port::{Port, PortDirection};

verus! {

broadcast use {vstd::std_specs::hash::group_hash_axioms, vstd::seq_lib::group_filter_ensures};

/// One version of a key's data.
pub struct Version {
    pub data: JsonValue,
    /// The transaction that wrote it.
    pub xmin: u64,
    /// The transaction that replaced it, once one has.
    pub xmax: Option<u64>,
}

/// A snapshot at `ts` sees `v`: it was written at or before `ts` and not
/// replaced by then.
pub open spec fn visible(v: Version, ts: u64) -> bool {
    v.xmin <= ts && match v.xmax {
        Some(x) => x > ts,
        None => true,
    }
}

/// The versions of key `k` in table `t`; none for a key without a row.
pub open spec fn chain_in(t: Seq<(Seq<char>, Seq<Version>)>, k: Seq<char>) -> Seq<Version> {
    match value_of(t, k) {
        Some(c) => c,
        None => Seq::empty(),
    }
}

/// The newest version of a chain (newest first) that a snapshot at `ts`
/// sees.
pub open spec fn visible_version(ch: Seq<Version>, ts: u64) -> Option<Version>
    decreases ch.len(),
{
    if ch.len() == 0 {
        None
    } else if visible(ch[0], ts) {
        Some(ch[0])
    } else {
        visible_version(ch.drop_first(), ts)
    }
}

/// What a snapshot at `ts` reads of a chain: the data of its visible
/// version.
pub open spec fn read_at(ch: Seq<Version>, ts: u64) -> Option<JsonValue> {
    match visible_version(ch, ts) {
        Some(v) => Some(v.data),
        None => None,
    }
}

/// The chain after its newest live version is marked replaced by `x`.
pub open spec fn mark_replaced(ch: Seq<Version>, x: u64) -> Seq<Version>
    decreases ch.len(),
{
    if ch.len() == 0 {
        ch
    } else if ch[0].xmax is None {
        ch.update(0, Version { data: ch[0].data, xmin: ch[0].xmin, xmax: Some(x) })
    } else {
        seq![ch[0]] + mark_replaced(ch.drop_first(), x)
    }
}

/// A write by `txn` to a key whose chain is `ch` conflicts: the newest
/// version is another transaction's, and that one has not committed or
/// committed no earlier than `txn` began.
pub open spec fn conflicts(ch: Seq<Version>, txn: u64, commits: Map<u64, u64>) -> bool {
    &&& ch.len() > 0
    &&& ch[0].xmin != txn
    &&& commits.contains_key(ch[0].xmin) ==> commits[ch[0].xmin] >= txn
}

/// The chain after `txn` writes `data`: a new newest version, and the
/// previous newest live version marked replaced by `txn`.
pub open spec fn written(ch: Seq<Version>, data: JsonValue, txn: u64) -> Seq<Version> {
    seq![Version { data: data, xmin: txn, xmax: None }] + mark_replaced(ch, txn)
}

/// `v` was replaced before `min_active`, so no snapshot still sees it.
pub open spec fn is_garbage(v: Version, min_active: u64) -> bool {
    match v.xmax {
        Some(x) => x < min_active,
        None => false,
    }
}

/// The versions a collection keeps.
pub open spec fn collected(ch: Seq<Version>, min_active: u64) -> Seq<Version> {
    ch.filter(|v: Version| !is_garbage(v, min_active))
}

/// The key a batch record is written under: the JSON text of its id, or
/// `key_<txn>` for the transaction `txn` that writes it.
pub open spec fn record_key(id: Option<JsonValue>, txn: u64) -> Seq<char> {
    match id {
        Some(v) => json_text_of(v),
        None => "key_"@ + decimal(txn as nat),
    }
}

/// The key of record `k` of a batch begun at time `ts0`: each record's
/// transaction begins two ticks after the previous one's.
pub open spec fn batch_key(records: Seq<(Option<JsonValue>, JsonValue)>, ts0: u64, k: int) -> Seq<char> {
    record_key(records[k].0, (ts0 + 2 * k) as u64)
}

/// No record after `k` and before `n` shares its key.
pub open spec fn last_for_key(records: Seq<(Option<JsonValue>, JsonValue)>, ts0: u64, k: int, n: int) -> bool {
    forall|j: int| k < j < n ==> #[trigger] batch_key(records, ts0, j) != batch_key(records, ts0, k)
}

/// What a snapshot reads was written at or before it and not yet replaced
/// then; the newest version, where the snapshot sees it, is what it reads;
/// and a snapshot taken before every version was written reads nothing.
pub proof fn law_snapshot_reads(ch: Seq<Version>, ts: u64)
    ensures
        read_at(ch, ts) is Some ==> exists|i: int| 0 <= i < ch.len() && #[trigger] ch[i].data == read_at(ch, ts)->0 && ch[i].xmin <= ts
            && (ch[i].xmax is None || ch[i].xmax->0 > ts),
        ch.len() > 0 && ch[0].xmin <= ts && ch[0].xmax is None ==> read_at(ch, ts) == Some(ch[0].data),
        (forall|i: int| 0 <= i < ch.len() ==> (#[trigger] ch[i]).xmin > ts) ==> read_at(ch, ts) is None,
    decreases ch.len(),
{
    if ch.len() > 0 {
        law_snapshot_reads(ch.drop_first(), ts);
        if read_at(ch, ts) is Some && !visible(ch[0], ts) {
            let i = choose|i: int| 0 <= i < ch.drop_first().len() && #[trigger] ch.drop_first()[i].data == read_at(ch.drop_first(), ts)->0
                && ch.drop_first()[i].xmin <= ts && (ch.drop_first()[i].xmax is None || ch.drop_first()[i].xmax->0 > ts);
            assert(ch[i + 1] == ch.drop_first()[i]);
        }
        if forall|i: int| 0 <= i < ch.len() ==> (#[trigger] ch[i]).xmin > ts {
            assert forall|i: int| 0 <= i < ch.drop_first().len() implies (#[trigger] ch.drop_first()[i]).xmin > ts by {
                assert(ch.drop_first()[i] == ch[i + 1]);
            }
            assert(ch[0].xmin > ts);
        }
    }
}

/// A write conflicts exactly when another transaction wrote the key's
/// newest version and has not committed before the writer began: a newest
/// version whose writer has no commit time yet always blocks another
/// writer, and a chain with no version, or whose newest version is the
/// writer's own or was committed before it began, never does.
pub proof fn law_write_conflicts(ch: Seq<Version>, txn: u64, commits: Map<u64, u64>)
    ensures
        ch.len() > 0 && ch[0].xmin != txn && !commits.contains_key(ch[0].xmin) ==> conflicts(ch, txn, commits),
        ch.len() > 0 && ch[0].xmin != txn && commits.contains_key(ch[0].xmin) && commits[ch[0].xmin] >= txn ==> conflicts(ch, txn, commits),
        ch.len() == 0 ==> !conflicts(ch, txn, commits),
        ch.len() > 0 && ch[0].xmin == txn ==> !conflicts(ch, txn, commits),
        ch.len() > 0 && commits.contains_key(ch[0].xmin) && commits[ch[0].xmin] < txn ==> !conflicts(ch, txn, commits),
{
}

/// A collection keeps a chain's newest version where it is live.
proof fn lemma_collected_keeps_newest(ch: Seq<Version>, m: u64)
    requires
        ch.len() > 0,
        ch[0].xmax is None,
    ensures
        collected(ch, m).len() > 0,
        collected(ch, m)[0] == ch[0],
{
    let p = |v: Version| !is_garbage(v, m);
    let one = seq![ch[0]];
    assert(ch =~= one + ch.drop_first());
    Seq::filter_distributes_over_add(one, ch.drop_first(), p);
    reveal_with_fuel(Seq::filter, 2);
    assert(one.drop_last() =~= Seq::<Version>::empty());
    assert(one.filter(p) =~= seq![ch[0]]);
}

/// The smallest element of a nonempty sequence.
pub open spec fn seq_min(s: Seq<u64>) -> u64
    decreases s.len(),
{
    if s.len() <= 1 {
        s[0]
    } else if s.last() < seq_min(s.drop_last()) {
        s.last()
    } else {
        seq_min(s.drop_last())
    }
}

/// The number of versions over all chains.
pub open spec fn version_total(t: Seq<(Seq<char>, Seq<Version>)>) -> nat
    decreases t.len(),
{
    if t.len() == 0 {
        0
    } else {
        version_total(t.drop_last()) + t.last().1.len()
    }
}

/// The number of chains with a version visible at `ts`.
pub open spec fn visible_total(t: Seq<(Seq<char>, Seq<Version>)>, ts: u64) -> nat
    decreases t.len(),
{
    if t.len() == 0 {
        0
    } else {
        visible_total(t.drop_last(), ts) + if visible_version(t.last().1, ts) is Some {
            1nat
        } else {
            0nat
        }
    }
}

/// The number of versions over all chains that a collection would drop.
pub open spec fn garbage_total(t: Seq<(Seq<char>, Seq<Version>)>, min_active: u64) -> nat
    decreases t.len(),
{
    if t.len() == 0 {
        0
    } else {
        garbage_total(t.drop_last(), min_active) + t.last().1.filter(|v: Version| is_garbage(v, min_active)).len()
    }
}

/// A multi-version store with snapshot reads.
pub struct MVCCBlock {
    metadata: BlockMetadata,
    input_ports: Vec<Port>,
    output_ports: Vec<Port>,
    metric_defs: Vec<MetricDefinition>,
    gc_threshold: usize,
    /// Each key with its versions, newest first.
    store: Vec<(String, Vec<Version>)>,
    current_ts: u64,
    /// Transactions begun and not committed.
    active_txns: Vec<u64>,
    /// For each committed transaction, its commit timestamp.
    commit_times: HashMap<u64, u64>,
    versions_created: usize,
    gc_runs: usize,
    gc_reclaimed: usize,
    snapshot_reads: usize,
    write_conflicts: usize,
}

impl MVCCBlock {
    /// Each key with its version chain, newest version first.
    pub closed spec fn chains(&self) -> Seq<(Seq<char>, Seq<Version>)> {
        self.store@.map_values(|e: (String, Vec<Version>)| (e.0@, e.1@))
    }

    /// The versions of key `k`, newest first; none for an unknown key.
    pub open spec fn chain_of(&self, k: Seq<char>) -> Seq<Version> {
        chain_in(self.chains(), k)
    }

    /// The transactions begun and not yet committed.
    pub closed spec fn active(&self) -> Seq<u64> {
        self.active_txns@
    }

    /// The commit timestamp of each committed transaction.
    pub closed spec fn commit_times(&self) -> Map<u64, u64> {
        self.commit_times@
    }

    /// The oldest active transaction, or the current time when none is.
    pub open spec fn min_active(&self) -> u64 {
        if self.active().len() == 0 {
            self.spec_current_ts()
        } else {
            seq_min(self.active())
        }
    }

    pub closed spec fn spec_current_ts(&self) -> u64 {
        self.current_ts
    }

    pub closed spec fn spec_gc_threshold(&self) -> usize {
        self.gc_threshold
    }

    pub closed spec fn spec_versions_created(&self) -> usize {
        self.versions_created
    }

    pub closed spec fn spec_gc_runs(&self) -> usize {
        self.gc_runs
    }

    pub closed spec fn spec_gc_reclaimed(&self) -> usize {
        self.gc_reclaimed
    }

    pub closed spec fn spec_snapshot_reads(&self) -> usize {
        self.snapshot_reads
    }

    pub closed spec fn spec_write_conflicts(&self) -> usize {
        self.write_conflicts
    }

    /// Keys are distinct, every chain holds a version, the active
    /// transactions are distinct and began before now, and a collection is
    /// due every `gc_threshold` writes, which is positive.
    pub closed spec fn wf(&self) -> bool {
        &&& distinct_keys(self.chains())
        &&& forall|i: int| 0 <= i < self.chains().len() ==> (#[trigger] self.chains()[i]).1.len() > 0
        &&& self.active_txns@.no_duplicates()
        &&& forall|i: int| 0 <= i < self.active_txns@.len() ==> #[trigger] self.active_txns@[i] < self.current_ts
        &&& self.gc_threshold > 0
    }

    /// The number of versions held.
    pub open spec fn versions_held(&self) -> nat {
        version_total(self.chains())
    }

    pub fn new() -> (m: Self)
        ensures
            m.wf(),
            m.settled(),
            m.chains() == Seq::<(Seq<char>, Seq<Version>)>::empty(),
            m.active() == Seq::<u64>::empty(),
            m.commit_times() == Map::<u64, u64>::empty(),
            m.spec_current_ts() == 1,
            m.spec_gc_threshold() == 100,
            m.spec_versions_created() == 0,
            m.spec_gc_runs() == 0,
            m.spec_gc_reclaimed() == 0,
            m.spec_snapshot_reads() == 0,
            m.spec_write_conflicts() == 0,
            m.spec_metadata().id@ == "mvcc"@,
            m.spec_metadata().category == BlockCategory::Concurrency,
    {
        let m = Self {
            metadata: Self::build_metadata(),
            input_ports: Self::build_inputs(),
            output_ports: Self::build_outputs(),
            metric_defs: Self::build_metrics(),
            gc_threshold: 100,
            store: Vec::new(),
            current_ts: 1,
            active_txns: Vec::new(),
            commit_times: HashMap::new(),
            versions_created: 0,
            gc_runs: 0,
            gc_reclaimed: 0,
            snapshot_reads: 0,
            write_conflicts: 0,
        };
        proof {
            assert(m.chains() =~= Seq::<(Seq<char>, Seq<Version>)>::empty());
        }
        m
    }

    /// Starts a transaction: its timestamp is the current time, which
    /// then moves on by one.
    pub fn begin_txn(&mut self) -> (ts: u64)
        requires
            old(self).wf(),
            old(self).spec_current_ts() < u64::MAX,
        ensures
            final(self).wf(),
            ts == old(self).spec_current_ts(),
            final(self).spec_current_ts() == ts + 1,
            final(self).active() == old(self).active().push(ts),
            final(self).chains() == old(self).chains(),
            final(self).commit_times() == old(self).commit_times(),
            final(self).same_counters(*old(self)),
    {
        let ts = self.current_ts;
        self.current_ts = self.current_ts + 1;
        self.active_txns.push(ts);
        proof {
            let a = self.active_txns@;
            assert(a.no_duplicates()) by {
                assert forall|i: int, j: int| 0 <= i < a.len() && 0 <= j < a.len() && i != j implies a[i] != a[j] by {
                    if i < a.len() - 1 && j < a.len() - 1 {
                        assert(old(self).active_txns@[i] == a[i] && old(self).active_txns@[j] == a[j]);
                    } else if i == a.len() - 1 {
                        assert(old(self).active_txns@[j] < ts);
                    } else {
                        assert(old(self).active_txns@[i] < ts);
                    }
                }
            }
            assert forall|i: int| 0 <= i < a.len() implies #[trigger] a[i] < self.current_ts by {
                if i < a.len() - 1 {
                    assert(old(self).active_txns@[i] == a[i]);
                }
            }
        }
        ts
    }

    /// Commits a transaction: it is no longer active, and its commit
    /// timestamp is the current time, which then moves on by one.
    pub fn commit(&mut self, txn_ts: u64)
        requires
            old(self).wf(),
            old(self).spec_current_ts() < u64::MAX,
        ensures
            final(self).wf(),
            final(self).active() == old(self).active().filter(|a: u64| a != txn_ts),
            final(self).commit_times() == old(self).commit_times().insert(txn_ts, old(self).spec_current_ts()),
            final(self).spec_current_ts() == old(self).spec_current_ts() + 1,
            final(self).chains() == old(self).chains(),
            final(self).same_counters(*old(self)),
    {
        let ghost a0 = self.active_txns@;
        let mut i: usize = 0;
        while i < self.active_txns.len() && self.active_txns[i] != txn_ts
            invariant
                self.active_txns@ == a0,
                0 <= i <= a0.len(),
                forall|j: int| 0 <= j < i ==> a0[j] != txn_ts,
            decreases a0.len() - i,
        {
            i = i + 1;
        }
        if i < self.active_txns.len() {
            self.active_txns.remove(i);
            proof {
                let u = a0.remove(i as int);
                assert(a0 =~= a0.subrange(0, i as int).push(txn_ts) + a0.subrange(i as int + 1, a0.len() as int));
                assert(u =~= a0.subrange(0, i as int) + a0.subrange(i as int + 1, a0.len() as int));
                lemma_filter_without(a0, txn_ts, i as int);
            }
        } else {
            proof {
                lemma_filter_absent(a0, txn_ts, a0.len() as int);
                assert(a0.subrange(0, a0.len() as int) =~= a0);
            }
        }
        let commit_ts = self.current_ts;
        self.current_ts = self.current_ts + 1;
        self.commit_times.insert(txn_ts, commit_ts);
        proof {
            let a = self.active_txns@;
            assert forall|k: int| 0 <= k < a.len() implies #[trigger] a[k] < self.current_ts by {
                let j = if k < i { k } else { k + 1 };
                assert(a[k] == a0[j]);
            }
            assert(a.no_duplicates()) by {
                assert forall|x: int, y: int| 0 <= x < a.len() && 0 <= y < a.len() && x != y implies a[x] != a[y] by {
                    let ox = if x < i { x } else { x + 1 };
                    let oy = if y < i { y } else { y + 1 };
                    assert(a[x] == a0[ox] && a[y] == a0[oy]);
                }
            }
        }
    }

    /// The row of `key`, if it has versions.
    fn find_chain(&self, key: &String) -> (r: Option<usize>)
        ensures
            match r {
                Some(i) => i < self.chains().len() && self.chains()[i as int].0 == key@,
                None => !has_key(self.chains(), key@),
            },
    {
        let mut i: usize = 0;
        while i < self.store.len()
            invariant
                0 <= i <= self.store@.len(),
                self.chains().len() == self.store@.len(),
                forall|j: int| 0 <= j < i ==> self.chains()[j].0 != key@,
            decreases self.store@.len() - i,
        {
            if self.store[i].0 == *key {
                return Some(i);
            }
            i = i + 1;
        }
        None
    }

    /// Reads `key` as a snapshot at `snapshot_ts` sees it: the data of the
    /// newest version written at or before then and not yet replaced.
    pub fn read(&mut self, snapshot_ts: u64, key: &str) -> (r: Option<JsonValue>)
        requires
            old(self).wf(),
            old(self).spec_snapshot_reads() < usize::MAX,
        ensures
            final(self).wf(),
            r == read_at(old(self).chain_of(key@), snapshot_ts),
            final(self).spec_snapshot_reads() == old(self).spec_snapshot_reads() + 1,
            final(self).chains() == old(self).chains(),
            final(self).active() == old(self).active(),
            final(self).commit_times() == old(self).commit_times(),
            final(self).spec_current_ts() == old(self).spec_current_ts(),
            final(self).spec_gc_threshold() == old(self).spec_gc_threshold(),
            final(self).spec_versions_created() == old(self).spec_versions_created(),
            final(self).spec_gc_runs() == old(self).spec_gc_runs(),
            final(self).spec_gc_reclaimed() == old(self).spec_gc_reclaimed(),
            final(self).spec_write_conflicts() == old(self).spec_write_conflicts(),
    {
        self.snapshot_reads = self.snapshot_reads + 1;
        let k = key.to_owned();
        match self.find_chain(&k) {
            Some(i) => {
                proof {
                    lemma_key_index(self.chains(), i as int);
                }
                let ghost ch = self.store@[i as int].1@;
                match first_visible(&self.store[i].1, snapshot_ts) {
                    Some(j) => Some(clone_value(&self.store[i].1[j].data)),
                    None => None,
                }
            },
            None => None,
        }
    }

    /// The number of versions held over all keys.
    pub fn total_versions(&self) -> (n: usize)
        requires
            self.versions_held() <= usize::MAX,
        ensures
            n == self.versions_held(),
    {
        let mut n: usize = 0;
        let mut i: usize = 0;
        while i < self.store.len()
            invariant
                0 <= i <= self.store@.len(),
                self.chains().len() == self.store@.len(),
                version_total(self.chains()) <= usize::MAX,
                n == version_total(self.chains().subrange(0, i as int)),
            decreases self.store@.len() - i,
        {
            proof {
                let t = self.chains();
                assert(t.subrange(0, i as int + 1).drop_last() =~= t.subrange(0, i as int));
                lemma_version_total_split(t, i as int + 1);
            }
            n = n + self.store[i].1.len();
            i = i + 1;
        }
        proof {
            assert(self.chains().subrange(0, i as int) =~= self.chains());
        }
        n
    }

    /// The number of keys with versions.
    pub fn chain_count(&self) -> (n: usize)
        ensures
            n == self.chains().len(),
    {
        self.store.len()
    }

    /// The number of keys a snapshot at `ts` sees a version of.
    pub fn visible_count(&self, ts: u64) -> (n: usize)
        ensures
            n == visible_total(self.chains(), ts),
    {
        let mut n: usize = 0;
        let mut i: usize = 0;
        while i < self.store.len()
            invariant
                0 <= i <= self.store@.len(),
                self.chains().len() == self.store@.len(),
                n == visible_total(self.chains().subrange(0, i as int), ts),
                n <= i,
            decreases self.store@.len() - i,
        {
            proof {
                let t = self.chains();
                assert(t.subrange(0, i as int + 1).drop_last() =~= t.subrange(0, i as int));
            }
            if first_visible(&self.store[i].1, ts).is_some() {
                n = n + 1;
            }
            i = i + 1;
        }
        proof {
            assert(self.chains().subrange(0, i as int) =~= self.chains());
        }
        n
    }

    /// The oldest active transaction, or the current time when none is.
    fn min_active_ts(&self) -> (m: u64)
        ensures
            m == self.min_active(),
    {
        let n = self.active_txns.len();
        if n == 0 {
            return self.current_ts;
        }
        let mut m = self.active_txns[0];
        let mut i: usize = 1;
        proof {
            assert(self.active_txns@.subrange(0, 1).drop_last().len() == 0);
        }
        while i < n
            invariant
                n == self.active_txns@.len(),
                1 <= i <= n,
                m == seq_min(self.active_txns@.subrange(0, i as int)),
            decreases n - i,
        {
            proof {
                let a = self.active_txns@;
                assert(a.subrange(0, i as int + 1).drop_last() =~= a.subrange(0, i as int));
            }
            if self.active_txns[i] < m {
                m = self.active_txns[i];
            }
            i = i + 1;
        }
        proof {
            assert(self.active_txns@.subrange(0, n as int) =~= self.active_txns@);
        }
        m
    }

    /// Garbage collection: drops every version replaced before the oldest
    /// active transaction began (before now, when none is active), then
    /// every key left without versions.
    pub fn run_gc(&mut self)
        requires
            old(self).wf(),
            old(self).spec_gc_runs() < usize::MAX,
            old(self).spec_gc_reclaimed() + old(self).versions_held() <= usize::MAX,
        ensures
            final(self).wf(),
            forall|k: Seq<char>| #[trigger] final(self).chain_of(k) == collected(old(self).chain_of(k), old(self).min_active()),
            forall|ts: u64, x: Seq<char>| old(self).active().contains(ts) ==> #[trigger] read_at(final(self).chain_of(x), ts)
                == read_at(old(self).chain_of(x), ts),
            final(self).spec_gc_runs() == old(self).spec_gc_runs() + 1,
            final(self).spec_gc_reclaimed() + final(self).versions_held() == old(self).spec_gc_reclaimed() + old(self).versions_held(),
            final(self).active() == old(self).active(),
            final(self).commit_times() == old(self).commit_times(),
            final(self).spec_current_ts() == old(self).spec_current_ts(),
            final(self).spec_gc_threshold() == old(self).spec_gc_threshold(),
            final(self).spec_versions_created() == old(self).spec_versions_created(),
            final(self).spec_snapshot_reads() == old(self).spec_snapshot_reads(),
            final(self).spec_write_conflicts() == old(self).spec_write_conflicts(),
    {
        let m = self.min_active_ts();
        let ghost t0 = self.chains();
        let mut reclaimed: usize = 0;
        let mut i: usize = 0;
        while i < self.store.len()
            invariant
                self.chains().len() == t0.len(),
                self.store@.len() == t0.len(),
                0 <= i <= t0.len(),
                distinct_keys(t0),
                version_total(t0) <= usize::MAX,
                forall|j: int| 0 <= j < t0.len() ==> (#[trigger] self.chains()[j]).0 == t0[j].0,
                forall|j: int| 0 <= j < i ==> (#[trigger] self.chains()[j]).1 == collected(t0[j].1, m),
                forall|j: int| i <= j < t0.len() ==> (#[trigger] self.chains()[j]).1 == t0[j].1,
                reclaimed + version_total(self.chains().subrange(0, i as int)) == version_total(t0.subrange(0, i as int)),
                self.active_txns == old(self).active_txns,
                self.commit_times == old(self).commit_times,
                self.current_ts == old(self).current_ts,
                self.same_counters(*old(self)),
                self.gc_threshold > 0,
            decreases t0.len() - i,
        {
            let ghost t1 = self.chains();
            let kept = collect_chain(&self.store[i].1, m);
            proof {
                assert(t1[i as int].1 == self.store@[i as int].1@);
                self.store@[i as int].1@.lemma_filter_len(|v: Version| !is_garbage(v, m));
                lemma_version_total_split(t0, i as int + 1);
                assert(t0.subrange(0, i as int + 1).drop_last() =~= t0.subrange(0, i as int));
            }
            let n0 = self.store[i].1.len();
            let n1 = kept.len();
            reclaimed = reclaimed + (n0 - n1);
            let key = self.store[i].0.clone();
            self.store.set(i, (key, kept));
            proof {
                let t2 = self.chains();
                assert(t2.subrange(0, i as int + 1).drop_last() =~= t2.subrange(0, i as int));
                assert(t2.subrange(0, i as int) =~= t1.subrange(0, i as int));
                assert forall|j: int| 0 <= j < t0.len() implies (#[trigger] t2[j]).0 == t0[j].0 by {
                    if j != i {
                        assert(t2[j] == t1[j]);
                    }
                }
                assert forall|j: int| 0 <= j < i + 1 implies (#[trigger] t2[j]).1 == collected(t0[j].1, m) by {
                    if j != i {
                        assert(t2[j] == t1[j]);
                    }
                }
                assert forall|j: int| i + 1 <= j < t0.len() implies (#[trigger] t2[j]).1 == t0[j].1 by {
                    assert(t2[j] == t1[j]);
                }
            }
            i = i + 1;
        }
        proof {
            let t1 = self.chains();
            assert(t1.subrange(0, i as int) =~= t1);
            assert(t0.subrange(0, i as int) =~= t0);
            assert(distinct_keys(t1)) by {
                assert forall|a: int, b: int| 0 <= a < t1.len() && 0 <= b < t1.len() && a != b implies #[trigger] t1[a].0 != #[trigger] t1[b].0 by {
                    assert(t1[a].0 == t0[a].0 && t1[b].0 == t0[b].0);
                }
            }
            assert forall|k: Seq<char>| #[trigger] chain_in(t1, k) == collected(chain_in(t0, k), m) by {
                if !has_key(t0, k) {
                    assert(collected(Seq::<Version>::empty(), m) =~= Seq::<Version>::empty());
                }
                if has_key(t0, k) {
                    let j = key_index(t0, k);
                    lemma_key_index(t0, j);
                    assert(t1[j].0 == k);
                    lemma_key_index(t1, j);
                }
                if has_key(t1, k) {
                    let j = key_index(t1, k);
                    assert(t0[j].0 == k);
                }
            }
        }
        let ghost t1 = self.chains();
        let mut i: usize = 0;
        while i < self.store.len()
            invariant
                0 <= i <= self.store@.len(),
                self.chains().len() == self.store@.len(),
                distinct_keys(self.chains()),
                forall|j: int| 0 <= j < i ==> (#[trigger] self.chains()[j]).1.len() > 0,
                forall|k: Seq<char>| #[trigger] self.chain_of(k) == chain_in(t1, k),
                forall|k: Seq<char>| #[trigger] chain_in(t1, k) == collected(chain_in(t0, k), m),
                t0 == old(self).chains(),
                m == old(self).min_active(),
                version_total(self.chains()) == version_total(t1),
                self.active_txns == old(self).active_txns,
                self.commit_times == old(self).commit_times,
                self.current_ts == old(self).current_ts,
                self.same_counters(*old(self)),
                self.gc_threshold > 0,
            decreases self.store@.len() - i,
        {
            if self.store[i].1.len() == 0 {
                let ghost t2 = self.chains();
                let ghost s2 = *self;
                assert(forall|k: Seq<char>| #[trigger] s2.chain_of(k) == chain_in(t1, k));
                self.store.remove(i);
                proof {
                    assert(self.chains() =~= t2.remove(i as int));
                    lemma_remove_row(t2, i as int);
                    lemma_version_total_remove_empty(t2, i as int);
                    assert forall|j: int| 0 <= j < i implies (#[trigger] self.chains()[j]).1.len() > 0 by {
                        assert(self.chains()[j] == t2[j]);
                    }
                    assert forall|k: Seq<char>| #[trigger] self.chain_of(k) == chain_in(t1, k) by {
                        assert(s2.chain_of(k) == chain_in(t1, k));
                        assert(s2.chains() == t2);
                        if k == t2[i as int].0 {
                            lemma_key_index(t2, i as int);
                            assert(t2[i as int].1 =~= Seq::<Version>::empty());
                        }
                    }
                }
            } else {
                i = i + 1;
            }
        }
        let ghost mid = *self;
        assert(forall|k: Seq<char>| #[trigger] mid.chain_of(k) == collected(old(self).chain_of(k), m));
        self.gc_runs = self.gc_runs + 1;
        self.gc_reclaimed = self.gc_reclaimed + reclaimed;
        proof {
            assert(self.chains() == mid.chains());
            assert(forall|k: Seq<char>| #[trigger] self.chain_of(k) == mid.chain_of(k));
            assert forall|ts: u64, x: Seq<char>| old(self).active().contains(ts) implies #[trigger] read_at(self.chain_of(x), ts)
                == read_at(old(self).chain_of(x), ts) by {
                let a = old(self).active();
                let j = choose|j: int| 0 <= j < a.len() && a[j] == ts;
                lemma_seq_min(a, j);
                lemma_collected_keeps_reads(old(self).chain_of(x), m, ts);
            }
        }
    }

    /// The versions of `k` once `txn` has written `data` to `key`.
    pub open spec fn after_write(&self, key: Seq<char>, data: JsonValue, txn: u64, k: Seq<char>) -> Seq<Version> {
        if k == key {
            written(self.chain_of(key), data, txn)
        } else {
            self.chain_of(k)
        }
    }

    /// Writes `data` to `key` as transaction `txn_ts`. The write is refused,
    /// and counted as a conflict, when the key's newest version belongs to
    /// another transaction that has not committed or committed after
    /// `txn_ts` began. Otherwise the data becomes the newest version, the
    /// version it replaces is marked so, and every `gc_threshold`-th
    /// version written sets off a garbage collection.
    pub fn write(&mut self, txn_ts: u64, key: &str, data: JsonValue) -> (r: bool)
        requires
            old(self).wf(),
            old(self).spec_versions_created() < usize::MAX,
            old(self).spec_write_conflicts() < usize::MAX,
            old(self).spec_gc_runs() < usize::MAX,
            old(self).spec_gc_reclaimed() + old(self).versions_held() + 1 <= usize::MAX,
        ensures
            final(self).wf(),
            r == !conflicts(old(self).chain_of(key@), txn_ts, old(self).commit_times()),
            ({
                let ch = old(self).chain_of(key@);
                let ct = old(self).commit_times();
                &&& ch.len() > 0 && ch[0].xmin != txn_ts && !ct.contains_key(ch[0].xmin) ==> !r && final(self).chains() == old(self).chains()
                &&& ch.len() > 0 && ch[0].xmin != txn_ts && ct.contains_key(ch[0].xmin) && ct[ch[0].xmin] >= txn_ts ==> !r
                &&& ch.len() == 0 || ch[0].xmin == txn_ts || (ct.contains_key(ch[0].xmin) && ct[ch[0].xmin] < txn_ts) ==> r
            }),
            !r ==> {
                &&& final(self).chains() == old(self).chains()
                &&& final(self).spec_write_conflicts() == old(self).spec_write_conflicts() + 1
                &&& final(self).spec_versions_created() == old(self).spec_versions_created()
                &&& final(self).spec_gc_runs() == old(self).spec_gc_runs()
                &&& final(self).spec_gc_reclaimed() == old(self).spec_gc_reclaimed()
            },
            r ==> {
                &&& final(self).spec_write_conflicts() == old(self).spec_write_conflicts()
                &&& final(self).spec_versions_created() == old(self).spec_versions_created() + 1
                &&& if (old(self).spec_versions_created() + 1) % (old(self).spec_gc_threshold() as int) == 0 {
                    &&& forall|k: Seq<char>| #[trigger] final(self).chain_of(k) == collected(
                        old(self).after_write(key@, data, txn_ts, k),
                        old(self).min_active(),
                    )
                    &&& final(self).spec_gc_runs() == old(self).spec_gc_runs() + 1
                    &&& final(self).spec_gc_reclaimed() + final(self).versions_held() == old(self).spec_gc_reclaimed() + old(self).versions_held() + 1
                } else {
                    &&& forall|k: Seq<char>| #[trigger] final(self).chain_of(k) == old(self).after_write(key@, data, txn_ts, k)
                    &&& final(self).spec_gc_runs() == old(self).spec_gc_runs()
                    &&& final(self).spec_gc_reclaimed() == old(self).spec_gc_reclaimed()
                    &&& final(self).versions_held() == old(self).versions_held() + 1
                }
            },
            forall|ts: u64, x: Seq<char>|
                old(self).active().contains(ts) && ts < txn_ts ==> #[trigger] read_at(final(self).chain_of(x), ts)
                    == read_at(old(self).chain_of(x), ts),
            r ==> read_at(final(self).chain_of(key@), txn_ts) == Some(data),
            final(self).active() == old(self).active(),
            final(self).commit_times() == old(self).commit_times(),
            final(self).spec_current_ts() == old(self).spec_current_ts(),
            final(self).spec_gc_threshold() == old(self).spec_gc_threshold(),
            final(self).spec_snapshot_reads() == old(self).spec_snapshot_reads(),
    {
        let k = key.to_owned();
        let ghost t0 = self.chains();
        let ghost newest = Version { data: data, xmin: txn_ts, xmax: None };
        match self.find_chain(&k) {
            Some(i) => {
                proof {
                    lemma_key_index(t0, i as int);
                    assert(t0[i as int].1.len() > 0);
                    assert(t0[i as int].1 == self.store@[i as int].1@);
                }
                let latest = self.store[i].1[0].xmin;
                if latest != txn_ts {
                    match self.commit_times.get(&latest) {
                        Some(c) => {
                            if *c >= txn_ts {
                                self.write_conflicts = self.write_conflicts + 1;
                                return false;
                            }
                        },
                        None => {
                            self.write_conflicts = self.write_conflicts + 1;
                            return false;
                        },
                    }
                }
                let ghost ch = self.store@[i as int].1@;
                mark_newest_live(&mut self.store[i].1, txn_ts);
                self.store[i].1.insert(0, Version { data, xmin: txn_ts, xmax: None });
                proof {
                    let w = written(ch, newest.data, txn_ts);
                    assert(self.store@[i as int].1@ =~= w);
                    assert(self.chains() =~= t0.update(i as int, (t0[i as int].0, w)));
                    lemma_update_value(t0, i as int, w);
                    lemma_mark_replaced_len(ch, txn_ts);
                    lemma_version_total_update(t0, i as int, (t0[i as int].0, w));
                    assert forall|j: int| 0 <= j < self.chains().len() implies (#[trigger] self.chains()[j]).1.len() > 0 by {
                        if j != i {
                            assert(self.chains()[j] == t0[j]);
                        }
                    }
                }
            },
            None => {
                let mut chain: Vec<Version> = Vec::new();
                chain.push(Version { data, xmin: txn_ts, xmax: None });
                let ghost e = (k@, chain@);
                self.store.push((k, chain));
                proof {
                    assert(self.chains() =~= t0.push(e));
                    lemma_push_row(t0, e);
                    assert(mark_replaced(Seq::<Version>::empty(), txn_ts) =~= Seq::<Version>::empty());
                    assert(e.1 =~= written(Seq::<Version>::empty(), newest.data, txn_ts));
                    assert(self.chains().drop_last() =~= t0);
                    assert forall|j: int| 0 <= j < self.chains().len() implies (#[trigger] self.chains()[j]).1.len() > 0 by {
                        if j < t0.len() {
                            assert(self.chains()[j] == t0[j]);
                        }
                    }
                }
            },
        }
        self.versions_created = self.versions_created + 1;
        let ghost mid = *self;
        assert(forall|x: Seq<char>| #[trigger] mid.chain_of(x) == old(self).after_write(key@, data, txn_ts, x));
        proof {
            assert forall|ts: u64, x: Seq<char>| old(self).active().contains(ts) && ts < txn_ts implies #[trigger] read_at(mid.chain_of(x), ts)
                == read_at(old(self).chain_of(x), ts) by {
                if x == key@ {
                    lemma_written_keeps_reads(old(self).chain_of(x), data, txn_ts, ts);
                }
            }
        }
        proof {
            let aw = old(self).after_write(key@, data, txn_ts, key@);
            assert(aw[0] == newest);
            assert(visible(newest, txn_ts));
            if (old(self).spec_versions_created() + 1) % (old(self).spec_gc_threshold() as int) == 0 {
                lemma_collected_keeps_newest(aw, old(self).min_active());
            }
        }
        if self.versions_created % self.gc_threshold == 0 {
            self.run_gc();
            proof {
                assert forall|ts: u64, x: Seq<char>| old(self).active().contains(ts) && ts < txn_ts implies #[trigger] read_at(self.chain_of(x), ts)
                    == read_at(old(self).chain_of(x), ts) by {
                    assert(read_at(self.chain_of(x), ts) == read_at(mid.chain_of(x), ts));
                }
            }
        }
        true
    }

    /// The number of versions a collection now would drop.
    pub fn garbage_count(&self) -> (n: usize)
        requires
            self.versions_held() <= usize::MAX,
        ensures
            n == garbage_total(self.chains(), self.min_active()),
    {
        let m = self.min_active_ts();
        let mut n: usize = 0;
        let mut i: usize = 0;
        while i < self.store.len()
            invariant
                0 <= i <= self.store@.len(),
                self.chains().len() == self.store@.len(),
                version_total(self.chains()) <= usize::MAX,
                m == self.min_active(),
                n == garbage_total(self.chains().subrange(0, i as int), m),
                n <= version_total(self.chains().subrange(0, i as int)),
            decreases self.store@.len() - i,
        {
            let ghost t = self.chains();
            let chain = &self.store[i].1;
            let mut c: usize = 0;
            let mut j: usize = 0;
            while j < chain.len()
                invariant
                    0 <= j <= chain@.len(),
                    c == chain@.subrange(0, j as int).filter(|v: Version| is_garbage(v, m)).len(),
                    c <= j,
                decreases chain@.len() - j,
            {
                proof {
                    assert(chain@.subrange(0, j as int + 1) =~= chain@.subrange(0, j as int).push(chain@[j as int]));
                    chain@.subrange(0, j as int).lemma_filter_push(chain@[j as int], |v: Version| is_garbage(v, m));
                }
                let garbage = match chain[j].xmax {
                    Some(x) => x < m,
                    None => false,
                };
                if garbage {
                    c = c + 1;
                }
                j = j + 1;
            }
            proof {
                assert(chain@.subrange(0, j as int) =~= chain@);
                assert(t[i as int].1 == chain@);
                assert(t.subrange(0, i as int + 1).drop_last() =~= t.subrange(0, i as int));
                lemma_version_total_split(t, i as int + 1);
            }
            n = n + c;
            i = i + 1;
        }
        proof {
            assert(self.chains().subrange(0, i as int) =~= self.chains());
        }
        n
    }

    /// Sets how many written versions set off a collection; 0 is
    /// refused, as it would never set one off.
    pub fn set_gc_threshold(&mut self, gc_threshold: usize) -> (r: Result<(), BlockError>)
        requires
            old(self).wf(),
        ensures
            final(self).wf(),
            r is Ok <==> gc_threshold > 0,
            final(self).spec_gc_threshold() == if gc_threshold > 0 {
                gc_threshold
            } else {
                old(self).spec_gc_threshold()
            },
            final(self).chains() == old(self).chains(),
            final(self).active() == old(self).active(),
            final(self).commit_times() == old(self).commit_times(),
            final(self).spec_current_ts() == old(self).spec_current_ts(),
            final(self).spec_versions_created() == old(self).spec_versions_created(),
            final(self).spec_gc_runs() == old(self).spec_gc_runs(),
            final(self).spec_gc_reclaimed() == old(self).spec_gc_reclaimed(),
            final(self).spec_snapshot_reads() == old(self).spec_snapshot_reads(),
            final(self).spec_write_conflicts() == old(self).spec_write_conflicts(),
    {
        if gc_threshold == 0 {
            return Err(BlockError::InvalidParameter(String::from_str("gc_threshold must be at least 1")));
        }
        self.gc_threshold = gc_threshold;
        Ok(())
    }

    /// Every key's newest version is live and was written by a transaction
    /// that committed before now.
    pub open spec fn settled(&self) -> bool {
        forall|k: Seq<char>| #![trigger self.chain_of(k)] self.chain_of(k).len() > 0 ==> {
            &&& self.chain_of(k)[0].xmax is None
            &&& self.commit_times().contains_key(self.chain_of(k)[0].xmin)
            &&& self.commit_times()[self.chain_of(k)[0].xmin] < self.spec_current_ts()
        }
    }

    /// Writes each record in a transaction of its own, committed at once.
    /// A record's key is the JSON text of its id, or `key_<txn>` where it
    /// has none. The result says of each record whether its write went
    /// through. Where every newest version was committed before the batch,
    /// every write goes through, one version each, and that stays so; and
    /// each key's newest version then holds the data of the last record
    /// written under it.
    pub fn write_records(&mut self, records: &Vec<(Option<JsonValue>, JsonValue)>) -> (written: Vec<bool>)
        requires
            old(self).wf(),
            old(self).spec_current_ts() + 2 * records@.len() < u64::MAX,
            old(self).spec_versions_created() + records@.len() < usize::MAX,
            old(self).spec_write_conflicts() + records@.len() < usize::MAX,
            old(self).spec_gc_runs() + records@.len() < usize::MAX,
            old(self).spec_gc_reclaimed() + old(self).versions_held() + records@.len() < usize::MAX,
        ensures
            final(self).wf(),
            written@.len() == records@.len(),
            final(self).spec_current_ts() == old(self).spec_current_ts() + 2 * records@.len(),
            final(self).spec_versions_created() + final(self).spec_write_conflicts()
                == old(self).spec_versions_created() + old(self).spec_write_conflicts() + records@.len(),
            old(self).settled() ==> {
                &&& final(self).settled()
                &&& written@ == Seq::new(records@.len(), |j: int| true)
                &&& final(self).spec_versions_created() == old(self).spec_versions_created() + records@.len()
                &&& final(self).spec_write_conflicts() == old(self).spec_write_conflicts()
                &&& forall|k: int| 0 <= k < records@.len() && #[trigger] last_for_key(records@, old(self).spec_current_ts(), k, records@.len() as int) ==> {
                    &&& final(self).chain_of(batch_key(records@, old(self).spec_current_ts(), k)).len() > 0
                    &&& final(self).chain_of(batch_key(records@, old(self).spec_current_ts(), k))[0].data == records@[k].1
                }
            },
    {
        let mut written: Vec<bool> = Vec::new();
        let mut i: usize = 0;
        while i < records.len()
            invariant
                self.wf(),
                0 <= i <= records@.len(),
                written@.len() == i,
                self.spec_current_ts() == old(self).spec_current_ts() + 2 * i,
                self.spec_versions_created() + self.spec_write_conflicts()
                    == old(self).spec_versions_created() + old(self).spec_write_conflicts() + i,
                self.spec_versions_created() <= old(self).spec_versions_created() + i,
                self.spec_write_conflicts() <= old(self).spec_write_conflicts() + i,
                self.spec_gc_runs() <= old(self).spec_gc_runs() + i,
                self.spec_gc_reclaimed() + self.versions_held() <= old(self).spec_gc_reclaimed() + old(self).versions_held() + i,
                old(self).spec_current_ts() + 2 * records@.len() < u64::MAX,
                old(self).spec_versions_created() + records@.len() < usize::MAX,
                old(self).spec_write_conflicts() + records@.len() < usize::MAX,
                old(self).spec_gc_runs() + records@.len() < usize::MAX,
                old(self).spec_gc_reclaimed() + old(self).versions_held() + records@.len() < usize::MAX,
                old(self).settled() ==> {
                    &&& self.settled()
                    &&& written@ == Seq::new(i as nat, |j: int| true)
                    &&& self.spec_versions_created() == old(self).spec_versions_created() + i
                    &&& self.spec_write_conflicts() == old(self).spec_write_conflicts()
                    &&& forall|k: int| 0 <= k < i && #[trigger] last_for_key(records@, old(self).spec_current_ts(), k, i as int) ==> {
                        &&& self.chain_of(batch_key(records@, old(self).spec_current_ts(), k)).len() > 0
                        &&& self.chain_of(batch_key(records@, old(self).spec_current_ts(), k))[0].data == records@[k].1
                    }
                },
            decreases records@.len() - i,
        {
            let ghost s0 = *self;
            let txn = self.begin_txn();
            let ghost s1 = *self;
            let key = match &records[i].0 {
                Some(id) => json_text(id),
                None => {
                    proof {
                        reveal_strlit("key_");
                    }
                    String::from_str("key_").concat(decimal_string(txn).as_str())
                },
            };
            let data = clone_value(&records[i].1);
            proof {
                assert(key@ == batch_key(records@, old(self).spec_current_ts(), i as int));
            }
            proof {
                if old(self).settled() {
                    assert(s1.chain_of(key@) == s0.chain_of(key@));
                    if s1.chain_of(key@).len() > 0 {
                        assert(s0.commit_times()[s0.chain_of(key@)[0].xmin] < txn);
                    }
                    assert(!conflicts(s1.chain_of(key@), txn, s1.commit_times()));
                }
            }
            let ok = self.write(txn, key.as_str(), data);
            let ghost s2 = *self;
            proof {
                if old(self).settled() {
                    assert(ok);
                    assert forall|k: Seq<char>| (s0.chain_of(k).len() > 0 || k == key@) implies #[trigger] s2.chain_of(k).len() > 0 by {
                        let aw = s1.after_write(key@, data, txn, k);
                        if k == key@ {
                            assert(aw[0] == Version { data: data, xmin: txn, xmax: None });
                        } else {
                            assert(aw == s0.chain_of(k));
                        }
                        if (s1.spec_versions_created() + 1) % (s1.spec_gc_threshold() as int) == 0 {
                            lemma_collected_keeps_newest(aw, s1.min_active());
                        }
                    }
                    assert forall|k: Seq<char>| #[trigger] s2.chain_of(k).len() > 0 implies {
                        &&& s2.chain_of(k)[0].xmax is None
                        &&& (k == key@ ==> s2.chain_of(k)[0] == Version { data: data, xmin: txn, xmax: None })
                        &&& (k != key@ ==> s2.chain_of(k)[0] == s0.chain_of(k)[0] && s0.chain_of(k).len() > 0)
                    } by {
                        let aw = s1.after_write(key@, data, txn, k);
                        if k == key@ {
                            assert(aw[0] == Version { data: data, xmin: txn, xmax: None });
                        } else {
                            assert(aw == s0.chain_of(k));
                        }
                        if (s1.spec_versions_created() + 1) % (s1.spec_gc_threshold() as int) == 0 {
                            assert(s2.chain_of(k) == collected(aw, s1.min_active()));
                            if aw.len() > 0 {
                                lemma_collected_keeps_newest(aw, s1.min_active());
                            } else {
                                assert(aw.filter(|v: Version| !is_garbage(v, s1.min_active())).len() <= aw.len()) by {
                                    aw.filter_lemma(|v: Version| !is_garbage(v, s1.min_active()));
                                }
                            }
                        } else {
                            assert(s2.chain_of(k) == aw);
                        }
                    }
                }
            }
            self.commit(txn);
            proof {
                if old(self).settled() {
                    assert forall|k: Seq<char>| #![trigger self.chain_of(k)] self.chain_of(k).len() > 0 implies {
                        &&& self.chain_of(k)[0].xmax is None
                        &&& self.commit_times().contains_key(self.chain_of(k)[0].xmin)
                        &&& self.commit_times()[self.chain_of(k)[0].xmin] < self.spec_current_ts()
                    } by {
                        assert(self.chain_of(k) == s2.chain_of(k));
                        assert(s2.chain_of(k).len() > 0);
                        if k != key@ {
                            assert(s0.chain_of(k).len() > 0);
                        }
                    }
                }
            }
            written.push(ok);
            proof {
                if old(self).settled() {
                    assert(written@ =~= Seq::new(i as nat + 1, |j: int| true));
                    let ts0 = old(self).spec_current_ts();
                    assert forall|k: int| 0 <= k < i + 1 && #[trigger] last_for_key(records@, ts0, k, i + 1) implies {
                        &&& self.chain_of(batch_key(records@, ts0, k)).len() > 0
                        &&& self.chain_of(batch_key(records@, ts0, k))[0].data == records@[k].1
                    } by {
                        let bk = batch_key(records@, ts0, k);
                        assert(self.chain_of(bk) == s2.chain_of(bk));
                        if k < i {
                            assert(batch_key(records@, ts0, i as int) != bk);
                            assert(last_for_key(records@, ts0, k, i as int));
                            assert(s0.chain_of(bk).len() > 0);
                        } else {
                            assert(bk == key@);
                        }
                    }
                }
            }
            i = i + 1;
        }
        written
    }

    #[verifier::when_used_as_spec(spec_current_ts)]
    pub fn current_ts(&self) -> (r: u64)
        ensures
            r == self.spec_current_ts(),
    {
        self.current_ts
    }

    #[verifier::when_used_as_spec(spec_gc_threshold)]
    pub fn gc_threshold(&self) -> (r: usize)
        ensures
            r == self.spec_gc_threshold(),
    {
        self.gc_threshold
    }

    /// Versions written.
    #[verifier::when_used_as_spec(spec_versions_created)]
    pub fn versions_created(&self) -> (r: usize)
        ensures
            r == self.spec_versions_created(),
    {
        self.versions_created
    }

    /// Collections run.
    #[verifier::when_used_as_spec(spec_gc_runs)]
    pub fn gc_runs(&self) -> (r: usize)
        ensures
            r == self.spec_gc_runs(),
    {
        self.gc_runs
    }

    /// Versions dropped by collections.
    #[verifier::when_used_as_spec(spec_gc_reclaimed)]
    pub fn gc_reclaimed(&self) -> (r: usize)
        ensures
            r == self.spec_gc_reclaimed(),
    {
        self.gc_reclaimed
    }

    /// Reads served.
    #[verifier::when_used_as_spec(spec_snapshot_reads)]
    pub fn snapshot_reads(&self) -> (r: usize)
        ensures
            r == self.spec_snapshot_reads(),
    {
        self.snapshot_reads
    }

    /// Writes refused as conflicts.
    #[verifier::when_used_as_spec(spec_write_conflicts)]
    pub fn write_conflicts(&self) -> (r: usize)
        ensures
            r == self.spec_write_conflicts(),
    {
        self.write_conflicts
    }

    /// Every counter and setting is as in `other`.
    pub open spec fn same_counters(&self, other: Self) -> bool {
        &&& self.spec_gc_threshold() == other.spec_gc_threshold()
        &&& self.spec_versions_created() == other.spec_versions_created()
        &&& self.spec_gc_runs() == other.spec_gc_runs()
        &&& self.spec_gc_reclaimed() == other.spec_gc_reclaimed()
        &&& self.spec_snapshot_reads() == other.spec_snapshot_reads()
        &&& self.spec_write_conflicts() == other.spec_write_conflicts()
    }
}

/// The position of the newest version of `chain` that a snapshot at
/// `ts` sees.
fn first_visible(chain: &Vec<Version>, ts: u64) -> (r: Option<usize>)
    ensures
        match r {
            Some(j) => j < chain@.len() && visible_version(chain@, ts) == Some(chain@[j as int]),
            None => visible_version(chain@, ts) is None,
        },
{
    let mut j: usize = 0;
    proof {
        assert(chain@.skip(0) =~= chain@);
    }
    while j < chain.len()
        invariant
            0 <= j <= chain@.len(),
            visible_version(chain@, ts) == visible_version(chain@.skip(j as int), ts),
        decreases chain@.len() - j,
    {
        let v = &chain[j];
        let vis = v.xmin <= ts && match v.xmax {
            Some(x) => x > ts,
            None => true,
        };
        proof {
            assert(chain@.skip(j as int)[0] == chain@[j as int]);
            assert(chain@.skip(j as int).drop_first() =~= chain@.skip(j as int + 1));
        }
        if vis {
            return Some(j);
        }
        j = j + 1;
    }
    None
}

proof fn lemma_version_total_split(t: Seq<(Seq<char>, Seq<Version>)>, k: int)
    requires
        0 <= k <= t.len(),
    ensures
        version_total(t.subrange(0, k)) <= version_total(t),
    decreases t.len() - k,
{
    if k < t.len() {
        lemma_version_total_split(t, k + 1);
        assert(t.subrange(0, k + 1).drop_last() =~= t.subrange(0, k));
    } else {
        assert(t.subrange(0, k) =~= t);
    }
}

/// Marks the newest version of `chain` with no `xmax` as replaced by `x`.
fn mark_newest_live(chain: &mut Vec<Version>, x: u64)
    ensures
        final(chain)@ == mark_replaced(old(chain)@, x),
{
    let ghost ch = chain@;
    let mut j: usize = 0;
    while j < chain.len() && chain[j].xmax.is_some()
        invariant
            chain@ == ch,
            0 <= j <= ch.len(),
            forall|i: int| 0 <= i < j ==> ch[i].xmax is Some,
        decreases ch.len() - j,
    {
        j = j + 1;
    }
    proof {
        lemma_mark_replaced(ch, x, j as int);
    }
    if j < chain.len() {
        chain[j].xmax = Some(x);
        proof {
            assert(chain@ =~= ch.update(j as int, Version { data: ch[j as int].data, xmin: ch[j as int].xmin, xmax: Some(x) }));
        }
    }
}

/// Where the first live version is at `j` (or there is none, `j` being
/// the length), marking the newest live version changes that one alone.
proof fn lemma_mark_replaced(ch: Seq<Version>, x: u64, j: int)
    requires
        0 <= j <= ch.len(),
        forall|i: int| 0 <= i < j ==> ch[i].xmax is Some,
        j < ch.len() ==> ch[j].xmax is None,
    ensures
        mark_replaced(ch, x) == if j < ch.len() {
            ch.update(j, Version { data: ch[j].data, xmin: ch[j].xmin, xmax: Some(x) })
        } else {
            ch
        },
    decreases j,
{
    if ch.len() > 0 && j > 0 {
        lemma_mark_replaced(ch.drop_first(), x, j - 1);
        if j < ch.len() {
            assert(ch =~= seq![ch[0]] + ch.drop_first());
            assert(seq![ch[0]] + ch.drop_first().update(j - 1, Version { data: ch[j].data, xmin: ch[j].xmin, xmax: Some(x) })
                =~= ch.update(j, Version { data: ch[j].data, xmin: ch[j].xmin, xmax: Some(x) }));
        } else {
            assert(seq![ch[0]] + ch.drop_first() =~= ch);
        }
    }
}

proof fn lemma_mark_replaced_len(ch: Seq<Version>, x: u64)
    ensures
        mark_replaced(ch, x).len() == ch.len(),
    decreases ch.len(),
{
    if ch.len() > 0 && ch[0].xmax is Some {
        lemma_mark_replaced_len(ch.drop_first(), x);
    }
}

proof fn lemma_version_total_update(t: Seq<(Seq<char>, Seq<Version>)>, i: int, e: (Seq<char>, Seq<Version>))
    requires
        0 <= i < t.len(),
    ensures
        version_total(t.update(i, e)) == version_total(t) - t[i].1.len() + e.1.len(),
    decreases t.len(),
{
    if i < t.len() - 1 {
        assert(t.update(i, e).drop_last() =~= t.drop_last().update(i, e));
        lemma_version_total_update(t.drop_last(), i, e);
    } else {
        assert(t.update(i, e).drop_last() =~= t.drop_last());
    }
}

/// No element of a nonempty sequence is below its minimum.
proof fn lemma_seq_min(s: Seq<u64>, j: int)
    requires
        0 <= j < s.len(),
    ensures
        seq_min(s) <= s[j],
    decreases s.len(),
{
    if s.len() > 1 && j < s.len() - 1 {
        lemma_seq_min(s.drop_last(), j);
    }
}

/// A later transaction's write changes nothing an earlier snapshot reads:
/// the new version is too new for it, and the version it replaces was
/// replaced too late for it.
proof fn lemma_written_keeps_reads(ch: Seq<Version>, data: JsonValue, txn: u64, ts: u64)
    requires
        ts < txn,
    ensures
        read_at(written(ch, data, txn), ts) == read_at(ch, ts),
{
    let w = written(ch, data, txn);
    assert(w.drop_first() =~= mark_replaced(ch, txn));
    lemma_mark_keeps_reads(ch, txn, ts);
}

proof fn lemma_mark_keeps_reads(ch: Seq<Version>, x: u64, ts: u64)
    requires
        ts < x,
    ensures
        read_at(mark_replaced(ch, x), ts) == read_at(ch, ts),
    decreases ch.len(),
{
    if ch.len() > 0 {
        if ch[0].xmax is None {
            let m = mark_replaced(ch, x);
            assert(m.drop_first() =~= ch.drop_first());
        } else {
            lemma_mark_keeps_reads(ch.drop_first(), x, ts);
            let m = mark_replaced(ch, x);
            assert(m[0] == ch[0]);
            assert(m.drop_first() =~= mark_replaced(ch.drop_first(), x));
        }
    }
}

/// A collection at `m` changes nothing a snapshot at `ts >= m` reads: it
/// only drops versions replaced before `m`.
proof fn lemma_collected_keeps_reads(ch: Seq<Version>, m: u64, ts: u64)
    requires
        m <= ts,
    ensures
        read_at(collected(ch, m), ts) == read_at(ch, ts),
    decreases ch.len(),
{
    let p = |v: Version| !is_garbage(v, m);
    if ch.len() > 0 {
        lemma_collected_keeps_reads(ch.drop_first(), m, ts);
        assert(ch =~= seq![ch[0]] + ch.drop_first());
        Seq::filter_distributes_over_add(seq![ch[0]], ch.drop_first(), p);
        assert(seq![ch[0]] =~= Seq::<Version>::empty().push(ch[0]));
        Seq::<Version>::empty().lemma_filter_push(ch[0], p);
        assert(Seq::<Version>::empty().filter(p) =~= Seq::<Version>::empty()) by {
            reveal(Seq::filter);
        }
        let c = collected(ch, m);
        if p(ch[0]) {
            assert(c =~= seq![ch[0]] + collected(ch.drop_first(), m));
            assert(c[0] == ch[0]);
            assert(c.drop_first() =~= collected(ch.drop_first(), m));
        } else {
            assert(c =~= collected(ch.drop_first(), m));
        }
    } else {
        assert(collected(ch, m) =~= ch) by {
            reveal(Seq::filter);
        }
    }
}

/// The versions of `chain` a collection at `min_active` keeps, in order.
fn collect_chain(chain: &Vec<Version>, min_active: u64) -> (r: Vec<Version>)
    ensures
        r@ == collected(chain@, min_active),
{
    let mut r: Vec<Version> = Vec::new();
    let mut j: usize = 0;
    while j < chain.len()
        invariant
            0 <= j <= chain@.len(),
            r@ == chain@.subrange(0, j as int).filter(|v: Version| !is_garbage(v, min_active)),
        decreases chain@.len() - j,
    {
        let v = &chain[j];
        let garbage = match v.xmax {
            Some(x) => x < min_active,
            None => false,
        };
        proof {
            assert(chain@.subrange(0, j as int + 1) =~= chain@.subrange(0, j as int).push(chain@[j as int]));
            chain@.subrange(0, j as int).lemma_filter_push(chain@[j as int], |v: Version| !is_garbage(v, min_active));
        }
        if !garbage {
            r.push(Version { data: clone_value(&v.data), xmin: v.xmin, xmax: v.xmax });
        }
        j = j + 1;
    }
    proof {
        assert(chain@.subrange(0, j as int) =~= chain@);
    }
    r
}

proof fn lemma_version_total_concat(a: Seq<(Seq<char>, Seq<Version>)>, b: Seq<(Seq<char>, Seq<Version>)>)
    ensures
        version_total(a + b) == version_total(a) + version_total(b),
    decreases b.len(),
{
    if b.len() == 0 {
        assert(a + b =~= a);
    } else {
        lemma_version_total_concat(a, b.drop_last());
        assert((a + b).drop_last() =~= a + b.drop_last());
    }
}

proof fn lemma_version_total_remove_empty(t: Seq<(Seq<char>, Seq<Version>)>, i: int)
    requires
        0 <= i < t.len(),
        t[i].1.len() == 0,
    ensures
        version_total(t.remove(i)) == version_total(t),
{
    let a = t.subrange(0, i);
    let b = t.subrange(i + 1, t.len() as int);
    assert(t =~= a.push(t[i]) + b);
    assert(t.remove(i) =~= a + b);
    lemma_version_total_concat(a.push(t[i]), b);
    lemma_version_total_concat(a, b);
    assert(a.push(t[i]).drop_last() =~= a);
}

/// A prefix with no `x` filters to itself.
proof fn lemma_filter_absent(s: Seq<u64>, x: u64, n: int)
    requires
        0 <= n <= s.len(),
        forall|j: int| 0 <= j < n ==> s[j] != x,
    ensures
        s.subrange(0, n).filter(|a: u64| a != x) == s.subrange(0, n),
    decreases n,
{
    if n > 0 {
        lemma_filter_absent(s, x, n - 1);
        assert(s.subrange(0, n) =~= s.subrange(0, n - 1).push(s[n - 1]));
        s.subrange(0, n - 1).lemma_filter_push(s[n - 1], |a: u64| a != x);
    } else {
        assert(s.subrange(0, 0).filter(|a: u64| a != x) =~= s.subrange(0, 0));
    }
}

/// Dropping the one `x` of a sequence without duplicates is filtering
/// it out.
proof fn lemma_filter_without(s: Seq<u64>, x: u64, i: int)
    requires
        0 <= i < s.len(),
        s[i] == x,
        s.no_duplicates(),
    ensures
        s.filter(|a: u64| a != x) == s.remove(i),
{
    let f = |a: u64| a != x;
    let pre = s.subrange(0, i);
    let post = s.subrange(i + 1, s.len() as int);
    lemma_filter_absent(s, x, i);
    assert(s =~= pre.push(x) + post);
    Seq::filter_distributes_over_add(pre.push(x), post, f);
    pre.lemma_filter_push(x, f);
    assert forall|j: int| 0 <= j < post.len() implies post[j] != x by {
        assert(post[j] == s[i + 1 + j]);
    }
    lemma_filter_absent(post, x, post.len() as int);
    assert(post.subrange(0, post.len() as int) =~= post);
    assert(s.remove(i) =~= pre + post);
}

impl MVCCBlock {
    fn build_documentation() -> (d: BlockDocumentation)
        ensures
            d.overview@ == "MVCC (Multi-Version Concurrency Control) allows multiple transactions to read and \
                           write concurrently without blocking each other. Instead of overwriting data in place, \
                           writers create new versions of each record. Readers see a consistent snapshot of the \
                           database based on their start timestamp, completely unaffected by concurrent writers.\n\n\
                           MVCC is the concurrency control mechanism used by most modern databases including \
                           PostgreSQL, MySQL InnoDB, Oracle, and CockroachDB. It implements snapshot isolation, \
                           where each transaction sees the database as it existed at the moment the transaction \
                           began. This eliminates the need for read locks entirely, dramatically improving \
                           throughput for mixed read/write workloads.\n\n\
                           Think of MVCC like a document editing system with full version history. When someone \
                           edits a document, they create a new version rather than modifying the original. Anyone \
                           who opened the document before the edit still sees the old version. The system needs \
                           to periodically clean up old versions that nobody is reading anymore — this is garbage \
                           collection (VACUUM in PostgreSQL)."@,
            d.algorithm@ == "WRITE(txn_ts, key, data):\n  \
                           1. Check for write-write conflict:\n     \
                              If another txn wrote this key and committed after our snapshot -> CONFLICT\n  \
                           2. Mark the current latest version as deleted (set xmax = txn_ts)\n  \
                           3. Create new version: Version { data, xmin=txn_ts, xmax=None }\n  \
                           4. Insert at head of version chain\n  \
                           5. If versions_created % gc_threshold == 0: trigger GC\n\n\
                           READ(snapshot_ts, key):\n  \
                           Walk version chain for key:\n    \
                             For each version v:\n      \
                               If v.xmin <= snapshot_ts AND (v.xmax is None OR v.xmax > snapshot_ts):\n        \
                                 Return v.data  (this version is visible)\n    \
                             Return None (key does not exist at this snapshot)\n\n\
                           GARBAGE_COLLECTION():\n  \
                           min_active = minimum timestamp among all active transactions\n  \
                           For each key's version chain:\n    \
                             Remove versions where xmax < min_active\n    \
                             (These versions are invisible to ALL current and future transactions)"@,
            d.motivation@ == "Without MVCC, databases must use locks to prevent readers from seeing partially \
                             updated data. This means a long-running analytical query would block all writes \
                             to the rows it is reading, or worse, a write would block all concurrent reads. \
                             In a busy OLTP system, this lock contention destroys throughput.\n\n\
                             MVCC solves this by letting readers and writers operate on different versions of \
                             the same data simultaneously. The cost is additional storage for old versions and \
                             the need for garbage collection. But the benefit — eliminating read-write contention \
                             entirely — is so significant that MVCC has become the dominant concurrency control \
                             strategy in modern databases."@,
            d.complexity.time@ == "Read O(v) where v = chain length, Write O(1), GC O(n × v)"@,
            d.complexity.space@ == "O(n × v) — one version per write per key"@,
            d.use_cases@.len() == 5,
            d.use_cases@[0]@ == "OLTP with mixed read/write workloads"@,
            d.use_cases@[1]@ == "Snapshot isolation (PostgreSQL default)"@,
            d.use_cases@[2]@ == "Long-running read queries alongside writes"@,
            d.use_cases@[3]@ == "Analytical queries that need a consistent view without blocking writers"@,
            d.use_cases@[4]@ == "Time-travel queries that read data as of a past timestamp"@,
            d.tradeoffs@.len() == 6,
            d.tradeoffs@[0]@ == "Readers never block writers and vice versa"@,
            d.tradeoffs@[1]@ == "Space overhead from multiple versions per key"@,
            d.tradeoffs@[2]@ == "GC is necessary to reclaim old versions"@,
            d.tradeoffs@[3]@ == "Write-write conflicts on the same key must be detected"@,
            d.tradeoffs@[4]@ == "Version chain traversal slows reads when chains grow long (GC lag)"@,
            d.tradeoffs@[5]@ == "MVCC provides snapshot isolation by default, but not true serializability without extra checks (SSI)"@,
            d.examples@.len() == 4,
            d.examples@[0]@ == "PostgreSQL MVCC — uses xmin/xmax system columns on every tuple, VACUUM reclaims dead tuples"@,
            d.examples@[1]@ == "MySQL InnoDB — stores old versions in undo log, reads reconstruct from undo chain"@,
            d.examples@[2]@ == "Oracle Multiversion Read Consistency — uses undo tablespace for version storage"@,
            d.examples@[3]@ == "CockroachDB — MVCC with timestamp ordering, built on RocksDB/Pebble storage"@,
            d.suggested_questions@.len() == 3,
            d.suggested_questions@[0]@ == "How does PostgreSQL's VACUUM process work, and what happens if it falls behind?"@,
            d.suggested_questions@[1]@ == "What is the difference between snapshot isolation and serializable isolation in MVCC?"@,
            d.suggested_questions@[2]@ == "How do write-write conflicts get detected, and what should happen when one occurs?"@,
            d.parameter_guide@.len() == 1,
            d.parameter_guide@[0].0@ == "gc_threshold"@,
            d.parameter_guide@[0].1@ == "Controls how often garbage collection runs, measured in number of writes between GC \
                      cycles. A lower value (10-50) means GC runs frequently, keeping version chains short \
                      and memory usage low, but adds CPU overhead per write. A higher value (500-10000) \
                      reduces GC overhead but lets old versions accumulate, increasing memory usage and \
                      slowing reads that must traverse longer chains. In PostgreSQL, autovacuum is triggered \
                      by a similar threshold (autovacuum_vacuum_threshold + autovacuum_vacuum_scale_factor \
                      × table size). Recommended: 100 for balanced workloads, lower for write-heavy, higher \
                      for read-heavy with infrequent updates."@,
            d.alternatives@.len() == 1,
            d.alternatives@[0].block_type@ == "row-lock-2pl"@,
            d.alternatives@[0].comparison@ == "Row-level locking (2PL) guarantees true serializability but blocks readers \
                                     when a writer holds an exclusive lock. MVCC provides snapshot isolation \
                                     without read-write blocking, at the cost of extra storage for versions \
                                     and the need for garbage collection. Choose 2PL for workloads requiring \
                                     strict serializability with short transactions. Choose MVCC for mixed \
                                     OLTP/OLAP workloads where long reads should not block writes."@,
    {
        let mut use_cases: Vec<String> = Vec::new();
        use_cases.push(String::from_str("OLTP with mixed read/write workloads"));
        use_cases.push(String::from_str("Snapshot isolation (PostgreSQL default)"));
        use_cases.push(String::from_str("Long-running read queries alongside writes"));
        use_cases.push(String::from_str("Analytical queries that need a consistent view without blocking writers"));
        use_cases.push(String::from_str("Time-travel queries that read data as of a past timestamp"));
        let mut tradeoffs: Vec<String> = Vec::new();
        tradeoffs.push(String::from_str("Readers never block writers and vice versa"));
        tradeoffs.push(String::from_str("Space overhead from multiple versions per key"));
        tradeoffs.push(String::from_str("GC is necessary to reclaim old versions"));
        tradeoffs.push(String::from_str("Write-write conflicts on the same key must be detected"));
        tradeoffs.push(String::from_str("Version chain traversal slows reads when chains grow long (GC lag)"));
        tradeoffs.push(String::from_str("MVCC provides snapshot isolation by default, but not true serializability without extra checks (SSI)"));
        let mut examples: Vec<String> = Vec::new();
        examples.push(String::from_str("PostgreSQL MVCC — uses xmin/xmax system columns on every tuple, VACUUM reclaims dead tuples"));
        examples.push(String::from_str("MySQL InnoDB — stores old versions in undo log, reads reconstruct from undo chain"));
        examples.push(String::from_str("Oracle Multiversion Read Consistency — uses undo tablespace for version storage"));
        examples.push(String::from_str("CockroachDB — MVCC with timestamp ordering, built on RocksDB/Pebble storage"));
        let mut suggested_questions: Vec<String> = Vec::new();
        suggested_questions.push(String::from_str("How does PostgreSQL's VACUUM process work, and what happens if it falls behind?"));
        suggested_questions.push(String::from_str("What is the difference between snapshot isolation and serializable isolation in MVCC?"));
        suggested_questions.push(String::from_str("How do write-write conflicts get detected, and what should happen when one occurs?"));
        let mut parameter_guide: Vec<(String, String)> = Vec::new();
        parameter_guide.push((String::from_str("gc_threshold"), String::from_str("Controls how often garbage collection runs, measured in number of writes between GC \
                      cycles. A lower value (10-50) means GC runs frequently, keeping version chains short \
                      and memory usage low, but adds CPU overhead per write. A higher value (500-10000) \
                      reduces GC overhead but lets old versions accumulate, increasing memory usage and \
                      slowing reads that must traverse longer chains. In PostgreSQL, autovacuum is triggered \
                      by a similar threshold (autovacuum_vacuum_threshold + autovacuum_vacuum_scale_factor \
                      × table size). Recommended: 100 for balanced workloads, lower for write-heavy, higher \
                      for read-heavy with infrequent updates.")));
        let mut alternatives: Vec<Alternative> = Vec::new();
        alternatives.push(Alternative { block_type: String::from_str("row-lock-2pl"), comparison: String::from_str("Row-level locking (2PL) guarantees true serializability but blocks readers \
                                     when a writer holds an exclusive lock. MVCC provides snapshot isolation \
                                     without read-write blocking, at the cost of extra storage for versions \
                                     and the need for garbage collection. Choose 2PL for workloads requiring \
                                     strict serializability with short transactions. Choose MVCC for mixed \
                                     OLTP/OLAP workloads where long reads should not block writes.") });
        BlockDocumentation {
            overview: String::from_str("MVCC (Multi-Version Concurrency Control) allows multiple transactions to read and \
                           write concurrently without blocking each other. Instead of overwriting data in place, \
                           writers create new versions of each record. Readers see a consistent snapshot of the \
                           database based on their start timestamp, completely unaffected by concurrent writers.\n\n\
                           MVCC is the concurrency control mechanism used by most modern databases including \
                           PostgreSQL, MySQL InnoDB, Oracle, and CockroachDB. It implements snapshot isolation, \
                           where each transaction sees the database as it existed at the moment the transaction \
                           began. This eliminates the need for read locks entirely, dramatically improving \
                           throughput for mixed read/write workloads.\n\n\
                           Think of MVCC like a document editing system with full version history. When someone \
                           edits a document, they create a new version rather than modifying the original. Anyone \
                           who opened the document before the edit still sees the old version. The system needs \
                           to periodically clean up old versions that nobody is reading anymore — this is garbage \
                           collection (VACUUM in PostgreSQL)."),
            algorithm: String::from_str("WRITE(txn_ts, key, data):\n  \
                           1. Check for write-write conflict:\n     \
                              If another txn wrote this key and committed after our snapshot -> CONFLICT\n  \
                           2. Mark the current latest version as deleted (set xmax = txn_ts)\n  \
                           3. Create new version: Version { data, xmin=txn_ts, xmax=None }\n  \
                           4. Insert at head of version chain\n  \
                           5. If versions_created % gc_threshold == 0: trigger GC\n\n\
                           READ(snapshot_ts, key):\n  \
                           Walk version chain for key:\n    \
                             For each version v:\n      \
                               If v.xmin <= snapshot_ts AND (v.xmax is None OR v.xmax > snapshot_ts):\n        \
                                 Return v.data  (this version is visible)\n    \
                             Return None (key does not exist at this snapshot)\n\n\
                           GARBAGE_COLLECTION():\n  \
                           min_active = minimum timestamp among all active transactions\n  \
                           For each key's version chain:\n    \
                             Remove versions where xmax < min_active\n    \
                             (These versions are invisible to ALL current and future transactions)"),
            complexity: Complexity { time: String::from_str("Read O(v) where v = chain length, Write O(1), GC O(n × v)"), space: String::from_str("O(n × v) — one version per write per key") },
            use_cases,
            tradeoffs,
            examples,
            motivation: String::from_str("Without MVCC, databases must use locks to prevent readers from seeing partially \
                             updated data. This means a long-running analytical query would block all writes \
                             to the rows it is reading, or worse, a write would block all concurrent reads. \
                             In a busy OLTP system, this lock contention destroys throughput.\n\n\
                             MVCC solves this by letting readers and writers operate on different versions of \
                             the same data simultaneously. The cost is additional storage for old versions and \
                             the need for garbage collection. But the benefit — eliminating read-write contention \
                             entirely — is so significant that MVCC has become the dominant concurrency control \
                             strategy in modern databases."),
            parameter_guide,
            alternatives,
            suggested_questions,
        }
    }

    fn build_references() -> (r: Vec<Reference>)
        ensures
            r@.len() == 1,
            r@[0].ref_type == ReferenceType::Paper,
            r@[0].title@ == "An Empirical Evaluation of In-Memory MVCC"@,
            r@[0].url is None,
            r@[0].citation matches Some(t) && t@ == "Wu, Y. et al. (2017). PVLDB, 10(7), 781–792."@,
    {
        let mut r: Vec<Reference> = Vec::new();
        r.push(Reference { ref_type: ReferenceType::Paper, title: String::from_str("An Empirical Evaluation of In-Memory MVCC"), url: None, citation: Some(String::from_str("Wu, Y. et al. (2017). PVLDB, 10(7), 781–792.")) });
        r
    }

    fn build_metadata() -> (m: BlockMetadata)
        ensures
            m.documentation.overview@ == "MVCC (Multi-Version Concurrency Control) allows multiple transactions to read and \
                           write concurrently without blocking each other. Instead of overwriting data in place, \
                           writers create new versions of each record. Readers see a consistent snapshot of the \
                           database based on their start timestamp, completely unaffected by concurrent writers.\n\n\
                           MVCC is the concurrency control mechanism used by most modern databases including \
                           PostgreSQL, MySQL InnoDB, Oracle, and CockroachDB. It implements snapshot isolation, \
                           where each transaction sees the database as it existed at the moment the transaction \
                           began. This eliminates the need for read locks entirely, dramatically improving \
                           throughput for mixed read/write workloads.\n\n\
                           Think of MVCC like a document editing system with full version history. When someone \
                           edits a document, they create a new version rather than modifying the original. Anyone \
                           who opened the document before the edit still sees the old version. The system needs \
                           to periodically clean up old versions that nobody is reading anymore — this is garbage \
                           collection (VACUUM in PostgreSQL)."@,
            m.references@.len() == 1,
            m.id@ == "mvcc"@,
            m.category == BlockCategory::Concurrency,
            m.name@ == "MVCC"@,
            m.description@ == "Multi-Version Concurrency Control with snapshot isolation"@,
            m.version@ == "1.0.0"@,
            m.icon@ == "git-compare"@,
            m.color@ == "#A855F7"@,
    {
        BlockMetadata::new(
            "mvcc",
            "MVCC",
            BlockCategory::Concurrency,
            "Multi-Version Concurrency Control with snapshot isolation",
            "git-compare",
            "#A855F7",
            Self::build_documentation(),
            Self::build_references(),
        )
    }

    fn build_inputs() -> (p: Vec<Port>)
        ensures
            p@.len() == 1,
            p@[0].id@ == "records"@,
    {
        let mut p: Vec<Port> = Vec::new();
        p.push(
            Port::new(
                "records",
                "Records",
                PortDirection::Input,
                true,
                false,
                "Records to process with MVCC versioning",
            ),
        );
        p
    }

    fn build_outputs() -> (p: Vec<Port>)
        ensures
            p@.len() == 1,
            p@[0].id@ == "visible"@,
    {
        let mut p: Vec<Port> = Vec::new();
        p.push(
            Port::new(
                "visible",
                "Visible Records",
                PortDirection::Output,
                false,
                true,
                "Records visible at the latest snapshot",
            ),
        );
        p
    }

    fn build_metrics() -> (v: Vec<MetricDefinition>)
        ensures
            v@.len() == 8,
            v@[0].id@ == "versions_created"@,
            v@[1].id@ == "versions_visible"@,
            v@[2].id@ == "versions_garbage"@,
            v@[3].id@ == "gc_runs"@,
            v@[4].id@ == "gc_reclaimed"@,
            v@[5].id@ == "snapshot_reads"@,
            v@[6].id@ == "write_conflicts"@,
            v@[7].id@ == "chain_length_avg"@,
    {
        let mut v: Vec<MetricDefinition> = Vec::new();
        v.push(
            MetricDefinition::new(
                "versions_created",
                "Versions Created",
                MetricType::Counter,
                "versions",
                "Total new versions written",
                AggregationType::Sum,
            ),
        );
        v.push(
            MetricDefinition::new(
                "versions_visible",
                "Visible Versions",
                MetricType::Gauge,
                "versions",
                "Versions visible at latest snapshot",
                AggregationType::Max,
            ),
        );
        v.push(
            MetricDefinition::new(
                "versions_garbage",
                "Garbage Versions",
                MetricType::Gauge,
                "versions",
                "Versions eligible for GC",
                AggregationType::Max,
            ),
        );
        v.push(
            MetricDefinition::new(
                "gc_runs",
                "GC Runs",
                MetricType::Counter,
                "runs",
                "Garbage collection cycles",
                AggregationType::Sum,
            ),
        );
        v.push(
            MetricDefinition::new(
                "gc_reclaimed",
                "GC Reclaimed",
                MetricType::Counter,
                "versions",
                "Versions reclaimed by GC",
                AggregationType::Sum,
            ),
        );
        v.push(
            MetricDefinition::new(
                "snapshot_reads",
                "Snapshot Reads",
                MetricType::Counter,
                "reads",
                "Reads served from snapshot",
                AggregationType::Sum,
            ),
        );
        v.push(
            MetricDefinition::new(
                "write_conflicts",
                "Write Conflicts",
                MetricType::Counter,
                "conflicts",
                "Write-write conflicts detected",
                AggregationType::Sum,
            ),
        );
        v.push(
            MetricDefinition::new(
                "chain_length_avg",
                "Avg Chain Length",
                MetricType::Gauge,
                "versions",
                "Average version chain length",
                AggregationType::Avg,
            ),
        );
        v
    }

    /// What the block says about itself.
    pub fn metadata(&self) -> (m: &BlockMetadata)
        ensures
            m == self.spec_metadata(),
    {
        &self.metadata
    }

    pub closed spec fn spec_metadata(&self) -> BlockMetadata {
        self.metadata
    }

    /// The block's input ports.
    pub fn inputs(&self) -> (p: &Vec<Port>)
        ensures
            p == self.spec_inputs(),
    {
        &self.input_ports
    }

    pub closed spec fn spec_inputs(&self) -> Vec<Port> {
        self.input_ports
    }

    /// The block's output ports.
    pub fn outputs(&self) -> (p: &Vec<Port>)
        ensures
            p == self.spec_outputs(),
    {
        &self.output_ports
    }

    pub closed spec fn spec_outputs(&self) -> Vec<Port> {
        self.output_ports
    }

    /// The metrics the block reports.
    pub fn metrics(&self) -> (m: &Vec<MetricDefinition>)
        ensures
            m == self.spec_metrics(),
    {
        &self.metric_defs
    }

    pub closed spec fn spec_metrics(&self) -> Vec<MetricDefinition> {
        self.metric_defs
    }
}

} // verus!
