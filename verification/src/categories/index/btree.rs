//! B-tree Index Block
//!
//! A B+-tree from keys to TupleIds. Leaves hold the entries, sorted by key;
//! internal nodes hold separator keys and children. A key at least a
//! separator lives to its right: the search for a key descends into the
//! first child whose separator exceeds it. A node with more than `fanout`
//! entries (or separators) splits in two, and a split root adds a level,
//! so every leaf stays at the same depth. Keys are texts, integers or
//! other JSON values, in the order `bkey` gives them.
use vstd::multiset::Multiset;
use vstd::prelude::*;
use vstd::string::*;

use crate::categories::index::bkey::{copy_key, key_display, key_json_text, group_key_order, key_le, key_less, key_lt, key_same, same_key, BKey};
use crate::categories::TupleId;
use crate::common::block::{Alternative, BlockCategory, BlockDocumentation, BlockError, BlockMetadata, Complexity, Reference, ReferenceType};
use crate::common::metrics::{AggregationType, MetricDefinition, MetricType};
use crate::common::port::{Port, PortDirection};

verus! {

broadcast use {vstd::seq_lib::group_to_multiset_ensures, vstd::multiset::group_multiset_axioms, group_key_order};

/// An indexed key and the tuple it points at.
pub type BEntry = (BKey, TupleId);

/// A node: a leaf with its entries, or an internal node with its separator
/// keys and one more child than keys.
pub struct BTreeNode {
    is_leaf: bool,
    keys: Vec<BKey>,
    children: Vec<BTreeNode>,
    entries: Vec<BEntry>,
}

/// `k` is no less than the lower bound, if there is one.
pub open spec fn above(lo: Option<BKey>, k: BKey) -> bool {
    match lo {
        Some(l) => key_le(l, k),
        None => true,
    }
}

/// `k` is no more than the upper bound, if there is one.
pub open spec fn below(hi: Option<BKey>, k: BKey) -> bool {
    match hi {
        Some(h) => key_le(k, h),
        None => true,
    }
}

/// Entries in non-decreasing key order.
pub open spec fn entries_sorted(s: Seq<BEntry>) -> bool {
    forall|i: int, j: int| 0 <= i < j < s.len() ==> key_le((#[trigger] s[i]).0, (#[trigger] s[j]).0)
}

/// Keys in non-decreasing order.
pub open spec fn keys_sorted(s: Seq<BKey>) -> bool {
    forall|i: int, j: int| 0 <= i < j < s.len() ==> key_le(#[trigger] s[i], #[trigger] s[j])
}

/// The lower bound of child `j`: the separator before it.
pub open spec fn child_lo(keys: Seq<BKey>, lo: Option<BKey>, j: int) -> Option<BKey> {
    if j == 0 {
        lo
    } else {
        Some(keys[j - 1])
    }
}

/// The upper bound of child `j`: the separator after it.
pub open spec fn child_hi(keys: Seq<BKey>, hi: Option<BKey>, j: int) -> Option<BKey> {
    if j == keys.len() {
        hi
    } else {
        Some(keys[j])
    }
}

impl BTreeNode {
    /// The entries of a node of height `h`, in key order.
    pub closed spec fn entries_of(self, h: nat) -> Seq<BEntry>
        decreases 2 * h + 1, 0int,
    {
        if h == 0 {
            self.entries@
        } else {
            children_entries(self.children@, (h - 1) as nat, self.children@.len() as int)
        }
    }

    /// The number of nodes of the subtree of height `h` rooted here.
    pub closed spec fn node_count(self, h: nat) -> nat
        decreases 2 * h + 1, 0int,
    {
        if h == 0 {
            1
        } else {
            1 + children_count(self.children@, (h - 1) as nat, self.children@.len() as int)
        }
    }

    /// A well-formed node of height `h` whose keys lie within `lo` and
    /// `hi`: leaves sorted; internal nodes with sorted separators, one more
    /// child than separators, every child well formed within its
    /// separators, not empty, and each child but the first starting with
    /// the separator before it.
    pub closed spec fn wf(self, h: nat, lo: Option<BKey>, hi: Option<BKey>) -> bool
        decreases 2 * h + 1,
    {
        if h == 0 {
            &&& self.is_leaf
            &&& entries_sorted(self.entries@)
            &&& forall|i: int| 0 <= i < self.entries@.len() ==> above(lo, (#[trigger] self.entries@[i]).0) && below(hi, self.entries@[i].0)
        } else {
            &&& !self.is_leaf
            &&& internal_ok(self.keys@, self.children@, (h - 1) as nat, lo, hi)
        }
    }
}

/// Separators and children of height `ch` that make a well-formed
/// internal node within `lo` and `hi`, whatever its size.
pub closed spec fn internal_ok(keys: Seq<BKey>, cs: Seq<BTreeNode>, ch: nat, lo: Option<BKey>, hi: Option<BKey>) -> bool
    decreases 2 * ch + 2,
{
    &&& 1 <= keys.len()
    &&& cs.len() == keys.len() + 1
    &&& keys_sorted(keys)
    &&& forall|i: int| 0 <= i < keys.len() ==> above(lo, #[trigger] keys[i]) && below(hi, keys[i])
    &&& forall|j: int| 0 <= j < cs.len() ==> (#[trigger] cs[j]).wf(ch, child_lo(keys, lo, j), child_hi(keys, hi, j))
    &&& forall|j: int| 0 <= j < cs.len() ==> (#[trigger] cs[j]).entries_of(ch).len() > 0
    &&& forall|j: int| 1 <= j < cs.len() ==> same_key((#[trigger] cs[j]).entries_of(ch)[0].0, keys[j - 1])
}

/// The entries of the first `k` children, of height `h`, in order.
pub closed spec fn children_entries(cs: Seq<BTreeNode>, h: nat, k: int) -> Seq<BEntry>
    decreases 2 * h + 2, k,
{
    if k <= 0 || k > cs.len() {
        Seq::empty()
    } else {
        children_entries(cs, h, k - 1) + cs[k - 1].entries_of(h)
    }
}

/// The number of nodes below the first `k` children, of height `h`,
/// themselves included.
pub closed spec fn children_count(cs: Seq<BTreeNode>, h: nat, k: int) -> nat
    decreases 2 * h + 2, k,
{
    if k <= 0 || k > cs.len() {
        0
    } else {
        children_count(cs, h, k - 1) + cs[k - 1].node_count(h)
    }
}

/// The number of nodes below all of `cs`, themselves included.
pub open spec fn all_count(cs: Seq<BTreeNode>, h: nat) -> nat {
    children_count(cs, h, cs.len() as int)
}

proof fn lemma_count_prefix(cs: Seq<BTreeNode>, ds: Seq<BTreeNode>, h: nat, k: int)
    requires
        0 <= k <= cs.len(),
        k <= ds.len(),
        forall|i: int| 0 <= i < k ==> cs[i] == ds[i],
    ensures
        children_count(cs, h, k) == children_count(ds, h, k),
    decreases k,
{
    if k > 0 {
        lemma_count_prefix(cs, ds, h, k - 1);
    }
}

proof fn lemma_all_count_concat(a: Seq<BTreeNode>, b: Seq<BTreeNode>, h: nat)
    ensures
        all_count(a + b, h) == all_count(a, h) + all_count(b, h),
    decreases b.len(),
{
    if b.len() == 0 {
        assert(a + b =~= a);
    } else {
        let b0 = b.drop_last();
        lemma_all_count_concat(a, b0, h);
        assert((a + b).drop_last() =~= a + b0);
        lemma_count_prefix(a + b, a + b0, h, (a + b0).len() as int);
        lemma_count_prefix(b, b0, h, b0.len() as int);
        assert((a + b)[(a + b).len() - 1] == b[b.len() - 1]);
    }
}

proof fn lemma_all_count_single(c: BTreeNode, h: nat)
    ensures
        all_count(seq![c], h) == c.node_count(h),
{
    assert(children_count(seq![c], h, 0) == 0);
    assert(seq![c][0] == c);
}

proof fn lemma_all_count_around(cs: Seq<BTreeNode>, h: nat, j: int)
    requires
        0 <= j < cs.len(),
    ensures
        all_count(cs, h) == all_count(cs.take(j), h) + cs[j].node_count(h) + all_count(cs.skip(j + 1), h),
{
    assert(cs =~= cs.take(j) + seq![cs[j]] + cs.skip(j + 1));
    lemma_all_count_concat(cs.take(j) + seq![cs[j]], cs.skip(j + 1), h);
    lemma_all_count_concat(cs.take(j), seq![cs[j]], h);
    lemma_all_count_single(cs[j], h);
}

/// The entries of all of `cs`, in order.
pub open spec fn all_entries(cs: Seq<BTreeNode>, h: nat) -> Seq<BEntry> {
    children_entries(cs, h, cs.len() as int)
}

proof fn lemma_entries_of_internal(n: BTreeNode, h: nat)
    requires
        h > 0,
    ensures
        n.entries_of(h) == all_entries(n.children@, (h - 1) as nat),
{
}

proof fn lemma_entries_of_leaf(n: BTreeNode)
    ensures
        n.entries_of(0) == n.entries@,
{
}

proof fn lemma_children_prefix(cs: Seq<BTreeNode>, ds: Seq<BTreeNode>, h: nat, k: int)
    requires
        0 <= k <= cs.len(),
        k <= ds.len(),
        forall|i: int| 0 <= i < k ==> cs[i] == ds[i],
    ensures
        children_entries(cs, h, k) == children_entries(ds, h, k),
    decreases k,
{
    if k > 0 {
        lemma_children_prefix(cs, ds, h, k - 1);
    }
}

/// The entries of two runs of children, one after the other.
proof fn lemma_all_entries_concat(a: Seq<BTreeNode>, b: Seq<BTreeNode>, h: nat)
    ensures
        all_entries(a + b, h) == all_entries(a, h) + all_entries(b, h),
    decreases b.len(),
{
    if b.len() == 0 {
        assert(a + b =~= a);
        assert(all_entries(b, h) =~= Seq::<BEntry>::empty());
        assert(all_entries(a, h) + all_entries(b, h) =~= all_entries(a, h));
    } else {
        let b0 = b.drop_last();
        lemma_all_entries_concat(a, b0, h);
        assert((a + b).drop_last() =~= a + b0);
        lemma_children_prefix(a + b, a + b0, h, (a + b0).len() as int);
        lemma_children_prefix(b, b0, h, b0.len() as int);
        assert((a + b)[(a + b).len() - 1] == b[b.len() - 1]);
        assert(all_entries(a + b, h) == all_entries(a + b0, h) + b[b.len() - 1].entries_of(h));
        assert(all_entries(b, h) == all_entries(b0, h) + b[b.len() - 1].entries_of(h));
    }
}

proof fn lemma_all_entries_single(c: BTreeNode, h: nat)
    ensures
        all_entries(seq![c], h) == c.entries_of(h),
{
    assert(children_entries(seq![c], h, 0) =~= Seq::<BEntry>::empty());
    assert(Seq::<BEntry>::empty() + c.entries_of(h) =~= c.entries_of(h));
}

/// The entries of a well-formed node are sorted and within its bounds.
proof fn lemma_wf_entries(n: BTreeNode, h: nat, lo: Option<BKey>, hi: Option<BKey>)
    requires
        n.wf(h, lo, hi),
    ensures
        entries_sorted(n.entries_of(h)),
        forall|i: int| 0 <= i < n.entries_of(h).len() ==> above(lo, (#[trigger] n.entries_of(h)[i]).0) && below(hi, n.entries_of(h)[i].0),
    decreases 2 * h + 1, 0int,
{
    if h > 0 {
        assert(internal_ok(n.keys@, n.children@, (h - 1) as nat, lo, hi));
        lemma_children_sorted(n.keys@, n.children@, (h - 1) as nat, lo, hi, n.children@.len() as int);
        let e = n.entries_of(h);
        let k = n.children@.len() as int;
        assert forall|i: int| 0 <= i < e.len() implies below(hi, (#[trigger] e[i]).0) by {
            assert(below(child_hi(n.keys@, hi, k - 1), e[i].0));
        }
    }
}

/// The entries of the first `k` children of well-formed separators and
/// children are sorted, above the lower bound and below the `k`-th
/// child's upper bound.
proof fn lemma_children_sorted(keys: Seq<BKey>, cs: Seq<BTreeNode>, ch: nat, lo: Option<BKey>, hi: Option<BKey>, k: int)
    requires
        internal_ok(keys, cs, ch, lo, hi),
        0 <= k <= cs.len(),
    ensures
        entries_sorted(children_entries(cs, ch, k)),
        forall|i: int| 0 <= i < children_entries(cs, ch, k).len() ==> above(lo, (#[trigger] children_entries(cs, ch, k)[i]).0),
        k > 0 ==> forall|i: int| 0 <= i < children_entries(cs, ch, k).len() ==> below(child_hi(keys, hi, k - 1), (#[trigger] children_entries(cs, ch, k)[i]).0),
    decreases 2 * ch + 2, k,
{
    if k > 0 {
        lemma_children_sorted(keys, cs, ch, lo, hi, k - 1);
        let c = cs[k - 1];
        assert(c.wf(ch, child_lo(keys, lo, k - 1), child_hi(keys, hi, k - 1)));
        lemma_wf_entries(c, ch, child_lo(keys, lo, k - 1), child_hi(keys, hi, k - 1));
        let p = children_entries(cs, ch, k - 1);
        let q = c.entries_of(ch);
        let all = children_entries(cs, ch, k);
        assert(all == p + q);
        assert forall|i: int| 0 <= i < all.len() implies above(lo, (#[trigger] all[i]).0) && below(child_hi(keys, hi, k - 1), all[i].0) by {
            if i < p.len() {
                assert(all[i] == p[i]);
                assert(below(child_hi(keys, hi, k - 2), p[i].0));
                if k - 1 < keys.len() {
                    assert(key_le(keys[k - 2], keys[k - 1]));
                }
            } else {
                assert(all[i] == q[i - p.len()]);
                if k - 1 > 0 {
                    assert(above(lo, keys[k - 2]));
                }
            }
        }
        assert forall|i: int, j: int| 0 <= i < j < all.len() implies key_le((#[trigger] all[i]).0, (#[trigger] all[j]).0) by {
            if j < p.len() {
                assert(all[i] == p[i] && all[j] == p[j]);
            } else if i >= p.len() {
                assert(all[i] == q[i - p.len()] && all[j] == q[j - p.len()]);
            } else {
                assert(all[i] == p[i] && all[j] == q[j - p.len()]);
                assert(below(child_hi(keys, hi, k - 2), p[i].0));
                assert(above(child_lo(keys, lo, k - 1), q[j - p.len()].0));
            }
        }
    }
}

/// The entries of children around child `j`.
proof fn lemma_all_entries_around(cs: Seq<BTreeNode>, h: nat, j: int)
    requires
        0 <= j < cs.len(),
    ensures
        all_entries(cs, h) == all_entries(cs.take(j), h) + cs[j].entries_of(h) + all_entries(cs.skip(j + 1), h),
{
    assert(cs =~= cs.take(j) + seq![cs[j]] + cs.skip(j + 1));
    lemma_all_entries_concat(cs.take(j) + seq![cs[j]], cs.skip(j + 1), h);
    lemma_all_entries_concat(cs.take(j), seq![cs[j]], h);
    lemma_all_entries_single(cs[j], h);
}

/// The first entry of children whose first child has entries is that
/// child's first entry.
proof fn lemma_all_entries_first(cs: Seq<BTreeNode>, h: nat)
    requires
        cs.len() > 0,
        cs[0].entries_of(h).len() > 0,
    ensures
        all_entries(cs, h).len() > 0,
        all_entries(cs, h)[0] == cs[0].entries_of(h)[0],
{
    lemma_all_entries_around(cs, h, 0);
    assert(all_entries(cs.take(0), h) =~= Seq::<BEntry>::empty()) by {
        assert(cs.take(0) =~= Seq::<BTreeNode>::empty());
    }
}

/// Child `j` replaced by a well-formed child with the same bounds and the
/// same first key keeps the node well formed.
proof fn lemma_replace_child(keys: Seq<BKey>, cs: Seq<BTreeNode>, ch: nat, lo: Option<BKey>, hi: Option<BKey>, j: int, c2: BTreeNode)
    requires
        internal_ok(keys, cs, ch, lo, hi),
        0 <= j < cs.len(),
        c2.wf(ch, child_lo(keys, lo, j), child_hi(keys, hi, j)),
        c2.entries_of(ch).len() > 0,
        j >= 1 ==> same_key(c2.entries_of(ch)[0].0, keys[j - 1]),
    ensures
        internal_ok(keys, cs.update(j, c2), ch, lo, hi),
        all_entries(cs.update(j, c2), ch) == all_entries(cs.take(j), ch) + c2.entries_of(ch) + all_entries(cs.skip(j + 1), ch),
{
    let u = cs.update(j, c2);
    assert forall|i: int| 0 <= i < u.len() implies (#[trigger] u[i]).wf(ch, child_lo(keys, lo, i), child_hi(keys, hi, i)) by {
        if i != j {
            assert(u[i] == cs[i]);
        }
    }
    assert forall|i: int| 0 <= i < u.len() implies (#[trigger] u[i]).entries_of(ch).len() > 0 by {
        if i != j {
            assert(u[i] == cs[i]);
        }
    }
    assert forall|i: int| 1 <= i < u.len() implies same_key((#[trigger] u[i]).entries_of(ch)[0].0, keys[i - 1]) by {
        if i != j {
            assert(u[i] == cs[i]);
        }
    }
    lemma_all_entries_around(u, ch, j);
    assert(u.take(j) =~= cs.take(j));
    assert(u.skip(j + 1) =~= cs.skip(j + 1));
}

/// Child `j` split into `c2` and `r` around `m`, with `m` added as a
/// separator, keeps the node well formed (though perhaps one key over
/// size).
#[verifier::rlimit(100)]
proof fn lemma_insert_child(
    keys: Seq<BKey>,
    cs: Seq<BTreeNode>,
    ch: nat,
    lo: Option<BKey>,
    hi: Option<BKey>,
    j: int,
    c2: BTreeNode,
    m: BKey,
    r: BTreeNode,)
    requires
        internal_ok(keys, cs, ch, lo, hi),
        0 <= j < cs.len(),
        c2.wf(ch, child_lo(keys, lo, j), Some(m)),
        r.wf(ch, Some(m), child_hi(keys, hi, j)),
        above(child_lo(keys, lo, j), m),
        below(child_hi(keys, hi, j), m),
        c2.entries_of(ch).len() > 0,
        r.entries_of(ch).len() > 0,
        same_key(r.entries_of(ch)[0].0, m),
        j >= 1 ==> same_key(c2.entries_of(ch)[0].0, keys[j - 1]),
    ensures
        internal_ok(keys.insert(j, m), cs.update(j, c2).insert(j + 1, r), ch, lo, hi),
        all_entries(cs.update(j, c2).insert(j + 1, r), ch) == all_entries(cs.take(j), ch) + c2.entries_of(ch)
            + r.entries_of(ch) + all_entries(cs.skip(j + 1), ch),
{
    let k2 = keys.insert(j, m);
    let u = cs.update(j, c2).insert(j + 1, r);
    assert(u.len() == k2.len() + 1);
    assert(keys_sorted(k2)) by {
        assert forall|a: int, b: int| 0 <= a < b < k2.len() implies key_le(#[trigger] k2[a], #[trigger] k2[b]) by {
            let oa = if a < j { a } else if a == j { -1 } else { a - 1 };
            let ob = if b < j { b } else if b == j { -1 } else { b - 1 };
            if a == j {
                assert(k2[a] == m);
                assert(k2[b] == keys[b - 1]);
                assert(below(child_hi(keys, hi, j), m));
                assert(key_le(keys[j], keys[b - 1]));
            } else if b == j {
                assert(k2[b] == m);
                assert(k2[a] == keys[a]);
                assert(key_le(keys[a], keys[j - 1]));
            } else {
                assert(k2[a] == keys[oa] && k2[b] == keys[ob]);
            }
        }
    }
    assert forall|i: int| 0 <= i < k2.len() implies above(lo, #[trigger] k2[i]) && below(hi, k2[i]) by {
        if i == j {
            if j > 0 {
                assert(above(lo, keys[j - 1]));
            }
            if j < keys.len() {
                assert(below(hi, keys[j]));
            }
        } else if i < j {
            assert(k2[i] == keys[i]);
        } else {
            assert(k2[i] == keys[i - 1]);
        }
    }
    assert forall|i: int| 0 <= i < u.len() implies (#[trigger] u[i]).wf(ch, child_lo(k2, lo, i), child_hi(k2, hi, i)) && u[i].entries_of(ch).len() > 0 by {
        if i < j {
            assert(u[i] == cs[i]);
            assert(child_lo(k2, lo, i) == child_lo(keys, lo, i));
            assert(child_hi(k2, hi, i) == child_hi(keys, hi, i));
        } else if i == j {
            assert(u[i] == c2);
            assert(child_lo(k2, lo, i) == child_lo(keys, lo, i));
        } else if i == j + 1 {
            assert(u[i] == r);
            assert(child_hi(k2, hi, i) == child_hi(keys, hi, j));
        } else {
            assert(u[i] == cs[i - 1]);
            assert(child_lo(k2, lo, i) == child_lo(keys, lo, i - 1));
            assert(child_hi(k2, hi, i) == child_hi(keys, hi, i - 1));
        }
    }
    assert forall|i: int| 1 <= i < u.len() implies same_key((#[trigger] u[i]).entries_of(ch)[0].0, k2[i - 1]) by {
        if i < j {
            assert(u[i] == cs[i]);
        } else if i == j {
            assert(u[i] == c2);
        } else if i == j + 1 {
            assert(u[i] == r);
        } else {
            assert(u[i] == cs[i - 1]);
        }
    }
    assert(u =~= cs.take(j) + seq![c2] + seq![r] + cs.skip(j + 1));
    lemma_all_entries_concat(cs.take(j) + seq![c2] + seq![r], cs.skip(j + 1), ch);
    lemma_all_entries_concat(cs.take(j) + seq![c2], seq![r], ch);
    lemma_all_entries_concat(cs.take(j), seq![c2], ch);
    lemma_all_entries_single(c2, ch);
    lemma_all_entries_single(r, ch);
}

/// An over-full node split at separator `mid`: the separators before it
/// with their children, and those after it with theirs.
proof fn lemma_split_internal(keys: Seq<BKey>, cs: Seq<BTreeNode>, ch: nat, lo: Option<BKey>, hi: Option<BKey>, mid: int)
    requires
        internal_ok(keys, cs, ch, lo, hi),
        1 <= mid < keys.len() - 1,
    ensures
        internal_ok(keys.take(mid), cs.take(mid + 1), ch, lo, Some(keys[mid])),
        internal_ok(keys.skip(mid + 1), cs.skip(mid + 1), ch, Some(keys[mid]), hi),
        above(lo, keys[mid]),
        below(hi, keys[mid]),
        all_entries(cs, ch) == all_entries(cs.take(mid + 1), ch) + all_entries(cs.skip(mid + 1), ch),
        all_entries(cs.skip(mid + 1), ch).len() > 0,
        same_key(all_entries(cs.skip(mid + 1), ch)[0].0, keys[mid]),
        all_entries(cs.take(mid + 1), ch).len() > 0,
        all_entries(cs.take(mid + 1), ch)[0] == all_entries(cs, ch)[0],
{
    let up = keys[mid];
    let lk = keys.take(mid);
    let lc = cs.take(mid + 1);
    let rk = keys.skip(mid + 1);
    let rc = cs.skip(mid + 1);
    assert forall|i: int| 0 <= i < lk.len() implies above(lo, #[trigger] lk[i]) && below(Some(up), lk[i]) by {
        assert(lk[i] == keys[i]);
    }
    assert forall|a: int, b: int| 0 <= a < b < lk.len() implies key_le(#[trigger] lk[a], #[trigger] lk[b]) by {
        assert(lk[a] == keys[a] && lk[b] == keys[b]);
    }
    assert forall|i: int| 0 <= i < lc.len() implies (#[trigger] lc[i]).wf(ch, child_lo(lk, lo, i), child_hi(lk, Some(up), i)) && lc[i].entries_of(ch).len() > 0 by {
        assert(lc[i] == cs[i]);
        assert(child_lo(lk, lo, i) == child_lo(keys, lo, i));
        assert(child_hi(lk, Some(up), i) == child_hi(keys, hi, i));
    }
    assert forall|i: int| 1 <= i < lc.len() implies same_key((#[trigger] lc[i]).entries_of(ch)[0].0, lk[i - 1]) by {
        assert(lc[i] == cs[i]);
    }
    assert forall|i: int| 0 <= i < rk.len() implies above(Some(up), #[trigger] rk[i]) && below(hi, rk[i]) by {
        assert(rk[i] == keys[mid + 1 + i]);
    }
    assert forall|a: int, b: int| 0 <= a < b < rk.len() implies key_le(#[trigger] rk[a], #[trigger] rk[b]) by {
        assert(rk[a] == keys[mid + 1 + a] && rk[b] == keys[mid + 1 + b]);
    }
    assert forall|i: int| 0 <= i < rc.len() implies (#[trigger] rc[i]).wf(ch, child_lo(rk, Some(up), i), child_hi(rk, hi, i)) && rc[i].entries_of(ch).len() > 0 by {
        assert(rc[i] == cs[mid + 1 + i]);
        assert(child_lo(rk, Some(up), i) == child_lo(keys, lo, mid + 1 + i));
        assert(child_hi(rk, hi, i) == child_hi(keys, hi, mid + 1 + i));
    }
    assert forall|i: int| 1 <= i < rc.len() implies same_key((#[trigger] rc[i]).entries_of(ch)[0].0, rk[i - 1]) by {
        assert(rc[i] == cs[mid + 1 + i]);
    }
    assert(cs =~= lc + rc);
    lemma_all_entries_concat(lc, rc, ch);
    assert(rc[0] == cs[mid + 1]);
    lemma_all_entries_first(rc, ch);
    assert(lc[0] == cs[0]);
    lemma_all_entries_first(lc, ch);
    lemma_all_entries_first(cs, ch);
}

/// The first position whose key is at least `key`, in sorted entries.
fn lower_bound(entries: &Vec<BEntry>, key: BKey, comparisons: &mut usize) -> (p: usize)
    requires
        entries_sorted(entries@),
    ensures
        p <= entries@.len(),
        forall|i: int| 0 <= i < p ==> key_lt((#[trigger] entries@[i]).0, key),
        forall|i: int| p <= i < entries@.len() ==> key_le(key, (#[trigger] entries@[i]).0),
{
    let mut lo: usize = 0;
    let mut hi: usize = entries.len();
    while lo < hi
        invariant
            0 <= lo <= hi <= entries@.len(),
            entries_sorted(entries@),
            forall|i: int| 0 <= i < lo ==> key_lt((#[trigger] entries@[i]).0, key),
            forall|i: int| hi <= i < entries@.len() ==> key_le(key, (#[trigger] entries@[i]).0),
        decreases hi - lo,
    {
        let mid = lo + (hi - lo) / 2;
        *comparisons = comparisons.saturating_add(1);
        if key_less(&entries[mid].0, &key) {
            proof {
                assert forall|i: int| 0 <= i < mid + 1 implies key_lt((#[trigger] entries@[i]).0, key) by {
                    if i < mid {
                        assert(key_le(entries@[i].0, entries@[mid as int].0));
                    }
                }
            }
            lo = mid + 1;
        } else {
            proof {
                assert forall|i: int| mid <= i < entries@.len() implies key_le(key, (#[trigger] entries@[i]).0) by {
                    if i > mid {
                        assert(key_le(entries@[mid as int].0, entries@[i].0));
                    }
                }
            }
            hi = mid;
        }
    }
    lo
}

/// The child a search for `key` descends into: the first whose separator
/// exceeds `key`, or the last.
fn descend_index(keys: &Vec<BKey>, key: BKey) -> (j: usize)
    ensures
        j <= keys@.len(),
        forall|i: int| 0 <= i < j ==> key_le(#[trigger] keys@[i], key),
        j < keys@.len() ==> key_lt(key, keys@[j as int]),
{
    let mut j: usize = 0;
    while j < keys.len() && !key_less(&key, &keys[j])
        invariant
            0 <= j <= keys@.len(),
            forall|i: int| 0 <= i < j ==> key_le(#[trigger] keys@[i], key),
        decreases keys@.len() - j,
    {
        j = j + 1;
    }
    j
}

proof fn lemma_multiset_concat3(a: Seq<BEntry>, b: Seq<BEntry>, c: Seq<BEntry>)
    ensures
        (a + b + c).to_multiset() == a.to_multiset().add(b.to_multiset()).add(c.to_multiset()),
{
    vstd::seq_lib::lemma_multiset_commutative(a + b, c);
    vstd::seq_lib::lemma_multiset_commutative(a, b);
}

impl BTreeNode {
    /// An empty leaf.
    fn empty_leaf() -> (n: Self)
        ensures
            n.is_leaf,
            n.entries@ == Seq::<BEntry>::empty(),
            n.entries_of(0) == Seq::<BEntry>::empty(),
            forall|lo: Option<BKey>, hi: Option<BKey>| #[trigger] n.wf(0, lo, hi),
    {
        BTreeNode { is_leaf: true, keys: Vec::new(), children: Vec::new(), entries: Vec::new() }
    }

    /// Inserts an entry below this node of height `h`, bounded by `lo` and
    /// `hi`. A node that grows past `fanout` splits: it keeps the lower
    /// half and the upper half is returned with the key that separates
    /// them (the first key of the upper half, for a leaf; the middle
    /// separator, for an internal node).
    fn insert_rec(
        &mut self,
        key: BKey,
        tid: TupleId,
        fanout: usize,
        splits: &mut usize,
        comparisons: &mut usize,
        Ghost(h): Ghost<nat>,
        Ghost(lo): Ghost<Option<BKey>>,
        Ghost(hi): Ghost<Option<BKey>>,
    ) -> (r: Option<(BKey, BTreeNode)>)
        requires
            *old(splits) + h + 1 <= usize::MAX,
            old(self).wf(h, lo, hi),
            fanout >= 3,
            above(lo, key),
            below(hi, key),
        ensures
            match r {
                None => {
                    &&& final(self).wf(h, lo, hi)
                    &&& final(self).entries_of(h).to_multiset() == old(self).entries_of(h).to_multiset().insert((key, tid))
                },
                Some((m, right)) => {
                    &&& final(self).wf(h, lo, Some(m))
                    &&& right.wf(h, Some(m), hi)
                    &&& above(lo, m)
                    &&& below(hi, m)
                    &&& right.entries_of(h).len() > 0
                    &&& same_key(right.entries_of(h)[0].0, m)
                    &&& (final(self).entries_of(h) + right.entries_of(h)).to_multiset() == old(self).entries_of(h).to_multiset().insert((key, tid))
                },
            },
            final(self).entries_of(h).len() > 0,
            old(self).entries_of(h).len() > 0 && lo is Some && same_key(lo->0, old(self).entries_of(h)[0].0) ==> same_key(final(self).entries_of(h)[0].0, old(self).entries_of(h)[0].0),
            *final(splits) + old(self).node_count(h) == *old(splits) + final(self).node_count(h) + match r {
                Some((_, right)) => right.node_count(h),
                None => 0,
            },
            *final(splits) <= *old(splits) + h + 1,
        decreases h, 1int,
    {
        if self.is_leaf {
            self.insert_into_leaf(key, tid, fanout, splits, comparisons, Ghost(h), Ghost(lo), Ghost(hi))
        } else {
            self.insert_into_internal(key, tid, fanout, splits, comparisons, Ghost(h), Ghost(lo), Ghost(hi))
        }
    }

    /// The leaf case of `insert_rec`.
    fn insert_into_leaf(
        &mut self,
        key: BKey,
        tid: TupleId,
        fanout: usize,
        splits: &mut usize,
        comparisons: &mut usize,
        Ghost(h): Ghost<nat>,
        Ghost(lo): Ghost<Option<BKey>>,
        Ghost(hi): Ghost<Option<BKey>>,
    ) -> (r: Option<(BKey, BTreeNode)>)
        requires
            *old(splits) + h + 1 <= usize::MAX,
            old(self).wf(h, lo, hi),
            fanout >= 3,
            old(self).is_leaf,
            above(lo, key),
            below(hi, key),
        ensures
            match r {
                None => {
                    &&& final(self).wf(h, lo, hi)
                    &&& final(self).entries_of(h).to_multiset() == old(self).entries_of(h).to_multiset().insert((key, tid))
                },
                Some((m, right)) => {
                    &&& final(self).wf(h, lo, Some(m))
                    &&& right.wf(h, Some(m), hi)
                    &&& above(lo, m)
                    &&& below(hi, m)
                    &&& right.entries_of(h).len() > 0
                    &&& same_key(right.entries_of(h)[0].0, m)
                    &&& (final(self).entries_of(h) + right.entries_of(h)).to_multiset() == old(self).entries_of(h).to_multiset().insert((key, tid))
                },
            },
            final(self).entries_of(h).len() > 0,
            old(self).entries_of(h).len() > 0 && lo is Some && same_key(lo->0, old(self).entries_of(h)[0].0) ==> same_key(final(self).entries_of(h)[0].0, old(self).entries_of(h)[0].0),
            *final(splits) + old(self).node_count(h) == *old(splits) + final(self).node_count(h) + match r {
                Some((_, right)) => right.node_count(h),
                None => 0,
            },
            *final(splits) <= *old(splits) + h + 1,
    {
        let ghost e = (key, tid);
        proof {
            if h > 0 {
                assert(!self.is_leaf);
            }
            lemma_entries_of_leaf(*self);
        }
        let ghost old_entries = self.entries@;
        let p = lower_bound(&self.entries, copy_key(&key), comparisons);
        self.entries.insert(p, (key, tid));
        proof {
            let ne = self.entries@;
            assert(ne == old_entries.insert(p as int, e));
            assert(entries_sorted(ne)) by {
                assert forall|a: int, b: int| 0 <= a < b < ne.len() implies key_le((#[trigger] ne[a]).0, (#[trigger] ne[b]).0) by {
                    if b < p {
                        assert(ne[a] == old_entries[a] && ne[b] == old_entries[b]);
                    } else if b == p {
                        assert(ne[a] == old_entries[a]);
                    } else if a == p {
                        assert(ne[b] == old_entries[b - 1]);
                    } else if a < p {
                        assert(ne[a] == old_entries[a] && ne[b] == old_entries[b - 1]);
                    } else {
                        assert(ne[a] == old_entries[a - 1] && ne[b] == old_entries[b - 1]);
                    }
                }
            }
            assert forall|i: int| 0 <= i < ne.len() implies above(lo, (#[trigger] ne[i]).0) && below(hi, ne[i].0) by {
                if i < p {
                    assert(ne[i] == old_entries[i]);
                } else if i > p {
                    assert(ne[i] == old_entries[i - 1]);
                }
            }
            assert(ne.to_multiset() == old_entries.to_multiset().insert(e));
            if old_entries.len() > 0 && lo is Some && same_key(lo->0, old_entries[0].0) {
                if p == 0 {
                    assert(key_le(key, old_entries[0].0));
                } else {
                    assert(ne[0] == old_entries[0]);
                }
            }
        }
        if self.entries.len() > fanout {
            let mid = self.entries.len() / 2;
            let ghost all = self.entries@;
            let right_entries = self.entries.split_off(mid);
            let m = copy_key(&right_entries[0].0);
            let right = BTreeNode { is_leaf: true, keys: Vec::new(), children: Vec::new(), entries: right_entries };
            *splits = *splits + 1;
            proof {
                let left = self.entries@;
                let rs = right.entries@;
                assert(left == all.subrange(0, mid as int));
                assert(rs == all.subrange(mid as int, all.len() as int));
                assert(left + rs =~= all);
                lemma_entries_of_leaf(*self);
                lemma_entries_of_leaf(right);
                assert(rs[0] == all[mid as int]);
                assert forall|i: int| 0 <= i < left.len() implies above(lo, (#[trigger] left[i]).0) && below(Some(m), left[i].0) by {
                    assert(left[i] == all[i]);
                }
                assert forall|a: int, b: int| 0 <= a < b < left.len() implies key_le((#[trigger] left[a]).0, (#[trigger] left[b]).0) by {
                    assert(left[a] == all[a] && left[b] == all[b]);
                }
                assert forall|i: int| 0 <= i < rs.len() implies above(Some(m), (#[trigger] rs[i]).0) && below(hi, rs[i].0) by {
                    assert(rs[i] == all[mid + i]);
                }
                assert forall|a: int, b: int| 0 <= a < b < rs.len() implies key_le((#[trigger] rs[a]).0, (#[trigger] rs[b]).0) by {
                    assert(rs[a] == all[mid + a] && rs[b] == all[mid + b]);
                }
                assert(left[0] == all[0]);
            }
            return Some((m, right));
        }
        return None;
    }

    /// The internal-node case of `insert_rec`.
    #[verifier::rlimit(50)]
    #[verifier::spinoff_prover]
    fn insert_into_internal(
        &mut self,
        key: BKey,
        tid: TupleId,
        fanout: usize,
        splits: &mut usize,
        comparisons: &mut usize,
        Ghost(h): Ghost<nat>,
        Ghost(lo): Ghost<Option<BKey>>,
        Ghost(hi): Ghost<Option<BKey>>,
    ) -> (r: Option<(BKey, BTreeNode)>)
        requires
            *old(splits) + h + 1 <= usize::MAX,
            old(self).wf(h, lo, hi),
            fanout >= 3,
            !old(self).is_leaf,
            above(lo, key),
            below(hi, key),
        ensures
            match r {
                None => {
                    &&& final(self).wf(h, lo, hi)
                    &&& final(self).entries_of(h).to_multiset() == old(self).entries_of(h).to_multiset().insert((key, tid))
                },
                Some((m, right)) => {
                    &&& final(self).wf(h, lo, Some(m))
                    &&& right.wf(h, Some(m), hi)
                    &&& above(lo, m)
                    &&& below(hi, m)
                    &&& right.entries_of(h).len() > 0
                    &&& same_key(right.entries_of(h)[0].0, m)
                    &&& (final(self).entries_of(h) + right.entries_of(h)).to_multiset() == old(self).entries_of(h).to_multiset().insert((key, tid))
                },
            },
            final(self).entries_of(h).len() > 0,
            old(self).entries_of(h).len() > 0 && lo is Some && same_key(lo->0, old(self).entries_of(h)[0].0) ==> same_key(final(self).entries_of(h)[0].0, old(self).entries_of(h)[0].0),
            *final(splits) + old(self).node_count(h) == *old(splits) + final(self).node_count(h) + match r {
                Some((_, right)) => right.node_count(h),
                None => 0,
            },
            *final(splits) <= *old(splits) + h + 1,
        decreases h, 0int,
    {
        let ghost e = (key, tid);
        proof {
            if h == 0 {
                assert(self.is_leaf);
            }
        }
        let ghost hh = (h - 1) as nat;
        let ghost keys0 = self.keys@;
        let ghost cs0 = self.children@;
        proof {
            assert(internal_ok(keys0, cs0, hh, lo, hi));
            lemma_entries_of_internal(*self, h);
            lemma_all_entries_first(cs0, hh);
        }
        let j = descend_index(&self.keys, copy_key(&key));
        *comparisons = comparisons.saturating_add(if j < self.keys.len() { j + 1 } else { j });
        proof {
            assert(cs0[j as int].wf(hh, child_lo(keys0, lo, j as int), child_hi(keys0, hi, j as int)));
            if j > 0 {
                assert(key_le(keys0[j - 1], key));
            }
            lemma_all_entries_around(cs0, hh, j as int);
        }
        let ghost s0 = *splits;
        let res = self.children[j].insert_rec(
            key,
            tid,
            fanout,
            splits,
            comparisons,
            Ghost(hh),
            Ghost(child_lo(keys0, lo, j as int)),
            Ghost(child_hi(keys0, hi, j as int)),
        );
        let ghost c2 = self.children@[j as int];
        proof {
            assert(self.children@ == cs0.update(j as int, c2));
            assert(self.keys@ == keys0);
        }
        match res {
            None => {
                proof {
                    lemma_child_grew(keys0, cs0, hh, lo, hi, j as int, c2, e);
                    lemma_entries_of_internal(*self, h);
                }
                None
            },
            Some((m, right)) => {
                let ghost r = right;
                let nc = self.children.len();
                proof {
                    assert(j < nc);
                }
                self.keys.insert(j, m);
                self.children.insert(j + 1, right);
                let ghost keys1 = self.keys@;
                let ghost cs1 = self.children@;
                proof {
                    assert(keys1 == keys0.insert(j as int, m));
                    assert(cs1 == cs0.update(j as int, c2).insert(j + 1, r));
                    lemma_child_split(keys0, cs0, hh, lo, hi, j as int, c2, m, r, e);
                }
                if self.keys.len() > fanout {
                    let mid = self.keys.len() / 2;
                    let up = copy_key(&self.keys[mid]);
                    let right_keys = self.keys.split_off(mid + 1);
                    self.keys.truncate(mid);
                    let right_children = self.children.split_off(mid + 1);
                    let new_right = BTreeNode { is_leaf: false, keys: right_keys, children: right_children, entries: Vec::new() };
                    *splits = *splits + 1;
                    proof {
                        lemma_node_split(keys1, cs1, hh, lo, hi, mid as int);
                        assert(self.keys@ =~= keys1.take(mid as int));
                        assert(self.children@ =~= cs1.take(mid as int + 1));
                        assert(new_right.keys@ =~= keys1.skip(mid as int + 1));
                        assert(new_right.children@ =~= cs1.skip(mid as int + 1));
                        lemma_entries_of_internal(*self, h);
                        lemma_entries_of_internal(new_right, h);
                    }
                    return Some((up, new_right));
                }
                proof {
                    lemma_entries_of_internal(*self, h);
                    assert(self.wf(h, lo, hi));
                }
                None
            },
        }
    }
}

/// After child `j` took an entry `e` without splitting, the node is still
/// well formed, holds `e` more, counts the child's new nodes, and keeps
/// its first entry where the child kept its own.
proof fn lemma_child_grew(keys0: Seq<BKey>, cs0: Seq<BTreeNode>, hh: nat, lo: Option<BKey>, hi: Option<BKey>, j: int, c2: BTreeNode, e: BEntry)
    requires
        internal_ok(keys0, cs0, hh, lo, hi),
        0 <= j < cs0.len(),
        c2.wf(hh, child_lo(keys0, lo, j), child_hi(keys0, hi, j)),
        c2.entries_of(hh).to_multiset() == cs0[j].entries_of(hh).to_multiset().insert(e),
        c2.entries_of(hh).len() > 0,
        j >= 1 ==> same_key(c2.entries_of(hh)[0].0, keys0[j - 1]),
    ensures
        internal_ok(keys0, cs0.update(j, c2), hh, lo, hi),
        all_entries(cs0.update(j, c2), hh).to_multiset() == all_entries(cs0, hh).to_multiset().insert(e),
        all_count(cs0.update(j, c2), hh) + cs0[j].node_count(hh) == all_count(cs0, hh) + c2.node_count(hh),
        all_entries(cs0.update(j, c2), hh).len() > 0,
        all_entries(cs0, hh).len() > 0,
        j > 0 ==> all_entries(cs0.update(j, c2), hh)[0] == all_entries(cs0, hh)[0],
        j == 0 ==> all_entries(cs0.update(j, c2), hh)[0] == c2.entries_of(hh)[0],
{
    lemma_all_count_around(cs0, hh, j);
    let u = cs0.update(j, c2);
    lemma_all_count_around(u, hh, j);
    assert(u.take(j) =~= cs0.take(j));
    assert(u.skip(j + 1) =~= cs0.skip(j + 1));
    lemma_replace_child(keys0, cs0, hh, lo, hi, j, c2);
    lemma_all_entries_around(cs0, hh, j);
    let pre = all_entries(cs0.take(j), hh);
    let post = all_entries(cs0.skip(j + 1), hh);
    lemma_multiset_concat3(pre, cs0[j].entries_of(hh), post);
    lemma_multiset_concat3(pre, c2.entries_of(hh), post);
    lemma_all_entries_first(u, hh);
    lemma_all_entries_first(cs0, hh);
    if j > 0 {
        assert(u[0] == cs0[0]);
    }
}

/// After child `j` took an entry `e` and split into `c2` and `r` around
/// `m`, the node with `m` added is well formed (perhaps one key over
/// size), holds `e` more and counts the new nodes.
#[verifier::rlimit(40)]
proof fn lemma_child_split(keys0: Seq<BKey>, cs0: Seq<BTreeNode>, hh: nat, lo: Option<BKey>, hi: Option<BKey>, j: int, c2: BTreeNode, m: BKey, r: BTreeNode, e: BEntry)
    requires
        internal_ok(keys0, cs0, hh, lo, hi),
        0 <= j < cs0.len(),
        c2.wf(hh, child_lo(keys0, lo, j), Some(m)),
        r.wf(hh, Some(m), child_hi(keys0, hi, j)),
        above(child_lo(keys0, lo, j), m),
        below(child_hi(keys0, hi, j), m),
        c2.entries_of(hh).len() > 0,
        r.entries_of(hh).len() > 0,
        same_key(r.entries_of(hh)[0].0, m),
        j >= 1 ==> same_key(c2.entries_of(hh)[0].0, keys0[j - 1]),
        (c2.entries_of(hh) + r.entries_of(hh)).to_multiset() == cs0[j].entries_of(hh).to_multiset().insert(e),
    ensures
        internal_ok(keys0.insert(j, m), cs0.update(j, c2).insert(j + 1, r), hh, lo, hi),
        all_entries(cs0.update(j, c2).insert(j + 1, r), hh).to_multiset() == all_entries(cs0, hh).to_multiset().insert(e),
        all_count(cs0.update(j, c2).insert(j + 1, r), hh) + cs0[j].node_count(hh) == all_count(cs0, hh) + c2.node_count(hh) + r.node_count(hh),
        all_entries(cs0.update(j, c2).insert(j + 1, r), hh).len() > 0,
        all_entries(cs0, hh).len() > 0,
        j > 0 ==> all_entries(cs0.update(j, c2).insert(j + 1, r), hh)[0] == all_entries(cs0, hh)[0],
        j == 0 ==> all_entries(cs0.update(j, c2).insert(j + 1, r), hh)[0] == c2.entries_of(hh)[0],
{
    let cs1 = cs0.update(j, c2).insert(j + 1, r);
    lemma_insert_child(keys0, cs0, hh, lo, hi, j, c2, m, r);
    lemma_all_count_around(cs0, hh, j);
    assert(cs1 =~= cs0.take(j) + seq![c2] + seq![r] + cs0.skip(j + 1));
    lemma_all_count_concat(cs0.take(j) + seq![c2] + seq![r], cs0.skip(j + 1), hh);
    lemma_all_count_concat(cs0.take(j) + seq![c2], seq![r], hh);
    lemma_all_count_concat(cs0.take(j), seq![c2], hh);
    lemma_all_count_single(c2, hh);
    lemma_all_count_single(r, hh);
    lemma_all_entries_around(cs0, hh, j);
    let pre = all_entries(cs0.take(j), hh);
    let post = all_entries(cs0.skip(j + 1), hh);
    lemma_multiset_concat3(pre, cs0[j].entries_of(hh), post);
    lemma_multiset_concat3(pre, c2.entries_of(hh) + r.entries_of(hh), post);
    vstd::seq_lib::lemma_multiset_commutative(c2.entries_of(hh), r.entries_of(hh));
    assert(pre + c2.entries_of(hh) + r.entries_of(hh) + post == pre + (c2.entries_of(hh) + r.entries_of(hh)) + post);
    lemma_all_entries_first(cs1, hh);
    lemma_all_entries_first(cs0, hh);
    if j > 0 {
        assert(cs1[0] == cs0[0]);
    } else {
        assert(cs1[0] == c2);
    }
}

/// An over-full node split at separator `mid` gives two well-formed nodes
/// with the same entries and one node more.
proof fn lemma_node_split(keys: Seq<BKey>, cs: Seq<BTreeNode>, ch: nat, lo: Option<BKey>, hi: Option<BKey>, mid: int)
    requires
        internal_ok(keys, cs, ch, lo, hi),
        1 <= mid < keys.len() - 1,
    ensures
        internal_ok(keys.take(mid), cs.take(mid + 1), ch, lo, Some(keys[mid])),
        internal_ok(keys.skip(mid + 1), cs.skip(mid + 1), ch, Some(keys[mid]), hi),
        above(lo, keys[mid]),
        below(hi, keys[mid]),
        all_entries(cs, ch) == all_entries(cs.take(mid + 1), ch) + all_entries(cs.skip(mid + 1), ch),
        all_entries(cs.skip(mid + 1), ch).len() > 0,
        same_key(all_entries(cs.skip(mid + 1), ch)[0].0, keys[mid]),
        all_entries(cs.take(mid + 1), ch).len() > 0,
        all_entries(cs.take(mid + 1), ch)[0] == all_entries(cs, ch)[0],
        all_count(cs, ch) == all_count(cs.take(mid + 1), ch) + all_count(cs.skip(mid + 1), ch),
{
    lemma_split_internal(keys, cs, ch, lo, hi, mid);
    assert(cs =~= cs.take(mid + 1) + cs.skip(mid + 1));
    lemma_all_count_concat(cs.take(mid + 1), cs.skip(mid + 1), ch);
}

/// Some entry of `s` has key `k`.
/// The TupleId of the first entry of `s` with key `k`, if any.
pub open spec fn first_match(s: Seq<BEntry>, k: BKey) -> Option<TupleId>
    decreases s.len(),
{
    if s.len() == 0 {
        None
    } else if same_key(s[0].0, k) {
        Some(s[0].1)
    } else {
        first_match(s.drop_first(), k)
    }
}

pub open spec fn has_key_in(s: Seq<BEntry>, k: BKey) -> bool {
    exists|i: int| 0 <= i < s.len() && same_key((#[trigger] s[i]).0, k)
}

/// The search for `key` goes to child `j` of a well-formed node: if the
/// node holds the key, so does that child, and the child's entries are
/// the node's.
proof fn lemma_search_child(keys: Seq<BKey>, cs: Seq<BTreeNode>, ch: nat, lo: Option<BKey>, hi: Option<BKey>, key: BKey, j: int)
    requires
        internal_ok(keys, cs, ch, lo, hi),
        0 <= j <= keys.len(),
        forall|i: int| 0 <= i < j ==> key_le(#[trigger] keys[i], key),
        j < keys.len() ==> key_lt(key, keys[j]),
    ensures
        has_key_in(all_entries(cs, ch), key) ==> has_key_in(cs[j].entries_of(ch), key),
        forall|x: BEntry| cs[j].entries_of(ch).contains(x) ==> #[trigger] all_entries(cs, ch).contains(x),
{
    lemma_all_entries_around(cs, ch, j);
    let pre = all_entries(cs.take(j), ch);
    let mine = cs[j].entries_of(ch);
    let post = all_entries(cs.skip(j + 1), ch);
    assert forall|x: BEntry| mine.contains(x) implies #[trigger] all_entries(cs, ch).contains(x) by {
        let i = choose|i: int| 0 <= i < mine.len() && mine[i] == x;
        assert((pre + mine + post)[pre.len() + i] == x);
    }
    if has_key_in(all_entries(cs, ch), key) {
        let all = all_entries(cs, ch);
        let i = choose|i: int| 0 <= i < all.len() && same_key((#[trigger] all[i]).0, key);
        if i < pre.len() {
            // The key lies in an earlier child: it is at most that child's
            // upper separator, hence equal to the separator before child
            // `j`, which is child `j`'s first key.
            let q = cs.take(j);
            assert(forall|t: int| 0 <= t < q.len() ==> q[t] == cs[t]);
            let kk = keys.take(j);
            assert(internal_ok(keys, cs, ch, lo, hi));
            lemma_prefix_below(keys, cs, ch, lo, hi, j);
            assert(all[i] == pre[i]);
            assert(key_le(key, keys[j - 1]));
            assert(same_key(key, keys[j - 1]));
            assert(same_key(mine[0].0, keys[j - 1]));
            assert(same_key(mine[0].0, key));
            assert(has_key_in(mine, key));
        } else if i >= pre.len() + mine.len() {
            lemma_suffix_above(keys, cs, ch, lo, hi, j);
            assert(all[i] == post[i - pre.len() - mine.len()]);
            assert(false);
        } else {
            assert(all[i] == mine[i - pre.len()]);
        }
    }
}

/// The entries of the children before `j` are at most the separator
/// before `j`.
proof fn lemma_prefix_below(keys: Seq<BKey>, cs: Seq<BTreeNode>, ch: nat, lo: Option<BKey>, hi: Option<BKey>, j: int)
    requires
        internal_ok(keys, cs, ch, lo, hi),
        1 <= j <= keys.len(),
    ensures
        forall|i: int| 0 <= i < all_entries(cs.take(j), ch).len() ==> key_le((#[trigger] all_entries(cs.take(j), ch)[i]).0, keys[j - 1]),
{
    lemma_children_sorted(keys, cs, ch, lo, hi, j);
    lemma_children_prefix(cs.take(j), cs, ch, j);
    assert(children_entries(cs.take(j), ch, j) == children_entries(cs, ch, j));
}

/// The entries of the children after `j` are at least the separator
/// after `j`.
proof fn lemma_suffix_above(keys: Seq<BKey>, cs: Seq<BTreeNode>, ch: nat, lo: Option<BKey>, hi: Option<BKey>, j: int)
    requires
        internal_ok(keys, cs, ch, lo, hi),
        0 <= j < keys.len(),
    ensures
        forall|i: int| 0 <= i < all_entries(cs.skip(j + 1), ch).len() ==> key_le(keys[j], (#[trigger] all_entries(cs.skip(j + 1), ch)[i]).0),
{
    let rk = keys.skip(j + 1);
    let rc = cs.skip(j + 1);
    assert forall|i: int| 0 <= i < rk.len() implies above(Some(keys[j]), #[trigger] rk[i]) && below(hi, rk[i]) by {
        assert(rk[i] == keys[j + 1 + i]);
    }
    assert forall|a: int, b: int| 0 <= a < b < rk.len() implies key_le(#[trigger] rk[a], #[trigger] rk[b]) by {
        assert(rk[a] == keys[j + 1 + a] && rk[b] == keys[j + 1 + b]);
    }
    assert forall|i: int| 0 <= i < rc.len() implies (#[trigger] rc[i]).wf(ch, child_lo(rk, Some(keys[j]), i), child_hi(rk, hi, i)) && rc[i].entries_of(ch).len() > 0 by {
        assert(rc[i] == cs[j + 1 + i]);
        assert(child_lo(rk, Some(keys[j]), i) == child_lo(keys, lo, j + 1 + i));
        assert(child_hi(rk, hi, i) == child_hi(keys, hi, j + 1 + i));
    }
    if rk.len() >= 1 {
        assert forall|i: int| 1 <= i < rc.len() implies same_key((#[trigger] rc[i]).entries_of(ch)[0].0, rk[i - 1]) by {
            assert(rc[i] == cs[j + 1 + i]);
        }
        assert(internal_ok(rk, rc, ch, Some(keys[j]), hi));
        lemma_children_sorted(rk, rc, ch, Some(keys[j]), hi, rc.len() as int);
    } else {
        // A single child after `j`: its entries are above its lower bound.
        assert(rc.len() == 1);
        assert(rc[0] == cs[j + 1]);
        lemma_wf_entries(rc[0], ch, child_lo(keys, lo, j + 1), child_hi(keys, hi, j + 1));
        lemma_all_entries_single(rc[0], ch);
        assert(rc =~= seq![rc[0]]);
    }
}

/// The first position from `i` whose separator exceeds `k`, or the
/// length: the child a search for `k` descends into.
pub open spec fn first_above(keys: Seq<BKey>, k: BKey, i: int) -> int
    decreases keys.len() - i,
{
    if i >= keys.len() || i < 0 {
        keys.len() as int
    } else if key_lt(k, keys[i]) {
        i
    } else {
        first_above(keys, k, i + 1)
    }
}

proof fn lemma_first_above(keys: Seq<BKey>, k: BKey, j: int, i: int)
    requires
        0 <= i <= j <= keys.len(),
        forall|t: int| 0 <= t < j ==> key_le(#[trigger] keys[t], k),
        j < keys.len() ==> key_lt(k, keys[j]),
    ensures
        first_above(keys, k, i) == j,
    decreases j - i,
{
    if i < j {
        lemma_first_above(keys, k, j, i + 1);
    }
}

/// What a range scan collects from `s`: entries below `start` are
/// skipped, the first entry above `end` stops it, the rest are kept. The
/// flag says whether it stopped.
pub open spec fn scan_seq(s: Seq<BEntry>, start: BKey, end: BKey) -> (Seq<BEntry>, bool)
    decreases s.len(),
{
    if s.len() == 0 {
        (Seq::empty(), false)
    } else if key_lt(s[0].0, start) {
        scan_seq(s.drop_first(), start, end)
    } else if key_lt(end, s[0].0) {
        (Seq::empty(), true)
    } else {
        (seq![s[0]] + scan_seq(s.drop_first(), start, end).0, scan_seq(s.drop_first(), start, end).1)
    }
}

/// Scanning two runs is scanning the first, then the second unless the
/// first stopped.
proof fn lemma_scan_concat(a: Seq<BEntry>, b: Seq<BEntry>, start: BKey, end: BKey)
    ensures
        scan_seq(a + b, start, end) == if scan_seq(a, start, end).1 {
            scan_seq(a, start, end)
        } else {
            (scan_seq(a, start, end).0 + scan_seq(b, start, end).0, scan_seq(b, start, end).1)
        },
    decreases a.len(),
{
    if a.len() == 0 {
        assert(a + b =~= b);
        assert(Seq::<BEntry>::empty() + scan_seq(b, start, end).0 =~= scan_seq(b, start, end).0);
    } else {
        lemma_scan_concat(a.drop_first(), b, start, end);
        assert((a + b).drop_first() =~= a.drop_first() + b);
        assert((a + b)[0] == a[0]);
        if !key_lt(a[0].0, start) && !key_lt(end, a[0].0) && !scan_seq(a, start, end).1 {
            assert(seq![a[0]] + scan_seq(a.drop_first(), start, end).0 + scan_seq(b, start, end).0 =~= seq![a[0]] + (
            scan_seq(a.drop_first(), start, end).0 + scan_seq(b, start, end).0));
        }
    }
}

impl BTreeNode {
    /// The entries a range scan from `start` walks: those of the leaf a
    /// search for `start` reaches, and of every leaf after it.
    pub closed spec fn from_descent(self, h: nat, start: BKey) -> Seq<BEntry>
        decreases h,
    {
        if h == 0 {
            self.entries@
        } else {
            let j = first_above(self.keys@, start, 0);
            if 0 <= j < self.children@.len() {
                self.children@[j].from_descent((h - 1) as nat, start) + all_entries(self.children@.skip(j + 1), (h - 1) as nat)
            } else {
                Seq::empty()
            }
        }
    }

    /// The entries of the leaf a search for `k` reaches from this node of
    /// height `h`.
    pub closed spec fn leaf_of(self, h: nat, k: BKey) -> Seq<BEntry>
        decreases h,
    {
        if h == 0 {
            self.entries@
        } else {
            let j = first_above(self.keys@, k, 0);
            if 0 <= j < self.children@.len() {
                self.children@[j].leaf_of((h - 1) as nat, k)
            } else {
                Seq::empty()
            }
        }
    }

    /// The TupleId of the first entry with `key` in the leaf reached by
    /// descending from this node of height `h`, with the comparisons made
    /// added to `comparisons` (saturating).
    fn search(&self, key: BKey, comparisons: &mut usize, Ghost(h): Ghost<nat>, Ghost(lo): Ghost<Option<BKey>>, Ghost(hi): Ghost<Option<BKey>>) -> (r: Option<TupleId>)
        requires
            self.wf(h, lo, hi),
        ensures
            r == first_match(self.leaf_of(h, key), key),
            match r {
                Some(t) => exists|x: BEntry| #[trigger] self.entries_of(h).contains(x) && same_key(x.0, key) && x.1 == t,
                None => !has_key_in(self.entries_of(h), key),
            },
        decreases h,
    {
        if self.is_leaf {
            proof {
                if h > 0 {
                    assert(!self.is_leaf);
                }
            }
            let mut i: usize = 0;
            proof {
                assert(self.entries@.skip(0) =~= self.entries@);
            }
            while i < self.entries.len()
                invariant
                    h == 0,
                    self.entries_of(h) == self.entries@,
                    self.leaf_of(h, key) == self.entries@,
                    0 <= i <= self.entries@.len(),
                    forall|t: int| 0 <= t < i ==> !same_key((#[trigger] self.entries@[t]).0, key),
                    first_match(self.entries@, key) == first_match(self.entries@.skip(i as int), key),
                decreases self.entries@.len() - i,
            {
                *comparisons = comparisons.saturating_add(1);
                proof {
                    assert(self.entries@.skip(i as int)[0] == self.entries@[i as int]);
                    assert(self.entries@.skip(i as int).drop_first() =~= self.entries@.skip(i as int + 1));
                }
                if key_same(&self.entries[i].0, &key) {
                    proof {
                        assert(self.entries@.contains(self.entries@[i as int]));
                    }
                    return Some(self.entries[i].1);
                }
                i = i + 1;
            }
            proof {
                assert(self.entries@.skip(i as int) =~= Seq::<BEntry>::empty());
            }
            return None;
        }
        proof {
            if h == 0 {
                assert(self.is_leaf);
            }
            assert(internal_ok(self.keys@, self.children@, (h - 1) as nat, lo, hi));
        }
        let j = descend_index(&self.keys, copy_key(&key));
        *comparisons = comparisons.saturating_add(if j < self.keys.len() { j + 1 } else { j });
        proof {
            lemma_search_child(self.keys@, self.children@, (h - 1) as nat, lo, hi, key, j as int);
            lemma_entries_of_internal(*self, h);
            lemma_first_above(self.keys@, key, j as int, 0);
        }
        let r = self.children[j].search(key, comparisons, Ghost((h - 1) as nat), Ghost(child_lo(self.keys@, lo, j as int)), Ghost(child_hi(self.keys@, hi, j as int)));
        proof {
            if r is Some {
                let t = r->0;
                let x = choose|x: BEntry| #[trigger] self.children@[j as int].entries_of((h - 1) as nat).contains(x) && same_key(x.0, key) && x.1 == t;
                assert(self.entries_of(h).contains(x));
            }
        }
        r
    }

    /// Appends to `out` what a range scan collects from all entries of this
    /// node of height `h`; true when the scan stopped.
    fn scan_all(&self, start: BKey, end: BKey, out: &mut Vec<BEntry>, comparisons: &mut usize, Ghost(h): Ghost<nat>, Ghost(lo): Ghost<Option<BKey>>, Ghost(hi): Ghost<Option<BKey>>) -> (stopped: bool)
        requires
            self.wf(h, lo, hi),
        ensures
            final(out)@ == old(out)@ + scan_seq(self.entries_of(h), start, end).0,
            stopped == scan_seq(self.entries_of(h), start, end).1,
        decreases h, 0int,
    {
        if self.is_leaf {
            proof {
                if h > 0 {
                    assert(!self.is_leaf);
                }
            }
            return scan_leaf(&self.entries, copy_key(&start), copy_key(&end), out, comparisons);
        }
        proof {
            if h == 0 {
                assert(self.is_leaf);
            }
            assert(internal_ok(self.keys@, self.children@, (h - 1) as nat, lo, hi));
            lemma_entries_of_internal(*self, h);
        }
        let ghost hh = (h - 1) as nat;
        let ghost cs = self.children@;
        let ghost out0 = out@;
        let mut c: usize = 0;
        proof {
            assert(cs.take(0) =~= Seq::<BTreeNode>::empty());
            assert(all_entries(cs.take(0), hh) =~= Seq::<BEntry>::empty());
            assert(out@ =~= out0 + Seq::<BEntry>::empty());
        }
        while c < self.children.len()
            invariant
                cs == self.children@,
                out0 == old(out)@,
                h > 0,
                hh == h - 1,
                self.entries_of(h) == all_entries(cs, hh),
                internal_ok(self.keys@, cs, hh, lo, hi),
                0 <= c <= cs.len(),
                out@ == out0 + scan_seq(all_entries(cs.take(c as int), hh), start, end).0,
                !scan_seq(all_entries(cs.take(c as int), hh), start, end).1,
            decreases cs.len() - c,
        {
            let ghost before = out@;
            let stopped = self.children[c].scan_all(copy_key(&start), copy_key(&end), out, comparisons, Ghost(hh), Ghost(child_lo(self.keys@, lo, c as int)), Ghost(child_hi(self.keys@, hi, c as int)));
            proof {
                assert(cs.take(c as int + 1) =~= cs.take(c as int) + seq![cs[c as int]]);
                lemma_all_entries_concat(cs.take(c as int), seq![cs[c as int]], hh);
                lemma_all_entries_single(cs[c as int], hh);
                lemma_scan_concat(all_entries(cs.take(c as int), hh), cs[c as int].entries_of(hh), start, end);
            }
            if stopped {
                proof {
                    let a = scan_seq(all_entries(cs.take(c as int), hh), start, end).0;
                    let b = scan_seq(cs[c as int].entries_of(hh), start, end).0;
                    assert(out@ == before + b);
                    assert(out0 + a + b =~= out0 + (a + b));
                    assert(all_entries(cs.take(c as int + 1), hh) == all_entries(cs.take(c as int), hh) + cs[c as int].entries_of(hh));
                    assert(scan_seq(all_entries(cs.take(c as int + 1), hh), start, end) == (a + b, true));
                    assert(cs.take(c as int + 1) + cs.skip(c as int + 1) =~= cs);
                    lemma_all_entries_concat(cs.take(c as int + 1), cs.skip(c as int + 1), hh);
                    lemma_scan_concat(all_entries(cs.take(c as int + 1), hh), all_entries(cs.skip(c as int + 1), hh), start, end);
                    assert(scan_seq(all_entries(cs, hh), start, end).0 == a + b);
                }
                return true;
            }
            proof {
                let a = scan_seq(all_entries(cs.take(c as int), hh), start, end).0;
                let b = scan_seq(cs[c as int].entries_of(hh), start, end).0;
                assert(out0 + a + b =~= out0 + (a + b));
            }
            c = c + 1;
        }
        proof {
            assert(cs.take(c as int) =~= cs);
        }
        false
    }
}

impl BTreeNode {
    /// Appends to `out` what a range scan from `start` to `end` collects
    /// below this node of height `h`: it descends to the leaf a search for
    /// `start` reaches and walks on through the leaves after it. True when
    /// the scan stopped.
    fn scan_from(&self, start: BKey, end: BKey, out: &mut Vec<BEntry>, comparisons: &mut usize, Ghost(h): Ghost<nat>, Ghost(lo): Ghost<Option<BKey>>, Ghost(hi): Ghost<Option<BKey>>) -> (stopped: bool)
        requires
            self.wf(h, lo, hi),
        ensures
            final(out)@ == old(out)@ + scan_seq(self.from_descent(h, start), start, end).0,
            stopped == scan_seq(self.from_descent(h, start), start, end).1,
        decreases h, 1int,
    {
        if self.is_leaf {
            proof {
                if h > 0 {
                    assert(!self.is_leaf);
                }
            }
            return scan_leaf(&self.entries, copy_key(&start), copy_key(&end), out, comparisons);
        }
        proof {
            if h == 0 {
                assert(self.is_leaf);
            }
            assert(internal_ok(self.keys@, self.children@, (h - 1) as nat, lo, hi));
        }
        let ghost hh = (h - 1) as nat;
        let ghost cs = self.children@;
        let ghost out0 = out@;
        let j = descend_index(&self.keys, copy_key(&start));
        *comparisons = comparisons.saturating_add(if j < self.keys.len() { j + 1 } else { j });
        proof {
            lemma_first_above(self.keys@, start, j as int, 0);
        }
        let ghost first = cs[j as int].from_descent(hh, start);
        let ghost rest = all_entries(cs.skip(j as int + 1), hh);
        assert(self.from_descent(h, start) == first + rest);
        let stopped = self.children[j].scan_from(copy_key(&start), copy_key(&end), out, comparisons, Ghost(hh), Ghost(child_lo(self.keys@, lo, j as int)), Ghost(child_hi(self.keys@, hi, j as int)));
        proof {
            lemma_scan_concat(first, rest, start, end);
        }
        if stopped {
            return true;
        }
        let nc = self.children.len();
        proof {
            assert(j < nc);
        }
        let mut c: usize = j + 1;
        proof {
            assert(cs.subrange(j as int + 1, c as int) =~= Seq::<BTreeNode>::empty());
            assert(all_entries(cs.subrange(j as int + 1, c as int), hh) =~= Seq::<BEntry>::empty());
            assert(first + Seq::<BEntry>::empty() =~= first);
        }
        while c < self.children.len()
            invariant
                cs == self.children@,
                out0 == old(out)@,
                h > 0,
                hh == h - 1,
                internal_ok(self.keys@, cs, hh, lo, hi),
                j < c <= cs.len(),
                self.from_descent(h, start) == first + rest,
                rest == all_entries(cs.skip(j as int + 1), hh),
                out@ == out0 + scan_seq(first + all_entries(cs.subrange(j as int + 1, c as int), hh), start, end).0,
                !scan_seq(first + all_entries(cs.subrange(j as int + 1, c as int), hh), start, end).1,
            decreases cs.len() - c,
        {
            let ghost before = out@;
            let ghost done = first + all_entries(cs.subrange(j as int + 1, c as int), hh);
            let stopped = self.children[c].scan_all(copy_key(&start), copy_key(&end), out, comparisons, Ghost(hh), Ghost(child_lo(self.keys@, lo, c as int)), Ghost(child_hi(self.keys@, hi, c as int)));
            proof {
                let sub = cs.subrange(j as int + 1, c as int);
                assert(cs.subrange(j as int + 1, c as int + 1) =~= sub + seq![cs[c as int]]);
                lemma_all_entries_concat(sub, seq![cs[c as int]], hh);
                lemma_all_entries_single(cs[c as int], hh);
                assert(first + all_entries(cs.subrange(j as int + 1, c as int + 1), hh) =~= done + cs[c as int].entries_of(hh));
                lemma_scan_concat(done, cs[c as int].entries_of(hh), start, end);
                let a = scan_seq(done, start, end).0;
                let b = scan_seq(cs[c as int].entries_of(hh), start, end).0;
                assert(out0 + a + b =~= out0 + (a + b));
            }
            if stopped {
                proof {
                    let upto = cs.subrange(j as int + 1, c as int + 1);
                    let after = cs.subrange(c as int + 1, cs.len() as int);
                    assert(cs.skip(j as int + 1) =~= upto + after);
                    lemma_all_entries_concat(upto, after, hh);
                    assert(first + rest =~= (first + all_entries(upto, hh)) + all_entries(after, hh));
                    lemma_scan_concat(first + all_entries(upto, hh), all_entries(after, hh), start, end);
                }
                return true;
            }
            c = c + 1;
        }
        proof {
            assert(cs.subrange(j as int + 1, c as int) =~= cs.skip(j as int + 1));
        }
        false
    }
}

/// Appends to `out` what a range scan collects from a leaf's entries; true
/// when the scan stopped.
fn scan_leaf(entries: &Vec<BEntry>, start: BKey, end: BKey, out: &mut Vec<BEntry>, comparisons: &mut usize) -> (stopped: bool)
    ensures
        final(out)@ == old(out)@ + scan_seq(entries@, start, end).0,
        stopped == scan_seq(entries@, start, end).1,
{
    let ghost out0 = out@;
    let mut i: usize = 0;
    proof {
        assert(entries@.take(0) =~= Seq::<BEntry>::empty());
        assert(out@ =~= out0 + Seq::<BEntry>::empty());
    }
    while i < entries.len()
        invariant
            out0 == old(out)@,
            0 <= i <= entries@.len(),
            !scan_seq(entries@.take(i as int), start, end).1,
            out@ == out0 + scan_seq(entries@.take(i as int), start, end).0,
        decreases entries@.len() - i,
    {
        let e = (copy_key(&entries[i].0), entries[i].1);
        *comparisons = comparisons.saturating_add(1);
        let ghost pre = entries@.take(i as int);
        proof {
            assert(entries@.take(i as int + 1) =~= pre + seq![e]);
            lemma_scan_concat(pre, seq![e], start, end);
            assert(seq![e][0] == e);
            assert(seq![e].drop_first() =~= Seq::<BEntry>::empty());
        }
        if key_less(&e.0, &start) {
            proof {
                assert(scan_seq(seq![e].drop_first(), start, end) == (Seq::<BEntry>::empty(), false));
                assert(scan_seq(seq![e], start, end) == (Seq::<BEntry>::empty(), false));
                assert(scan_seq(pre, start, end).0 + Seq::<BEntry>::empty() =~= scan_seq(pre, start, end).0);
            }
            i = i + 1;
            continue;
        }
        if key_less(&end, &e.0) {
            proof {
                assert(scan_seq(seq![e], start, end) == (Seq::<BEntry>::empty(), true));
                assert(scan_seq(pre, start, end).0 + Seq::<BEntry>::empty() =~= scan_seq(pre, start, end).0);
                let t = entries@.take(i as int + 1);
                assert(t + entries@.skip(i as int + 1) =~= entries@);
                lemma_scan_concat(t, entries@.skip(i as int + 1), start, end);
            }
            return true;
        }
        out.push(e);
        proof {
            assert(scan_seq(seq![e].drop_first(), start, end) == (Seq::<BEntry>::empty(), false));
            assert(seq![e] + Seq::<BEntry>::empty() =~= seq![e]);
            assert(scan_seq(seq![e], start, end) == (seq![e], false));
            assert(out@ =~= out0 + scan_seq(entries@.take(i as int + 1), start, end).0);
        }
        i = i + 1;
    }
    proof {
        assert(entries@.take(i as int) =~= entries@);
    }
    false
}

/// A well-formed node of height `h` has at least `2h + 1` nodes: every
/// internal node has two children or more.
proof fn lemma_node_count_lower(n: BTreeNode, h: nat, lo: Option<BKey>, hi: Option<BKey>)
    requires
        n.wf(h, lo, hi),
    ensures
        n.node_count(h) >= 2 * h + 1,
    decreases h,
{
    if h > 0 {
        let cs = n.children@;
        let hh = (h - 1) as nat;
        assert(internal_ok(n.keys@, cs, hh, lo, hi));
        lemma_node_count_lower(cs[0], hh, child_lo(n.keys@, lo, 0), child_hi(n.keys@, hi, 0));
        lemma_node_count_lower(cs[1], hh, child_lo(n.keys@, lo, 1), child_hi(n.keys@, hi, 1));
        lemma_all_count_around(cs, hh, 0);
        lemma_all_count_around(cs.skip(1), hh, 0);
        assert(cs.skip(1)[0] == cs[1]);
        assert(cs.skip(1).skip(1) =~= cs.skip(2));
        assert(cs.take(0) =~= Seq::<BTreeNode>::empty());
    }
}

impl BTreeNode {
    /// The height of this node: the number of steps down its first
    /// children to a leaf.
    fn height_below(&self, Ghost(h): Ghost<nat>, Ghost(lo): Ghost<Option<BKey>>, Ghost(hi): Ghost<Option<BKey>>) -> (r: usize)
        requires
            self.wf(h, lo, hi),
            h <= usize::MAX,
        ensures
            r == h,
        decreases h,
    {
        if self.is_leaf {
            proof {
                if h > 0 {
                    assert(!self.is_leaf);
                }
            }
            0
        } else {
            proof {
                if h == 0 {
                    assert(self.is_leaf);
                }
                assert(internal_ok(self.keys@, self.children@, (h - 1) as nat, lo, hi));
            }
            1 + self.children[0].height_below(Ghost((h - 1) as nat), Ghost(child_lo(self.keys@, lo, 0)), Ghost(child_hi(self.keys@, hi, 0)))
        }
    }
}

impl BTreeNode {
    /// The entries before those a range scan from `start` walks.
    pub closed spec fn before_descent(self, h: nat, start: BKey) -> Seq<BEntry>
        decreases h,
    {
        if h == 0 {
            Seq::empty()
        } else {
            let j = first_above(self.keys@, start, 0);
            if 0 <= j < self.children@.len() {
                all_entries(self.children@.take(j), (h - 1) as nat) + self.children@[j].before_descent((h - 1) as nat, start)
            } else {
                Seq::empty()
            }
        }
    }
}

/// No two entries share a key.
pub open spec fn keys_distinct(s: Seq<BEntry>) -> bool {
    forall|i: int, j: int| 0 <= i < j < s.len() ==> !same_key((#[trigger] s[i]).0, (#[trigger] s[j]).0)
}

/// The entries with keys from `start` to `end`.
pub open spec fn in_range(start: BKey, end: BKey) -> spec_fn(BEntry) -> bool {
    |e: BEntry| key_le(start, e.0) && key_le(e.0, end)
}

/// A node's entries are those before the range scan's walk, then those of
/// the walk; with distinct keys, those before are all below `start`.
proof fn lemma_descent_split(n: BTreeNode, h: nat, lo: Option<BKey>, hi: Option<BKey>, start: BKey)
    requires
        n.wf(h, lo, hi),
    ensures
        n.entries_of(h) == n.before_descent(h, start) + n.from_descent(h, start),
        keys_distinct(n.entries_of(h)) ==> forall|i: int| 0 <= i < n.before_descent(h, start).len() ==> key_lt((#[trigger] n.before_descent(h, start)[i]).0, start),
    decreases h,
{
    if h == 0 {
        assert(n.entries_of(0) =~= Seq::<BEntry>::empty() + n.entries@);
    } else {
        let hh = (h - 1) as nat;
        let keys = n.keys@;
        let cs = n.children@;
        assert(internal_ok(keys, cs, hh, lo, hi));
        let j = first_above(keys, start, 0);
        lemma_first_above_props(keys, start, 0);
        let c = cs[j];
        lemma_descent_split(c, hh, child_lo(keys, lo, j), child_hi(keys, hi, j), start);
        lemma_all_entries_around(cs, hh, j);
        lemma_entries_of_internal(n, h);
        let pre = all_entries(cs.take(j), hh);
        let post = all_entries(cs.skip(j + 1), hh);
        assert(n.entries_of(h) == pre + c.entries_of(hh) + post);
        assert(n.before_descent(h, start) == pre + c.before_descent(hh, start));
        assert(n.from_descent(h, start) == c.from_descent(hh, start) + post);
        assert(pre + (c.before_descent(hh, start) + c.from_descent(hh, start)) + post =~= (pre + c.before_descent(hh, start)) + (c.from_descent(hh, start) + post));
        if keys_distinct(n.entries_of(h)) {
            let all = n.entries_of(h);
            let ce = c.entries_of(hh);
            assert(keys_distinct(ce)) by {
                assert forall|a: int, b: int| 0 <= a < b < ce.len() implies !same_key((#[trigger] ce[a]).0, (#[trigger] ce[b]).0) by {
                    assert(all[pre.len() as int + a] == ce[a] && all[pre.len() as int + b] == ce[b]);
                }
            }
            let bd = n.before_descent(h, start);
            assert forall|i: int| 0 <= i < bd.len() implies key_lt((#[trigger] bd[i]).0, start) by {
                if i < pre.len() {
                    lemma_prefix_below(keys, cs, hh, lo, hi, j);
                    assert(bd[i] == pre[i]);
                    assert(key_le(pre[i].0, keys[j - 1]));
                    assert(key_le(keys[j - 1], start));
                    if !key_lt(pre[i].0, start) {
                        // Child `j` starts with the separator before it,
                        // which would repeat this key.
                        assert(same_key(pre[i].0, start));
                        assert(same_key(keys[j - 1], start));
                        assert(same_key(ce[0].0, keys[j - 1]));
                        assert(same_key(pre[i].0, ce[0].0));
                        assert(all[i] == pre[i]);
                        assert(all[pre.len() as int] == ce[0]);
                        assert(!same_key(all[i].0, all[pre.len() as int].0));
                    }
                } else {
                    assert(bd[i] == c.before_descent(hh, start)[i - pre.len()]);
                }
            }
        }
    }
}

proof fn lemma_first_above_props(keys: Seq<BKey>, k: BKey, i: int)
    requires
        0 <= i <= keys.len(),
    ensures
        i <= first_above(keys, k, i) <= keys.len(),
        forall|t: int| i <= t < first_above(keys, k, i) ==> key_le(#[trigger] keys[t], k),
        first_above(keys, k, i) < keys.len() ==> key_lt(k, keys[first_above(keys, k, i)]),
    decreases keys.len() - i,
{
    if i < keys.len() && !key_lt(k, keys[i]) {
        lemma_first_above_props(keys, k, i + 1);
    }
}

/// Over sorted entries, a range scan keeps exactly the entries in range.
proof fn lemma_scan_sorted(s: Seq<BEntry>, start: BKey, end: BKey)
    requires
        entries_sorted(s),
    ensures
        scan_seq(s, start, end).0 == s.filter(in_range(start, end)),
    decreases s.len(),
{
    let p = in_range(start, end);
    if s.len() == 0 {
        assert(s.filter(p) =~= Seq::<BEntry>::empty()) by {
            reveal(Seq::filter);
        }
    } else {
        let t = s.drop_first();
        assert(entries_sorted(t)) by {
            assert forall|a: int, b: int| 0 <= a < b < t.len() implies key_le((#[trigger] t[a]).0, (#[trigger] t[b]).0) by {
                assert(t[a] == s[a + 1] && t[b] == s[b + 1]);
            }
        }
        lemma_scan_sorted(t, start, end);
        assert(s =~= seq![s[0]] + t);
        Seq::filter_distributes_over_add(seq![s[0]], t, p);
        assert(seq![s[0]] =~= Seq::<BEntry>::empty().push(s[0]));
        Seq::<BEntry>::empty().lemma_filter_push(s[0], p);
        assert(Seq::<BEntry>::empty().filter(p) =~= Seq::<BEntry>::empty()) by {
            reveal(Seq::filter);
        }
        if key_lt(end, s[0].0) {
            assert forall|i: int| 0 <= i < t.len() implies !p(t[i]) by {
                assert(t[i] == s[i + 1]);
                assert(key_le(s[0].0, s[i + 1].0));
            }
            assert(t.filter(p) =~= Seq::<BEntry>::empty()) by {
                lemma_filter_none(t, p);
            }
            assert(s.filter(p) =~= Seq::<BEntry>::empty());
        } else if key_lt(s[0].0, start) {
            assert(s.filter(p) =~= t.filter(p));
        } else {
            assert(s.filter(p) =~= seq![s[0]] + t.filter(p));
        }
    }
}

proof fn lemma_filter_none(s: Seq<BEntry>, p: spec_fn(BEntry) -> bool)
    requires
        forall|i: int| 0 <= i < s.len() ==> !p(#[trigger] s[i]),
    ensures
        s.filter(p) == Seq::<BEntry>::empty(),
    decreases s.len(),
{
    reveal(Seq::filter);
    if s.len() > 0 {
        lemma_filter_none(s.drop_last(), p);
        assert(s.filter(p) =~= Seq::<BEntry>::empty());
    } else {
        assert(s.filter(p) =~= Seq::<BEntry>::empty());
    }
}

/// A B+-tree index from integer keys to TupleIds.
pub struct BTreeIndexBlock {
    metadata: BlockMetadata,
    input_ports: Vec<Port>,
    output_ports: Vec<Port>,
    metric_defs: Vec<MetricDefinition>,
    fanout: usize,
    key_column: String,
    unique: bool,
    root: BTreeNode,
    height: Ghost<nat>,
    total_keys: usize,
    split_count: usize,
    comparison_count: usize,
}

impl BTreeIndexBlock {
    /// The indexed entries, in key order.
    pub closed spec fn entries(&self) -> Seq<BEntry> {
        self.root.entries_of(self.height@)
    }

    /// The number of levels below the root.
    pub closed spec fn spec_height(&self) -> nat {
        self.height@
    }

    /// The number of nodes in the tree.
    pub closed spec fn spec_node_count(&self) -> nat {
        self.root.node_count(self.height@)
    }

    /// What a range scan from `start` to `end` returns: the entries of the
    /// leaf a search for `start` reaches and of the leaves after it, less
    /// those below `start`, up to the first above `end`.
    pub closed spec fn range_result(&self, start: BKey, end: BKey) -> Seq<BEntry> {
        scan_seq(self.root.from_descent(self.height@, start), start, end).0
    }

    pub closed spec fn spec_fanout(&self) -> usize {
        self.fanout
    }

    pub closed spec fn spec_unique(&self) -> bool {
        self.unique
    }

    pub closed spec fn spec_key_column(&self) -> Seq<char> {
        self.key_column@
    }

    pub closed spec fn spec_total_keys(&self) -> usize {
        self.total_keys
    }

    pub closed spec fn spec_split_count(&self) -> usize {
        self.split_count
    }

    /// The tree is a well-formed B+-tree; the fanout is at least 3; and
    /// every split counted added one node to the single starting leaf.
    pub closed spec fn wf(&self) -> bool {
        &&& self.root.wf(self.height@, None, None)
        &&& self.fanout >= 3
        &&& self.split_count + 1 == self.root.node_count(self.height@)
    }

    pub fn new() -> (t: Self)
        ensures
            t.wf(),
            t.entries() == Seq::<BEntry>::empty(),
            t.spec_height() == 0,
            t.spec_fanout() == 128,
            !t.spec_unique(),
            t.spec_key_column() == "id"@,
            t.spec_total_keys() == 0,
            t.spec_split_count() == 0,
            t.spec_metadata().id@ == "btree-index"@,
            t.spec_metadata().category == BlockCategory::Index,
    {
        let t = Self {
            metadata: Self::build_metadata(),
            input_ports: Self::build_inputs(),
            output_ports: Self::build_outputs(),
            metric_defs: Self::build_metrics(),
            fanout: 128,
            key_column: String::from_str("id"),
            unique: false,
            root: BTreeNode::empty_leaf(),
            height: Ghost(0),
            total_keys: 0,
            split_count: 0,
            comparison_count: 0,
        };
        proof {
            assert(t.root.wf(0, None, None));
            assert(t.root.node_count(0) == 1);
        }
        t
    }

    /// The number of levels, leaves included.
    pub fn depth(&self) -> (d: usize)
        requires
            self.wf(),
        ensures
            d == self.spec_height() + 1,
    {
        proof {
            lemma_node_count_lower(self.root, self.height@, None, None);
        }
        self.root.height_below(Ghost(self.height@), Ghost(None), Ghost(None)) + 1
    }

    /// The entries of the leaf a search for `k` reaches.
    pub closed spec fn lookup_leaf(&self, k: BKey) -> Seq<BEntry> {
        self.root.leaf_of(self.height@, k)
    }

    /// The TupleId of the first entry with `key` in the leaf a search for
    /// `key` reaches; `None` exactly when the index holds no entry with
    /// `key`.
    pub fn lookup(&mut self, key: &BKey) -> (r: Option<TupleId>)
        requires
            old(self).wf(),
        ensures
            final(self).wf(),
            r == first_match(old(self).lookup_leaf(*key), *key),
            match r {
                Some(t) => exists|x: BEntry| #[trigger] old(self).entries().contains(x) && same_key(x.0, *key) && x.1 == t,
                None => !has_key_in(old(self).entries(), *key),
            },
            final(self).entries() == old(self).entries(),
            final(self).spec_height() == old(self).spec_height(),
            final(self).spec_total_keys() == old(self).spec_total_keys(),
            final(self).spec_split_count() == old(self).spec_split_count(),
            final(self).spec_fanout() == old(self).spec_fanout(),
            final(self).spec_unique() == old(self).spec_unique(),
    {
        let r = self.root.search(copy_key(key), &mut self.comparison_count, Ghost(self.height@), Ghost(None), Ghost(None));
        proof {
            if r is Some {
                let t = r->0;
                let x = choose|x: BEntry| #[trigger] old(self).root.entries_of(old(self).height@).contains(x) && same_key(x.0, *key) && x.1 == t;
                assert(old(self).entries().contains(x));
            }
        }
        r
    }

    /// Every entry from the leaf a search for `start` reaches onward with
    /// `start <= key <= end`, in key order, stopping at the first key
    /// above `end`.
    pub fn range_scan(&mut self, start: &BKey, end: &BKey) -> (r: Vec<BEntry>)
        requires
            old(self).wf(),
        ensures
            final(self).wf(),
            r@ == old(self).range_result(*start, *end),
            final(self).entries() == old(self).entries(),
            final(self).spec_height() == old(self).spec_height(),
            final(self).spec_total_keys() == old(self).spec_total_keys(),
            final(self).spec_split_count() == old(self).spec_split_count(),
    {
        let mut out: Vec<BEntry> = Vec::new();
        let ghost empty = out@;
        self.root.scan_from(copy_key(start), copy_key(end), &mut out, &mut self.comparison_count, Ghost(self.height@), Ghost(None), Ghost(None));
        proof {
            assert(empty + self.range_result(*start, *end) =~= self.range_result(*start, *end));
        }
        out
    }

    /// Adds an entry for `key`. Where keys must be unique and `key` is
    /// indexed already, the entry is refused and nothing changes.
    pub fn insert_key(&mut self, key: BKey, tuple_id: TupleId) -> (r: Result<(), String>)
        requires
            old(self).wf(),
            old(self).spec_total_keys() < usize::MAX,
            old(self).spec_split_count() + old(self).spec_height() + 2 <= usize::MAX,
        ensures
            final(self).wf(),
            r is Err <==> old(self).spec_unique() && has_key_in(old(self).entries(), key),
            match r {
                Err(msg) => {
                    &&& msg@ == "Duplicate key: "@ + key_json_text(key)
                    &&& final(self).entries() == old(self).entries()
                    &&& final(self).spec_total_keys() == old(self).spec_total_keys()
                    &&& final(self).spec_split_count() == old(self).spec_split_count()
                    &&& final(self).spec_height() == old(self).spec_height()
                },
                Ok(()) => {
                    &&& final(self).entries().to_multiset() == old(self).entries().to_multiset().insert((key, tuple_id))
                    &&& final(self).spec_total_keys() == old(self).spec_total_keys() + 1
                    &&& old(self).spec_height() <= final(self).spec_height() <= old(self).spec_height() + 1
                    &&& final(self).spec_split_count() <= old(self).spec_split_count() + old(self).spec_height() + 2
                },
            },
            final(self).spec_fanout() == old(self).spec_fanout(),
            final(self).spec_unique() == old(self).spec_unique(),
    {
        if self.unique {
            if self.lookup(&key).is_some() {
                let msg = String::from_str("Duplicate key: ").concat(key_display(&key).as_str());
                return Err(msg);
            }
        }
        let ghost h = self.height@;
        let ghost old_root = self.root;
        proof {
            lemma_node_count_lower(self.root, h, None, None);
        }
        let res = self.root.insert_rec(key, tuple_id, self.fanout, &mut self.split_count, &mut self.comparison_count, Ghost(h), Ghost(None), Ghost(None));
        match res {
            Some((m, right)) => {
                let mut left = BTreeNode::empty_leaf();
                core::mem::swap(&mut left, &mut self.root);
                let ghost l = left;
                let ghost r = right;
                self.root = BTreeNode { is_leaf: false, keys: vec![m], children: vec![left, right], entries: Vec::new() };
                self.height = Ghost(h + 1);
                self.split_count = self.split_count + 1;
                proof {
                    let cs = self.root.children@;
                    assert(cs == seq![l, r]);
                    assert(self.root.keys@ == seq![m]);
                    assert(cs[0] == l && cs[1] == r);
                    assert(internal_ok(seq![m], cs, h, None, None));
                    assert(cs =~= seq![l] + seq![r]);
                    lemma_all_entries_concat(seq![l], seq![r], h);
                    lemma_all_entries_single(l, h);
                    lemma_all_entries_single(r, h);
                    lemma_all_count_concat(seq![l], seq![r], h);
                    lemma_all_count_single(l, h);
                    lemma_all_count_single(r, h);
                    lemma_entries_of_internal(self.root, h + 1);
                    assert(self.root.node_count(h + 1) == 1 + all_count(cs, h));
                }
            },
            None => {},
        }
        self.total_keys = self.total_keys + 1;
        Ok(())
    }

    /// The indexed entries are in key order.
    pub proof fn lemma_entries_sorted(&self)
        requires
            self.wf(),
        ensures
            entries_sorted(self.entries()),
    {
        lemma_wf_entries(self.root, self.height@, None, None);
    }

    /// Every split counted added exactly one node to the starting leaf.
    pub proof fn lemma_splits_are_nodes(&self)
        requires
            self.wf(),
        ensures
            self.spec_split_count() + 1 == self.spec_node_count(),
    {
    }

    /// Where no two entries share a key, a range scan returns exactly the
    /// entries with keys from `start` to `end`, in key order.
    pub proof fn lemma_range_scan_exact(&self, start: BKey, end: BKey)
        requires
            self.wf(),
            keys_distinct(self.entries()),
        ensures
            self.range_result(start, end) == self.entries().filter(in_range(start, end)),
    {
        let h = self.height@;
        let n = self.root;
        lemma_descent_split(n, h, None, None, start);
        lemma_wf_entries(n, h, None, None);
        let before = n.before_descent(h, start);
        let from = n.from_descent(h, start);
        let all = n.entries_of(h);
        assert(entries_sorted(from)) by {
            assert forall|a: int, b: int| 0 <= a < b < from.len() implies key_le((#[trigger] from[a]).0, (#[trigger] from[b]).0) by {
                assert(all[before.len() + a] == from[a] && all[before.len() + b] == from[b]);
            }
        }
        lemma_scan_sorted(from, start, end);
        Seq::filter_distributes_over_add(before, from, in_range(start, end));
        assert forall|i: int| 0 <= i < before.len() implies !in_range(start, end)(#[trigger] before[i]) by {}
        lemma_filter_none(before, in_range(start, end));
        assert(Seq::<BEntry>::empty() + from.filter(in_range(start, end)) =~= from.filter(in_range(start, end)));
    }

    /// Sets the fanout; outside 3 ..= 1024 it is refused.
    pub fn set_fanout(&mut self, fanout: usize) -> (r: Result<(), BlockError>)
        requires
            old(self).wf(),
        ensures
            final(self).wf(),
            r is Ok <==> 3 <= fanout <= 1024,
            final(self).spec_fanout() == if r is Ok {
                fanout
            } else {
                old(self).spec_fanout()
            },
            final(self).entries() == old(self).entries(),
            final(self).spec_unique() == old(self).spec_unique(),
            final(self).spec_total_keys() == old(self).spec_total_keys(),
    {
        if fanout < 3 || fanout > 1024 {
            return Err(BlockError::InvalidParameter(String::from_str("fanout must be between 3 and 1024")));
        }
        self.fanout = fanout;
        Ok(())
    }

    /// Whether duplicate keys are refused.
    pub fn set_unique(&mut self, unique: bool)
        requires
            old(self).wf(),
        ensures
            final(self).wf(),
            final(self).spec_unique() == unique,
            final(self).spec_fanout() == old(self).spec_fanout(),
            final(self).entries() == old(self).entries(),
            final(self).spec_total_keys() == old(self).spec_total_keys(),
    {
        self.unique = unique;
    }

    /// Sets the column whose values are indexed.
    pub fn set_key_column(&mut self, column: String)
        requires
            old(self).wf(),
        ensures
            final(self).wf(),
            final(self).spec_key_column() == column@,
            final(self).entries() == old(self).entries(),
            final(self).spec_unique() == old(self).spec_unique(),
            final(self).spec_fanout() == old(self).spec_fanout(),
    {
        self.key_column = column;
    }

    /// The column whose values are indexed.
    pub fn key_column(&self) -> (r: &String)
        ensures
            r@ == self.spec_key_column(),
    {
        &self.key_column
    }

    #[verifier::when_used_as_spec(spec_fanout)]
    pub fn fanout(&self) -> (r: usize)
        ensures
            r == self.spec_fanout(),
    {
        self.fanout
    }

    #[verifier::when_used_as_spec(spec_unique)]
    pub fn unique(&self) -> (r: bool)
        ensures
            r == self.spec_unique(),
    {
        self.unique
    }

    /// The number of entries inserted.
    #[verifier::when_used_as_spec(spec_total_keys)]
    pub fn key_count(&self) -> (r: usize)
        ensures
            r == self.spec_total_keys(),
    {
        self.total_keys
    }

    /// The number of node splits, a new root included.
    #[verifier::when_used_as_spec(spec_split_count)]
    pub fn split_count(&self) -> (r: usize)
        ensures
            r == self.spec_split_count(),
    {
        self.split_count
    }

    pub closed spec fn spec_comparison_count(&self) -> usize {
        self.comparison_count
    }

    /// Key comparisons made by inserts, lookups and scans (saturating).
    pub fn comparison_count(&self) -> (r: usize)
        ensures
            r == self.spec_comparison_count(),
    {
        self.comparison_count
    }
}

impl BTreeIndexBlock {
    fn build_documentation() -> (d: BlockDocumentation)
        ensures
            d.overview@ == "A B-tree is a self-balancing, multi-way search tree that keeps keys in \
                           sorted order across a hierarchy of nodes. It is the most widely used \
                           index structure in relational databases — virtually every database engine \
                           uses B-trees (or the B+ tree variant) as their default index type. When \
                           you write CREATE INDEX in PostgreSQL, MySQL, or SQL Server, you get a \
                           B-tree.\n\n\
                           The key property of a B-tree is that its depth grows logarithmically \
                           with the number of keys. With a fanout of 128, a tree holding 100 \
                           million keys is only about 3-4 levels deep. Since each level requires \
                           one page read, a point lookup touches only 3-4 pages — compared to \
                           scanning millions of pages in a heap file.\n\n\
                           Think of a B-tree like the index in the back of a textbook. The top \
                           level gives you letter ranges (A-F, G-L, ...), the next level narrows \
                           to specific letter combinations, and the leaves point to actual page \
                           numbers. Finding any entry requires flipping through only a few levels \
                           of the index, not scanning every page of the book."@,
            d.algorithm@ == "INSERT:\n  \
                           1. Start at the root node\n  \
                           2. At each internal node, binary search to find which child to descend into\n  \
                           3. Repeat until reaching a leaf node\n  \
                           4. Insert the (key, TupleId) entry in sorted position within the leaf\n  \
                           5. If the leaf now has > fanout entries (overflow):\n    \
                              a. Split the leaf at the median\n    \
                              b. Left half stays, right half becomes a new leaf node\n    \
                              c. Push the median key up to the parent internal node\n    \
                              d. If the parent also overflows, split it recursively\n    \
                              e. If the root splits, create a new root (tree grows taller)\n  \
                           6. Update next_leaf pointers to maintain the leaf chain\n\n\
                           POINT LOOKUP:\n  \
                           1. Start at root, binary search keys at each level\n  \
                           2. Descend to the appropriate child\n  \
                           3. At the leaf, scan entries for an exact match\n  \
                           4. Total pages read = tree depth (typically 3-4)\n\n\
                           RANGE SCAN (start_key to end_key):\n  \
                           1. Descend from root to the leaf containing start_key\n  \
                           2. Scan entries in the leaf where key >= start_key\n  \
                           3. Follow next_leaf pointers to continue scanning\n  \
                           4. Stop when key > end_key or leaf chain ends\n  \
                           5. All results are returned in sorted order"@,
            d.motivation@ == "Without an index, finding a specific row in a table requires scanning \
                             every single page — a sequential scan that is O(n). For a table with \
                             10 million rows, this means reading tens of thousands of pages from disk \
                             just to find one record.\n\n\
                             The B-tree solves this by maintaining a sorted, balanced tree structure \
                             that narrows the search space exponentially at each level. A lookup in a \
                             10-million-row table with fanout 128 touches only ~3 pages instead of \
                             ~50,000 pages. This is the difference between a query completing in \
                             microseconds versus seconds."@,
            d.complexity.time@ == "O(log_f n) lookup/insert where f = fanout"@,
            d.complexity.space@ == "O(n) — one entry per indexed key"@,
            d.use_cases@.len() == 5,
            d.use_cases@[0]@ == "Primary key indexes"@,
            d.use_cases@[1]@ == "Range queries (BETWEEN, ORDER BY)"@,
            d.use_cases@[2]@ == "Unique constraint enforcement"@,
            d.use_cases@[3]@ == "Composite indexes for multi-column lookups (e.g., WHERE a = 1 AND b > 5)"@,
            d.use_cases@[4]@ == "Any workload needing both point lookups and ordered scans"@,
            d.tradeoffs@.len() == 5,
            d.tradeoffs@[0]@ == "Higher fanout → shallower tree but more comparisons per node"@,
            d.tradeoffs@[1]@ == "Writes cause node splits which are expensive"@,
            d.tradeoffs@[2]@ == "Not ideal for high-cardinality write-heavy workloads (consider LSM)"@,
            d.tradeoffs@[3]@ == "Each index adds overhead to every INSERT/UPDATE/DELETE on the table"@,
            d.tradeoffs@[4]@ == "B-trees on disk suffer from random I/O for updates; buffer pools help mitigate this"@,
            d.examples@.len() == 4,
            d.examples@[0]@ == "PostgreSQL B-tree indexes — default CREATE INDEX type, supports all comparison operators"@,
            d.examples@[1]@ == "InnoDB secondary indexes — B-tree leaves store the primary key value, not a page pointer"@,
            d.examples@[2]@ == "SQLite B-tree — both table storage and indexes use B-trees internally"@,
            d.examples@[3]@ == "Oracle B-tree indexes — default index type, supports index-organized tables"@,
            d.suggested_questions@.len() == 3,
            d.suggested_questions@[0]@ == "How does changing the fanout from 4 to 128 affect tree depth and lookup performance?"@,
            d.suggested_questions@[1]@ == "Why do B-trees link leaf nodes together, and how does this help range scans?"@,
            d.suggested_questions@[2]@ == "What is the difference between a B-tree and a B+ tree, and which do most databases actually use?"@,
            d.parameter_guide@.len() == 3,
            d.parameter_guide@[0].0@ == "fanout"@,
            d.parameter_guide@[0].1@ == "The maximum number of keys per node (also called the order of the B-tree). \
                      Higher fanout means each node holds more keys, making the tree shallower \
                      (fewer levels = fewer page reads per lookup). However, within each node, \
                      more keys means more comparisons during binary search. In practice, the \
                      fanout is determined by the page size and key size: a 4KB page with 32-byte \
                      keys can hold ~128 keys. Recommended: 64-256 for most workloads. Very low \
                      values (3-8) are useful for testing and visualizing tree behavior. \
                      Range: 3-1024. Default is 128."@,
            d.parameter_guide@[1].0@ == "key_column"@,
            d.parameter_guide@[1].1@ == "The column to build the index on. This should be the column most frequently \
                      used in WHERE clauses, JOIN conditions, or ORDER BY. The column values must \
                      be comparable (numbers or strings). For composite indexes, you would create \
                      multiple B-tree blocks or use a concatenated key. Default is 'id'."@,
            d.parameter_guide@[2].0@ == "unique"@,
            d.parameter_guide@[2].1@ == "When enabled, the index rejects duplicate key values on insert, effectively \
                      enforcing a UNIQUE constraint. This is how databases implement PRIMARY KEY \
                      and UNIQUE constraints — via a unique B-tree index. When disabled, multiple \
                      records can have the same key value. Default is false."@,
            d.alternatives@.len() == 2,
            d.alternatives@[0].block_type@ == "hash-index"@,
            d.alternatives@[0].comparison@ == "Hash indexes provide O(1) average-case point lookups, which is \
                                     faster than B-tree's O(log n) for exact equality queries. However, \
                                     hash indexes cannot perform range scans or return results in sorted \
                                     order. Choose hash when you only need WHERE id = ? lookups. Choose \
                                     B-tree when you also need range queries, ORDER BY, or sorted output."@,
            d.alternatives@[1].block_type@ == "covering-index"@,
            d.alternatives@[1].comparison@ == "A covering index is a B-tree that stores additional column values \
                                     alongside the key, enabling index-only scans without touching the \
                                     base table. Choose a plain B-tree when you only need the key for \
                                     lookups. Choose a covering index when your queries frequently \
                                     SELECT columns that could be included in the index to avoid heap \
                                     lookups."@,
    {
        let mut use_cases: Vec<String> = Vec::new();
        use_cases.push(String::from_str("Primary key indexes"));
        use_cases.push(String::from_str("Range queries (BETWEEN, ORDER BY)"));
        use_cases.push(String::from_str("Unique constraint enforcement"));
        use_cases.push(String::from_str("Composite indexes for multi-column lookups (e.g., WHERE a = 1 AND b > 5)"));
        use_cases.push(String::from_str("Any workload needing both point lookups and ordered scans"));
        let mut tradeoffs: Vec<String> = Vec::new();
        tradeoffs.push(String::from_str("Higher fanout → shallower tree but more comparisons per node"));
        tradeoffs.push(String::from_str("Writes cause node splits which are expensive"));
        tradeoffs.push(String::from_str("Not ideal for high-cardinality write-heavy workloads (consider LSM)"));
        tradeoffs.push(String::from_str("Each index adds overhead to every INSERT/UPDATE/DELETE on the table"));
        tradeoffs.push(String::from_str("B-trees on disk suffer from random I/O for updates; buffer pools help mitigate this"));
        let mut examples: Vec<String> = Vec::new();
        examples.push(String::from_str("PostgreSQL B-tree indexes — default CREATE INDEX type, supports all comparison operators"));
        examples.push(String::from_str("InnoDB secondary indexes — B-tree leaves store the primary key value, not a page pointer"));
        examples.push(String::from_str("SQLite B-tree — both table storage and indexes use B-trees internally"));
        examples.push(String::from_str("Oracle B-tree indexes — default index type, supports index-organized tables"));
        let mut suggested_questions: Vec<String> = Vec::new();
        suggested_questions.push(String::from_str("How does changing the fanout from 4 to 128 affect tree depth and lookup performance?"));
        suggested_questions.push(String::from_str("Why do B-trees link leaf nodes together, and how does this help range scans?"));
        suggested_questions.push(String::from_str("What is the difference between a B-tree and a B+ tree, and which do most databases actually use?"));
        let mut parameter_guide: Vec<(String, String)> = Vec::new();
        parameter_guide.push((String::from_str("fanout"), String::from_str("The maximum number of keys per node (also called the order of the B-tree). \
                      Higher fanout means each node holds more keys, making the tree shallower \
                      (fewer levels = fewer page reads per lookup). However, within each node, \
                      more keys means more comparisons during binary search. In practice, the \
                      fanout is determined by the page size and key size: a 4KB page with 32-byte \
                      keys can hold ~128 keys. Recommended: 64-256 for most workloads. Very low \
                      values (3-8) are useful for testing and visualizing tree behavior. \
                      Range: 3-1024. Default is 128.")));
        parameter_guide.push((String::from_str("key_column"), String::from_str("The column to build the index on. This should be the column most frequently \
                      used in WHERE clauses, JOIN conditions, or ORDER BY. The column values must \
                      be comparable (numbers or strings). For composite indexes, you would create \
                      multiple B-tree blocks or use a concatenated key. Default is 'id'.")));
        parameter_guide.push((String::from_str("unique"), String::from_str("When enabled, the index rejects duplicate key values on insert, effectively \
                      enforcing a UNIQUE constraint. This is how databases implement PRIMARY KEY \
                      and UNIQUE constraints — via a unique B-tree index. When disabled, multiple \
                      records can have the same key value. Default is false.")));
        let mut alternatives: Vec<Alternative> = Vec::new();
        alternatives.push(Alternative { block_type: String::from_str("hash-index"), comparison: String::from_str("Hash indexes provide O(1) average-case point lookups, which is \
                                     faster than B-tree's O(log n) for exact equality queries. However, \
                                     hash indexes cannot perform range scans or return results in sorted \
                                     order. Choose hash when you only need WHERE id = ? lookups. Choose \
                                     B-tree when you also need range queries, ORDER BY, or sorted output.") });
        alternatives.push(Alternative { block_type: String::from_str("covering-index"), comparison: String::from_str("A covering index is a B-tree that stores additional column values \
                                     alongside the key, enabling index-only scans without touching the \
                                     base table. Choose a plain B-tree when you only need the key for \
                                     lookups. Choose a covering index when your queries frequently \
                                     SELECT columns that could be included in the index to avoid heap \
                                     lookups.") });
        BlockDocumentation {
            overview: String::from_str("A B-tree is a self-balancing, multi-way search tree that keeps keys in \
                           sorted order across a hierarchy of nodes. It is the most widely used \
                           index structure in relational databases — virtually every database engine \
                           uses B-trees (or the B+ tree variant) as their default index type. When \
                           you write CREATE INDEX in PostgreSQL, MySQL, or SQL Server, you get a \
                           B-tree.\n\n\
                           The key property of a B-tree is that its depth grows logarithmically \
                           with the number of keys. With a fanout of 128, a tree holding 100 \
                           million keys is only about 3-4 levels deep. Since each level requires \
                           one page read, a point lookup touches only 3-4 pages — compared to \
                           scanning millions of pages in a heap file.\n\n\
                           Think of a B-tree like the index in the back of a textbook. The top \
                           level gives you letter ranges (A-F, G-L, ...), the next level narrows \
                           to specific letter combinations, and the leaves point to actual page \
                           numbers. Finding any entry requires flipping through only a few levels \
                           of the index, not scanning every page of the book."),
            algorithm: String::from_str("INSERT:\n  \
                           1. Start at the root node\n  \
                           2. At each internal node, binary search to find which child to descend into\n  \
                           3. Repeat until reaching a leaf node\n  \
                           4. Insert the (key, TupleId) entry in sorted position within the leaf\n  \
                           5. If the leaf now has > fanout entries (overflow):\n    \
                              a. Split the leaf at the median\n    \
                              b. Left half stays, right half becomes a new leaf node\n    \
                              c. Push the median key up to the parent internal node\n    \
                              d. If the parent also overflows, split it recursively\n    \
                              e. If the root splits, create a new root (tree grows taller)\n  \
                           6. Update next_leaf pointers to maintain the leaf chain\n\n\
                           POINT LOOKUP:\n  \
                           1. Start at root, binary search keys at each level\n  \
                           2. Descend to the appropriate child\n  \
                           3. At the leaf, scan entries for an exact match\n  \
                           4. Total pages read = tree depth (typically 3-4)\n\n\
                           RANGE SCAN (start_key to end_key):\n  \
                           1. Descend from root to the leaf containing start_key\n  \
                           2. Scan entries in the leaf where key >= start_key\n  \
                           3. Follow next_leaf pointers to continue scanning\n  \
                           4. Stop when key > end_key or leaf chain ends\n  \
                           5. All results are returned in sorted order"),
            complexity: Complexity { time: String::from_str("O(log_f n) lookup/insert where f = fanout"), space: String::from_str("O(n) — one entry per indexed key") },
            use_cases,
            tradeoffs,
            examples,
            motivation: String::from_str("Without an index, finding a specific row in a table requires scanning \
                             every single page — a sequential scan that is O(n). For a table with \
                             10 million rows, this means reading tens of thousands of pages from disk \
                             just to find one record.\n\n\
                             The B-tree solves this by maintaining a sorted, balanced tree structure \
                             that narrows the search space exponentially at each level. A lookup in a \
                             10-million-row table with fanout 128 touches only ~3 pages instead of \
                             ~50,000 pages. This is the difference between a query completing in \
                             microseconds versus seconds."),
            parameter_guide,
            alternatives,
            suggested_questions,
        }
    }

    fn build_references() -> (r: Vec<Reference>)
        ensures
            r@.len() == 1,
            r@[0].ref_type == ReferenceType::Paper,
            r@[0].title@ == "Organization and Maintenance of Large Ordered Indexes"@,
            r@[0].url is None,
            r@[0].citation matches Some(t) && t@ == "Bayer, R. & McCreight, E. (1972). Acta Informatica, 1(3), 173–189."@,
    {
        let mut r: Vec<Reference> = Vec::new();
        r.push(Reference { ref_type: ReferenceType::Paper, title: String::from_str("Organization and Maintenance of Large Ordered Indexes"), url: None, citation: Some(String::from_str("Bayer, R. & McCreight, E. (1972). Acta Informatica, 1(3), 173–189.")) });
        r
    }

    fn build_metadata() -> (m: BlockMetadata)
        ensures
            m.documentation.overview@ == "A B-tree is a self-balancing, multi-way search tree that keeps keys in \
                           sorted order across a hierarchy of nodes. It is the most widely used \
                           index structure in relational databases — virtually every database engine \
                           uses B-trees (or the B+ tree variant) as their default index type. When \
                           you write CREATE INDEX in PostgreSQL, MySQL, or SQL Server, you get a \
                           B-tree.\n\n\
                           The key property of a B-tree is that its depth grows logarithmically \
                           with the number of keys. With a fanout of 128, a tree holding 100 \
                           million keys is only about 3-4 levels deep. Since each level requires \
                           one page read, a point lookup touches only 3-4 pages — compared to \
                           scanning millions of pages in a heap file.\n\n\
                           Think of a B-tree like the index in the back of a textbook. The top \
                           level gives you letter ranges (A-F, G-L, ...), the next level narrows \
                           to specific letter combinations, and the leaves point to actual page \
                           numbers. Finding any entry requires flipping through only a few levels \
                           of the index, not scanning every page of the book."@,
            m.references@.len() == 1,
            m.id@ == "btree-index"@,
            m.category == BlockCategory::Index,
            m.name@ == "B-tree Index"@,
            m.description@ == "Balanced tree index for point lookups and ordered range scans"@,
            m.version@ == "1.0.0"@,
            m.icon@ == "git-branch"@,
            m.color@ == "#10B981"@,
    {
        BlockMetadata::new(
            "btree-index",
            "B-tree Index",
            BlockCategory::Index,
            "Balanced tree index for point lookups and ordered range scans",
            "git-branch",
            "#10B981",
            Self::build_documentation(),
            Self::build_references(),
        )
    }

    fn build_inputs() -> (p: Vec<Port>)
        ensures
            p@.len() == 1,
            p@[0].id@ == "records"@,
    {
        let mut p: Vec<Port> = Vec::new();
        p.push(
            Port::new(
                "records",
                "Records",
                PortDirection::Input,
                true,
                false,
                "Records to index (must contain key_column and _page_id/_slot_id)",
            ),
        );
        p
    }

    fn build_outputs() -> (p: Vec<Port>)
        ensures
            p@.len() == 1,
            p@[0].id@ == "lookup_results"@,
    {
        let mut p: Vec<Port> = Vec::new();
        p.push(
            Port::new(
                "lookup_results",
                "Lookup Results",
                PortDirection::Output,
                false,
                true,
                "Results of point lookups or range scans",
            ),
        );
        p
    }

    fn build_metrics() -> (v: Vec<MetricDefinition>)
        ensures
            v@.len() == 6,
            v@[0].id@ == "tree_depth"@,
            v@[1].id@ == "total_keys"@,
            v@[2].id@ == "lookups"@,
            v@[3].id@ == "range_scans"@,
            v@[4].id@ == "splits"@,
            v@[5].id@ == "comparisons"@,
    {
        let mut v: Vec<MetricDefinition> = Vec::new();
        v.push(
            MetricDefinition::new(
                "tree_depth",
                "Tree Depth",
                MetricType::Gauge,
                "levels",
                "Current depth of the B-tree",
                AggregationType::Max,
            ),
        );
        v.push(
            MetricDefinition::new(
                "total_keys",
                "Total Keys",
                MetricType::Gauge,
                "keys",
                "Number of indexed keys",
                AggregationType::Max,
            ),
        );
        v.push(
            MetricDefinition::new(
                "lookups",
                "Lookups",
                MetricType::Counter,
                "ops",
                "Point lookups performed",
                AggregationType::Sum,
            ),
        );
        v.push(
            MetricDefinition::new(
                "range_scans",
                "Range Scans",
                MetricType::Counter,
                "ops",
                "Range scans performed",
                AggregationType::Sum,
            ),
        );
        v.push(
            MetricDefinition::new(
                "splits",
                "Node Splits",
                MetricType::Counter,
                "ops",
                "Node splits during inserts",
                AggregationType::Sum,
            ),
        );
        v.push(
            MetricDefinition::new(
                "comparisons",
                "Comparisons",
                MetricType::Counter,
                "ops",
                "Key comparisons made",
                AggregationType::Sum,
            ),
        );
        v
    }

    /// What the block says about itself.
    pub fn metadata(&self) -> (m: &BlockMetadata)
        ensures
            m == self.spec_metadata(),
    {
        &self.metadata
    }

    pub closed spec fn spec_metadata(&self) -> BlockMetadata {
        self.metadata
    }

    /// The block's input ports.
    pub fn inputs(&self) -> (p: &Vec<Port>)
        ensures
            p == self.spec_inputs(),
    {
        &self.input_ports
    }

    pub closed spec fn spec_inputs(&self) -> Vec<Port> {
        self.input_ports
    }

    /// The block's output ports.
    pub fn outputs(&self) -> (p: &Vec<Port>)
        ensures
            p == self.spec_outputs(),
    {
        &self.output_ports
    }

    pub closed spec fn spec_outputs(&self) -> Vec<Port> {
        self.output_ports
    }

    /// The metrics the block reports.
    pub fn metrics(&self) -> (m: &Vec<MetricDefinition>)
        ensures
            m == self.spec_metrics(),
    {
        &self.metric_defs
    }

    pub closed spec fn spec_metrics(&self) -> Vec<MetricDefinition> {
        self.metric_defs
    }
}

} // verus!
