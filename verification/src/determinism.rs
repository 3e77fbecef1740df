//! Deterministic ordering primitives: integer decision keys, generation
//! stamps, a minimum-first queue whose pop order is a function of its
//! contents alone, and canonical unordered pairs.

use vstd::prelude::*;
use vstd::multiset::Multiset;

verus! {

broadcast use {vstd::seq_lib::group_to_multiset_ensures, vstd::multiset::group_multiset_axioms};

/// A total order on keys: stated in spec and decided in exec code.
///
/// Keys that tie under the order are equal, so whatever pops first is
/// determined by the key alone and never by insertion order.
pub trait TotalOrder: Sized {
    /// Whether `self` comes no later than `other`.
    spec fn precedes(self, other: Self) -> bool;

    /// The order is reflexive, antisymmetric, transitive and total.
    proof fn lemma_total_order()
        ensures
            forall|a: Self| #[trigger] a.precedes(a),
            forall|a: Self, b: Self|
                #![trigger a.precedes(b), b.precedes(a)]
                a.precedes(b) && b.precedes(a) ==> a == b,
            forall|a: Self, b: Self, c: Self|
                #![trigger a.precedes(b), b.precedes(c)]
                a.precedes(b) && b.precedes(c) ==> a.precedes(c),
            forall|a: Self, b: Self| #![trigger a.precedes(b)] a.precedes(b) || b.precedes(a),
    ;

    /// Decide [`TotalOrder::precedes`].
    fn at_most(&self, other: &Self) -> (b: bool)
        ensures
            b == self.precedes(*other),
    ;
}

impl TotalOrder for u32 {
    open spec fn precedes(self, other: Self) -> bool {
        self <= other
    }

    proof fn lemma_total_order() {
    }

    fn at_most(&self, other: &Self) -> (b: bool) {
        *self <= *other
    }
}

impl TotalOrder for u64 {
    open spec fn precedes(self, other: Self) -> bool {
        self <= other
    }

    proof fn lemma_total_order() {
    }

    fn at_most(&self, other: &Self) -> (b: bool) {
        *self <= *other
    }
}

impl TotalOrder for i32 {
    open spec fn precedes(self, other: Self) -> bool {
        self <= other
    }

    proof fn lemma_total_order() {
    }

    fn at_most(&self, other: &Self) -> (b: bool) {
        *self <= *other
    }
}

impl TotalOrder for i64 {
    open spec fn precedes(self, other: Self) -> bool {
        self <= other
    }

    proof fn lemma_total_order() {
    }

    fn at_most(&self, other: &Self) -> (b: bool) {
        *self <= *other
    }
}

impl TotalOrder for (u32, u32) {
    open spec fn precedes(self, other: Self) -> bool {
        self.0 < other.0 || (self.0 == other.0 && self.1 <= other.1)
    }

    proof fn lemma_total_order() {
    }

    fn at_most(&self, other: &Self) -> (b: bool) {
        self.0 < other.0 || (self.0 == other.0 && self.1 <= other.1)
    }
}

impl TotalOrder for (i64, u32, u32) {
    open spec fn precedes(self, other: Self) -> bool {
        self.0 < other.0 || (self.0 == other.0 && (self.1 < other.1 || (self.1 == other.1
            && self.2 <= other.2)))
    }

    proof fn lemma_total_order() {
    }

    fn at_most(&self, other: &Self) -> (b: bool) {
        self.0 < other.0 || (self.0 == other.0 && (self.1 < other.1 || (self.1 == other.1
            && self.2 <= other.2)))
    }
}

/// Position of the parent of a non-root heap slot.
pub open spec fn parent(k: int) -> int {
    (k - 1) / 2
}

/// Slot `k` respects its parent.
pub open spec fn ordered_at<T: TotalOrder>(s: Seq<T>, k: int) -> bool {
    s[parent(k)].precedes(s[k])
}

/// Every non-root slot respects its parent.
pub open spec fn is_heap<T: TotalOrder>(s: Seq<T>) -> bool {
    forall|k: int| 0 < k < s.len() ==> #[trigger] ordered_at(s, k)
}

/// `m` is the least element of the multiset `items`.
pub open spec fn is_least<T: TotalOrder>(m: T, items: Multiset<T>) -> bool {
    items.contains(m) && forall|x: T| #[trigger] items.contains(x) ==> m.precedes(x)
}

/// A minimum-first priority queue whose pop order is fully determined by the
/// keys it holds.
#[derive(Debug, Clone)]
pub struct MinHeap<T: TotalOrder + Copy> {
    data: Vec<T>,
}

impl<T: TotalOrder + Copy> View for MinHeap<T> {
    type V = Multiset<T>;

    /// The queued entries.
    closed spec fn view(&self) -> Multiset<T> {
        self.data@.to_multiset()
    }
}

proof fn lemma_root_is_least<T: TotalOrder>(s: Seq<T>)
    requires
        is_heap(s),
        s.len() > 0,
    ensures
        is_least(s[0], s.to_multiset()),
{
    T::lemma_total_order();
    assert forall|k: int| 0 <= k < s.len() implies s[0].precedes(#[trigger] s[k]) by {
        lemma_root_precedes(s, k);
    }
    assert forall|x: T| #[trigger] s.to_multiset().contains(x) implies s[0].precedes(x) by {
        assert(s.contains(x));
        let k = choose|k: int| 0 <= k < s.len() && s[k] == x;
        assert(s[0].precedes(s[k]));
    }
    assert(s.contains(s[0]));
}

proof fn lemma_root_precedes<T: TotalOrder>(s: Seq<T>, k: int)
    requires
        is_heap(s),
        0 <= k < s.len(),
    ensures
        s[0].precedes(s[k]),
    decreases k,
{
    T::lemma_total_order();
    if k > 0 {
        lemma_root_precedes(s, parent(k));
        assert(ordered_at(s, k));
    }
}

proof fn lemma_swap_multiset<T>(s: Seq<T>, i: int, j: int)
    requires
        0 <= i < s.len(),
        0 <= j < s.len(),
    ensures
        s.update(i, s[j]).update(j, s[i]).to_multiset() == s.to_multiset(),
{
    broadcast use vstd::multiset::group_multiset_properties;

    let t = s.update(i, s[j]);
    assert(t.to_multiset() == s.to_multiset().insert(s[j]).remove(s[i]));
    assert(t.update(j, s[i]).to_multiset() == t.to_multiset().insert(s[i]).remove(t[j]));
    if i == j {
        assert(s.update(i, s[j]).update(j, s[i]) =~= s);
    } else {
        assert(t[j] == s[j]);
        assert(s.to_multiset().insert(s[j]).remove(s[i]).insert(s[i]).remove(s[j]) =~= s.to_multiset());
    }
}

impl<T: TotalOrder + Copy> MinHeap<T> {
    /// The heap's internal order holds.
    pub closed spec fn wf(&self) -> bool {
        is_heap(self.data@)
    }

    /// An empty heap.
    pub fn new() -> (h: MinHeap<T>)
        ensures
            h.wf(),
            h@ == Multiset::<T>::empty(),
    {
        MinHeap { data: Vec::new() }
    }

    /// An empty heap with room for `capacity` entries.
    pub fn with_capacity(capacity: usize) -> (h: MinHeap<T>)
        ensures
            h.wf(),
            h@ == Multiset::<T>::empty(),
    {
        MinHeap { data: Vec::with_capacity(capacity) }
    }

    /// Number of queued entries.
    pub fn len(&self) -> (n: usize)
        ensures
            n == self@.len(),
    {
        self.data.len()
    }

    /// Whether the heap holds no entries.
    pub fn is_empty(&self) -> (b: bool)
        ensures
            b == (self@.len() == 0),
    {
        self.data.len() == 0
    }

    fn swap(&mut self, i: usize, j: usize)
        requires
            i < old(self).data@.len(),
            j < old(self).data@.len(),
        ensures
            final(self).data@ == old(self).data@.update(i as int, old(self).data@[j as int]).update(
                j as int,
                old(self).data@[i as int],
            ),
            final(self)@ == old(self)@,
    {
        let a = self.data[i];
        let b = self.data[j];
        self.data.set(i, b);
        self.data.set(j, a);
        proof {
            lemma_swap_multiset(old(self).data@, i as int, j as int);
        }
    }

    /// Insert an entry.
    pub fn push(&mut self, entry: T)
        requires
            old(self).wf(),
        ensures
            final(self).wf(),
            final(self)@ == old(self)@.insert(entry),
    {
        proof {
            T::lemma_total_order();
        }
        let ghost start = self.data@;
        self.data.push(entry);
        proof {
            assert forall|k: int| 0 < k < self.data@.len() && k != start.len() implies #[trigger] ordered_at(self.data@, k) by {
                assert(ordered_at(start, k));
            }
        }
        let mut i: usize = self.data.len() - 1;
        while i > 0
            invariant
                0 <= i < self.data@.len(),
                self@ == old(self)@.insert(entry),
                forall|k: int| 0 < k < self.data@.len() && k != i ==> #[trigger] ordered_at(self.data@, k),
                i > 0 ==> forall|k: int| 0 < k < self.data@.len() && parent(k) == i
                    ==> self.data@[parent(i as int)].precedes(#[trigger] self.data@[k]),
            ensures
                self@ == old(self)@.insert(entry),
                is_heap(self.data@),
            decreases i,
        {
            proof {
                T::lemma_total_order();
            }
            let p = (i - 1) / 2;
            if self.data[p].at_most(&self.data[i]) {
                proof {
                    assert forall|k: int| 0 < k < self.data@.len() implies #[trigger] ordered_at(self.data@, k) by {
                        if k == i {
                        }
                    }
                }
                break;
            }
            let ghost before = self.data@;
            self.swap(i, p);
            proof {
                assert forall|k: int| 0 < k < self.data@.len() && k != p implies #[trigger] ordered_at(self.data@, k) by {
                    if k == i {
                    } else if parent(k) == i {
                        assert(before[i as int].precedes(before[p as int]));
                    } else if parent(k) == p {
                        assert(ordered_at(before, k));
                        assert(before[i as int].precedes(before[p as int]));
                    } else if k == p {
                    } else {
                        assert(ordered_at(before, k));
                    }
                }
                if p > 0 {
                    assert forall|k: int| 0 < k < self.data@.len() && parent(k) == p implies
                        self.data@[parent(p as int)].precedes(#[trigger] self.data@[k]) by {
                        assert(ordered_at(before, p as int));
                        if k == i {
                            assert(before[parent(p as int)].precedes(before[p as int]));
                        } else {
                            assert(ordered_at(before, k));
                        }
                    }
                }
            }
            i = p;
        }
    }

    /// Remove and return the least entry.
    pub fn pop(&mut self) -> (r: Option<T>)
        requires
            old(self).wf(),
        ensures
            final(self).wf(),
            old(self)@.len() == 0 ==> r is None && final(self)@ == old(self)@,
            old(self)@.len() > 0 ==> (r matches Some(m) && is_least(m, old(self)@)
                && final(self)@ == old(self)@.remove(m)),
    {
        proof {
            T::lemma_total_order();
        }
        if self.data.len() == 0 {
            return None;
        }
        proof {
            lemma_root_is_least(self.data@);
        }
        let ghost start = self.data@;
        let last = self.data.pop().unwrap();
        proof {
            assert(start =~= self.data@.push(last));
        }
        if self.data.len() == 0 {
            return Some(last);
        }
        let top = self.data[0];
        self.data.set(0, last);
        proof {
            broadcast use vstd::multiset::group_multiset_properties;
            assert(start[0] == top);
            assert(self@ =~= old(self)@.remove(last).insert(last).remove(top));
            assert forall|k: int| 0 < k < self.data@.len() && parent(k) != 0 implies #[trigger] ordered_at(self.data@, k) by {
                assert(ordered_at(start, k));
            }
        }
        let n = self.data.len();
        let mut i: usize = 0;
        loop
            invariant
                n == self.data@.len(),
                i < n,
                self@ == old(self)@.remove(top),
                forall|k: int| 0 < k < n && parent(k) != i ==> #[trigger] ordered_at(self.data@, k),
                i > 0 ==> forall|k: int| 0 < k < n && parent(k) == i
                    ==> self.data@[parent(i as int)].precedes(#[trigger] self.data@[k]),
            ensures
                self@ == old(self)@.remove(top),
                is_heap(self.data@),
                n == self.data@.len(),
            decreases n - i,
        {
            proof {
                T::lemma_total_order();
            }
            if i >= n / 2 {
                proof {
                    assert forall|k: int| 0 < k < n implies #[trigger] ordered_at(self.data@, k) by {
                        if parent(k) == i {
                            assert(false);
                        }
                    }
                }
                break;
            }
            let l = 2 * i + 1;
            let c = if l + 1 < n && !self.data[l].at_most(&self.data[l + 1]) {
                l + 1
            } else {
                l
            };
            proof {
                if l + 1 < n {
                    if c == l {
                        assert(self.data@[l as int].precedes(self.data@[l + 1]));
                    } else {
                        assert(self.data@[l + 1].precedes(self.data@[l as int]));
                    }
                }
            }
            if self.data[i].at_most(&self.data[c]) {
                proof {
                    assert forall|k: int| 0 < k < n implies #[trigger] ordered_at(self.data@, k) by {
                        if parent(k) == i {
                            assert(k == l || k == l + 1);
                        }
                    }
                }
                break;
            }
            let ghost before = self.data@;
            self.swap(i, c);
            proof {
                assert(before[c as int].precedes(before[i as int]));
                assert forall|k: int| 0 < k < n && parent(k) != c implies #[trigger] ordered_at(self.data@, k) by {
                    if k == c {
                    } else if k == i {
                        assert(self.data@[parent(k)] == before[parent(k)]);
                    } else if parent(k) == i {
                        assert(k == l || k == l + 1);
                    } else {
                        assert(ordered_at(before, k));
                    }
                }
                assert forall|k: int| 0 < k < n && parent(k) == c implies
                    self.data@[parent(c as int)].precedes(#[trigger] self.data@[k]) by {
                    assert(ordered_at(before, k));
                }
            }
            i = c;
        }
        proof {
            assert(is_heap(self.data@));
        }
        Some(top)
    }
}

/// Order an unordered pair so `(a, b)` and `(b, a)` canonicalise identically.
pub fn canonical_pair<T: TotalOrder>(a: T, b: T) -> (p: (T, T))
    ensures
        p == if a.precedes(b) { (a, b) } else { (b, a) },
{
    if a.at_most(&b) {
        (a, b)
    } else {
        (b, a)
    }
}

/// The two arguments of [`canonical_pair`] may be given in either order.
pub proof fn law_canonical_pair_is_symmetric<T: TotalOrder>(a: T, b: T)
    ensures
        (if a.precedes(b) { (a, b) } else { (b, a) }) == (if b.precedes(a) { (b, a) } else { (a, b) }),
{
    T::lemma_total_order();
}

/// Two heaps that hold the same entries pop the same entry next, whatever
/// order they were filled in.
pub proof fn law_pop_depends_only_on_contents<T: TotalOrder>(items: Multiset<T>, m1: T, m2: T)
    requires
        is_least(m1, items),
        is_least(m2, items),
    ensures
        m1 == m2,
{
    T::lemma_total_order();
    assert(m1.precedes(m2));
    assert(m2.precedes(m1));
}

/// A monotonically increasing version stamp for a mutable graph node.
#[derive(Debug, Clone, Copy, PartialEq, Eq, PartialOrd, Ord, Hash, Default)]
pub struct Generation(pub u32);

impl Generation {
    /// Advance this generation, saturating at `u32::MAX`.
    pub fn bump(&mut self)
        ensures
            final(self).0 == if old(self).0 == u32::MAX { u32::MAX } else { (old(self).0 + 1) as u32 },
    {
        self.0 = self.0.saturating_add(1);
    }
}

/// An integer decision key derived from a real value: two values with the
/// same key are tied by definition.
#[derive(Debug, Clone, Copy, PartialEq, Eq, PartialOrd, Ord, Hash)]
pub struct QuantKey(i64);

impl QuantKey {
    /// The key value.
    pub closed spec fn value(self) -> i64 {
        self.0
    }

    /// The key with raw value `raw`.
    pub fn from_raw(raw: i64) -> (k: QuantKey)
        ensures
            k.value() == raw,
    {
        QuantKey(raw)
    }

    /// The raw quantised integer.
    pub fn raw(self) -> (r: i64)
        ensures
            r == self.value(),
    {
        self.0
    }
}

} // verus!
