//! The result of palette assignment, and the exact cache for repeated
//! colours.

use vstd::prelude::*;
use crate::determinism::QuantKey;
use crate::labels::{LabelId, LabelPlane};

verus! {

/// The result of assigning every pixel to a palette entry.
#[derive(Debug, Clone)]
pub struct Assignment {
    /// One label per pixel, indexing the palette.
    pub labels: LabelPlane,
    /// Pixels claimed by some entry's reach.
    pub claimed_pixels: u64,
    /// Pixels no entry claimed, assigned to the nearest by score.
    pub unclaimed_pixels: u64,
    /// Pixels with no colour evidence under the alpha policy. They carry the
    /// label of the nearest entry so the partition stays exclusive, and are
    /// counted separately so nothing reads them as colour evidence.
    pub transparent_pixels: u64,
    /// Pixels per palette entry, in label order.
    pub pixels_per_entry: Vec<u64>,
    /// Cache hits, for the report.
    pub cache_hits: u64,
}

/// Slots in a [`ColorCache`]: 512 KiB, independent of image and palette size.
pub const CACHE_SLOTS: usize = 65536;

/// The slot a key lives in: a fixed multiplicative hash by an odd 32-bit
/// constant, high bits taken. Unseeded, so it is the same in every process.
pub open spec fn slot_of(key: u32) -> int {
    (((key as int * 2_654_435_761) / 0x1_0000) % 0x1_0000)
}

/// Fixed-size exact cache for repeated colours.
///
/// Direct-mapped, so lookup and insert are one array access each and there
/// is no eviction policy to make nondeterministic. The key comparison is
/// exact: a hit returns what was stored for that very key, so which entries
/// happen to be resident cannot change a label.
pub struct ColorCache {
    keys: Vec<u32>,
    values: Vec<LabelId>,
    claimed: Vec<bool>,
    occupied: Vec<bool>,
    hits: u64,
}

impl View for ColorCache {
    type V = Map<u32, (LabelId, bool)>;

    /// The resident entries: each key with its label and whether the match
    /// was inside the entry's reach.
    closed spec fn view(&self) -> Map<u32, (LabelId, bool)> {
        Map::new(
            |k: u32| self.occupied@[slot_of(k)] && self.keys@[slot_of(k)] == k,
            |k: u32| (self.values@[slot_of(k)], self.claimed@[slot_of(k)]),
        )
    }
}

/// `after` is `before` with `key` set to `value`, and possibly other entries
/// evicted; no entry is ever changed to a value that was not put for it.
pub open spec fn put_result(
    before: Map<u32, (LabelId, bool)>,
    key: u32,
    value: (LabelId, bool),
    after: Map<u32, (LabelId, bool)>,
) -> bool {
    &&& after.contains_key(key)
    &&& after[key] == value
    &&& forall|k: u32| #[trigger] after.contains_key(k) && k != key ==> before.contains_key(k) && after[k] == before[k]
}

/// Every resident entry holds the answer `f` gives for its key.
pub open spec fn agrees_with(m: Map<u32, (LabelId, bool)>, f: spec_fn(u32) -> (LabelId, bool)) -> bool {
    forall|k: u32| #[trigger] m.contains_key(k) ==> m[k] == f(k)
}

/// Storing the answer `f` gives for a key keeps a cache that agrees with `f`
/// in agreement: whatever is evicted, a later hit is the answer a miss would
/// have computed.
pub proof fn law_cache_stays_exact(
    before: Map<u32, (LabelId, bool)>,
    key: u32,
    after: Map<u32, (LabelId, bool)>,
    f: spec_fn(u32) -> (LabelId, bool),
)
    requires
        agrees_with(before, f),
        put_result(before, key, f(key), after),
    ensures
        agrees_with(after, f),
{
}

impl ColorCache {
    /// The cache is well formed: every slot exists and an occupied slot holds
    /// a key that hashes to it.
    pub closed spec fn wf(&self) -> bool {
        &&& self.keys@.len() == CACHE_SLOTS
        &&& self.values@.len() == CACHE_SLOTS
        &&& self.claimed@.len() == CACHE_SLOTS
        &&& self.occupied@.len() == CACHE_SLOTS
        &&& forall|s: int| 0 <= s < CACHE_SLOTS && #[trigger] self.occupied@[s] ==> slot_of(self.keys@[s]) == s
    }

    /// Hits so far.
    pub closed spec fn spec_hits(&self) -> u64 {
        self.hits
    }

    fn slot(key: u32) -> (s: usize)
        ensures
            s == slot_of(key),
            s < CACHE_SLOTS,
    {
        let p = key as u64 * 2_654_435_761u64;
        ((p / 0x1_0000) % 0x1_0000) as usize
    }

    /// An empty cache.
    pub fn new() -> (c: ColorCache)
        ensures
            c.wf(),
            c@ == Map::<u32, (LabelId, bool)>::empty(),
            c.spec_hits() == 0,
    {
        let mut keys: Vec<u32> = Vec::new();
        let mut values: Vec<LabelId> = Vec::new();
        let mut claimed: Vec<bool> = Vec::new();
        let mut occupied: Vec<bool> = Vec::new();
        let mut i: usize = 0;
        while i < CACHE_SLOTS
            invariant
                i <= CACHE_SLOTS,
                keys@.len() == i,
                values@.len() == i,
                claimed@.len() == i,
                occupied@.len() == i,
                forall|s: int| 0 <= s < i ==> !(#[trigger] occupied@[s]),
            decreases CACHE_SLOTS - i,
        {
            keys.push(0);
            values.push(LabelId(0));
            claimed.push(false);
            occupied.push(false);
            i += 1;
        }
        let c = ColorCache { keys, values, claimed, occupied, hits: 0 };
        proof {
            assert(c@ =~= Map::<u32, (LabelId, bool)>::empty()) by {
                assert forall|k: u32| !c@.contains_key(k) by {
                    assert(0 <= slot_of(k) < CACHE_SLOTS) by (nonlinear_arith);
                }
            }
        }
        c
    }

    /// The cached label for `key` and whether it was claimed, counting a hit.
    pub fn get(&mut self, key: u32) -> (r: Option<(LabelId, bool)>)
        requires
            old(self).wf(),
            old(self).spec_hits() < u64::MAX,
        ensures
            final(self).wf(),
            final(self)@ == old(self)@,
            r == (if old(self)@.contains_key(key) { Some(old(self)@[key]) } else { None }),
            final(self).spec_hits() == old(self).spec_hits() + if r is Some { 1int } else { 0int },
    {
        let s = Self::slot(key);
        if self.occupied[s] && self.keys[s] == key {
            self.hits = self.hits + 1;
            Some((self.values[s], self.claimed[s]))
        } else {
            None
        }
    }

    /// Store the label for `key` and whether it was claimed, evicting whatever
    /// shared its slot.
    pub fn put(&mut self, key: u32, value: LabelId, claimed: bool)
        requires
            old(self).wf(),
        ensures
            final(self).wf(),
            put_result(old(self)@, key, (value, claimed), final(self)@),
            final(self).spec_hits() == old(self).spec_hits(),
    {
        let s = Self::slot(key);
        self.keys.set(s, key);
        self.values.set(s, value);
        self.claimed.set(s, claimed);
        self.occupied.set(s, true);
        proof {
            assert forall|k: u32| #[trigger] self@.contains_key(k) && k != key implies old(self)@.contains_key(k)
                && self@[k] == old(self)@[k] by {
                assert(slot_of(k) != s as int);
            }
        }
    }

    /// Cache hits so far.
    pub fn hits(&self) -> (n: u64)
        ensures
            n == self.spec_hits(),
    {
        self.hits
    }
}

/// One palette entry's claim on a sample: its quantised score, its declared
/// priority and its identifier.
#[derive(Debug, Clone, Copy, PartialEq, Eq)]
pub struct Claim {
    /// The normalised score, quantised so that a rounding artefact is the tie
    /// it is; lower is better.
    pub key: QuantKey,
    /// Declared tie-break priority; higher wins.
    pub priority: i16,
    /// Stable palette identifier; lower wins.
    pub id: u32,
}

/// `a` wins over `b`: lower score, then higher priority, then lower
/// identifier. Array order is never a tie-break.
pub open spec fn beats(a: Claim, b: Claim) -> bool {
    ||| a.key.value() < b.key.value()
    ||| a.key.value() == b.key.value() && a.priority > b.priority
    ||| a.key.value() == b.key.value() && a.priority == b.priority && a.id < b.id
}

/// No claim in `claims` wins over the one at `i`.
pub open spec fn unbeaten(claims: Seq<Claim>, i: int) -> bool {
    forall|j: int| 0 <= j < claims.len() ==> !beats(#[trigger] claims[j], claims[i])
}

/// No two claims share an identifier.
pub open spec fn distinct_ids(claims: Seq<Claim>) -> bool {
    forall|i: int, j: int| 0 <= i < j < claims.len() ==> claims[i].id != claims[j].id
}

fn claim_beats(a: &Claim, b: &Claim) -> (r: bool)
    ensures
        r == beats(*a, *b),
{
    let ka: i64 = a.key.raw();
    let kb: i64 = b.key.raw();
    ka < kb || (ka == kb && a.priority > b.priority) || (ka == kb && a.priority == b.priority && a.id < b.id)
}

/// The index of the winning claim, or `None` when there are none: no claim
/// wins over it, and it wins over every claim before it.
pub fn best_claim(claims: &[Claim]) -> (r: Option<usize>)
    ensures
        claims@.len() == 0 <==> r is None,
        r matches Some(i) ==> i < claims@.len() && unbeaten(claims@, i as int) && forall|j: int|
            0 <= j < i ==> beats(claims@[i as int], #[trigger] claims@[j]),
{
    if claims.len() == 0 {
        return None;
    }
    let mut best: usize = 0;
    let mut k: usize = 1;
    while k < claims.len()
        invariant
            1 <= k <= claims@.len(),
            best < k,
            forall|j: int| 0 <= j < k ==> !beats(#[trigger] claims@[j], claims@[best as int]),
            forall|j: int| 0 <= j < best ==> beats(claims@[best as int], #[trigger] claims@[j]),
        decreases claims@.len() - k,
    {
        if claim_beats(&claims[k], &claims[best]) {
            best = k;
        }
        k += 1;
    }
    Some(best)
}

/// Which entry wins a sample depends only on the claims, never on the order
/// the palette lists them in: over two listings of the same claims with
/// distinct identifiers, the unbeaten claim is the same.
pub proof fn law_winner_ignores_listing_order(a: Seq<Claim>, b: Seq<Claim>, i: int, j: int)
    requires
        forall|c: Claim| a.contains(c) <==> b.contains(c),
        distinct_ids(a),
        0 <= i < a.len(),
        0 <= j < b.len(),
        unbeaten(a, i),
        unbeaten(b, j),
    ensures
        a[i] == b[j],
{
    assert(b.contains(b[j]));
    assert(a.contains(b[j]));
    let k = choose|k: int| 0 <= k < a.len() && a[k] == b[j];
    assert(a.contains(a[i]));
    assert(b.contains(a[i]));
    let m = choose|m: int| 0 <= m < b.len() && b[m] == a[i];
    if a[i] != b[j] {
        assert(k != i);
        assert(a[i].id != a[k].id);
        assert(!beats(a[k], a[i]));
        assert(!beats(b[m], b[j]));
    }
}

} // verus!
