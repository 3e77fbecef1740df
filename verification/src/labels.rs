//! The label plane: one owner per pixel, stored at the narrowest width that
//! holds the declared number of labels.

use vstd::prelude::*;
use crate::checked::{pixel_count, u32_to_usize, usize_to_u64};
use crate::error::DecodeError;

verus! {

/// An internal label: a palette entry during assignment, a region afterwards.
#[derive(Debug, Clone, Copy, PartialEq, Eq, PartialOrd, Ord, Hash)]
pub struct LabelId(pub u32);

impl LabelId {
    /// The raw index.
    pub fn index(self) -> (i: usize)
        ensures
            i == self.0,
    {
        self.0 as usize
    }
}

/// How wide each label is stored.
#[derive(Debug, Clone, Copy, PartialEq, Eq, Structural)]
pub enum LabelWidth {
    /// One byte per pixel; up to 256 distinct labels.
    U8,
    /// Two bytes per pixel; up to 65536 distinct labels.
    U16,
    /// Four bytes per pixel; the adversarial tier.
    U32,
}

impl LabelWidth {
    /// The narrowest width that holds `label_count` distinct labels.
    pub open spec fn narrowest(label_count: u64) -> LabelWidth {
        if label_count <= 256 {
            LabelWidth::U8
        } else if label_count <= 65_536 {
            LabelWidth::U16
        } else {
            LabelWidth::U32
        }
    }

    /// Bytes one label occupies.
    pub open spec fn width_bytes(self) -> nat {
        match self {
            LabelWidth::U8 => 1,
            LabelWidth::U16 => 2,
            LabelWidth::U32 => 4,
        }
    }

    /// The largest label value the width stores.
    pub open spec fn max_label(self) -> nat {
        match self {
            LabelWidth::U8 => 255,
            LabelWidth::U16 => 65_535,
            LabelWidth::U32 => 4_294_967_295,
        }
    }

    /// The narrowest width that can hold `label_count` distinct labels.
    pub fn for_count(label_count: u64) -> (w: LabelWidth)
        ensures
            w == Self::narrowest(label_count),
    {
        if label_count <= 256 {
            LabelWidth::U8
        } else if label_count <= 65_536 {
            LabelWidth::U16
        } else {
            LabelWidth::U32
        }
    }

    /// Bytes one label occupies.
    pub fn bytes(self) -> (n: usize)
        ensures
            n == self.width_bytes(),
    {
        match self {
            LabelWidth::U8 => 1,
            LabelWidth::U16 => 2,
            LabelWidth::U32 => 4,
        }
    }
}

#[derive(Debug, Clone, PartialEq, Eq)]
enum Storage {
    U8(Vec<u8>),
    U16(Vec<u16>),
    U32(Vec<u32>),
}

impl Storage {
    spec fn labels(&self) -> Seq<u32> {
        match self {
            Storage::U8(v) => Seq::new(v@.len(), |i: int| v@[i] as u32),
            Storage::U16(v) => Seq::new(v@.len(), |i: int| v@[i] as u32),
            Storage::U32(v) => v@,
        }
    }

    spec fn tier(&self) -> LabelWidth {
        match self {
            Storage::U8(_) => LabelWidth::U8,
            Storage::U16(_) => LabelWidth::U16,
            Storage::U32(_) => LabelWidth::U32,
        }
    }

    fn store(&mut self, i: usize, label: u32)
        requires
            i < old(self).labels().len(),
            label <= old(self).tier().max_label(),
        ensures
            final(self).labels() == old(self).labels().update(i as int, label),
            final(self).tier() == old(self).tier(),
    {
        let ghost before = self.labels();
        match self {
            Storage::U8(v) => {
                v.set(i, label as u8);
            },
            Storage::U16(v) => {
                v.set(i, label as u16);
            },
            Storage::U32(v) => {
                v.set(i, label);
            },
        }
        proof {
            assert(self.labels() =~= before.update(i as int, label));
        }
    }
}

/// A dense, exclusive owner map over the image domain, in row-major order.
#[derive(Debug, Clone, PartialEq, Eq)]
pub struct LabelPlane {
    width: u32,
    height: u32,
    storage: Storage,
}

impl View for LabelPlane {
    type V = Seq<u32>;

    /// The labels in row-major order.
    closed spec fn view(&self) -> Seq<u32> {
        self.storage.labels()
    }
}

impl LabelPlane {
    /// Width in pixels.
    pub closed spec fn spec_width(&self) -> u32 {
        self.width
    }

    /// Height in pixels.
    pub closed spec fn spec_height(&self) -> u32 {
        self.height
    }

    /// The storage width.
    pub closed spec fn tier(&self) -> LabelWidth {
        self.storage.tier()
    }

    /// The plane's internal consistency: one label per pixel, and a byte size
    /// that fits the address space.
    pub closed spec fn wf(&self) -> bool {
        &&& self@.len() == self.width as int * self.height as int
        &&& self@.len() * self.tier().width_bytes() <= usize::MAX
    }

    /// A plane of `width x height` filled with label zero, stored at the
    /// narrowest width for `label_count` distinct labels.
    ///
    /// A zero dimension or an overflowing pixel count is an error; the
    /// allocation itself must be one the allocator can describe.
    pub fn new(width: u32, height: u32, label_count: u64) -> (r: Result<Self, DecodeError>)
        requires
            width as int * height as int <= usize::MAX ==> width as int * height as int
                * LabelWidth::narrowest(label_count).width_bytes() <= isize::MAX,
        ensures
            (width == 0 || height == 0) ==> r == Err::<Self, DecodeError>(DecodeError::EmptyImage),
            (width != 0 && height != 0 && width as int * height as int > usize::MAX) ==> r == Err::<
                Self,
                DecodeError,
            >(DecodeError::DimensionOverflow { width, height }),
            (width != 0 && height != 0 && width as int * height as int <= usize::MAX) ==> r is Ok,
            r matches Ok(p) ==> {
                &&& p.spec_width() == width
                &&& p.spec_height() == height
                &&& p.tier() == LabelWidth::narrowest(label_count)
                &&& p@ == Seq::new((width * height) as nat, |i: int| 0u32)
                &&& p.wf()
            },
    {
        proof {
            let b = LabelWidth::narrowest(label_count).width_bytes() as int;
            assert(width as int * height as int <= width as int * height as int * b) by (nonlinear_arith)
                requires
                    b >= 1,
            ;
        }
        let n = pixel_count(width, height)?;
        let storage = match LabelWidth::for_count(label_count) {
            LabelWidth::U8 => Storage::U8(vec![0u8; n]),
            LabelWidth::U16 => Storage::U16(vec![0u16; n]),
            LabelWidth::U32 => Storage::U32(vec![0u32; n]),
        };
        let plane = LabelPlane { width, height, storage };
        proof {
            assert(plane@ =~= Seq::new((width * height) as nat, |i: int| 0u32));
        }
        Ok(plane)
    }

    /// Width in pixels.
    pub fn width(&self) -> (w: u32)
        ensures
            w == self.spec_width(),
    {
        self.width
    }

    /// Height in pixels.
    pub fn height(&self) -> (h: u32)
        ensures
            h == self.spec_height(),
    {
        self.height
    }

    /// Number of pixels.
    pub fn len(&self) -> (n: usize)
        requires
            self.wf(),
        ensures
            n == self@.len(),
            n == self.spec_width() * self.spec_height(),
    {
        match &self.storage {
            Storage::U8(v) => v.len(),
            Storage::U16(v) => v.len(),
            Storage::U32(v) => v.len(),
        }
    }

    /// Whether the plane holds no pixels.
    pub fn is_empty(&self) -> (b: bool)
        requires
            self.wf(),
        ensures
            b == (self@.len() == 0),
    {
        self.len() == 0
    }

    /// Storage width.
    pub fn label_width(&self) -> (w: LabelWidth)
        ensures
            w == self.tier(),
    {
        match &self.storage {
            Storage::U8(_) => LabelWidth::U8,
            Storage::U16(_) => LabelWidth::U16,
            Storage::U32(_) => LabelWidth::U32,
        }
    }

    /// Bytes this plane occupies: pixels times the storage width.
    pub fn bytes(&self) -> (n: u64)
        requires
            self.wf(),
        ensures
            n == self@.len() * self.tier().width_bytes(),
    {
        usize_to_u64(self.len() * self.label_width().bytes())
    }

    /// Row-major index of `(x, y)`.
    pub fn index(&self, x: u32, y: u32) -> (i: usize)
        requires
            self.wf(),
            x < self.spec_width(),
            y < self.spec_height(),
        ensures
            i == y * self.spec_width() + x,
            i < self@.len(),
    {
        proof {
            lemma_row_major_in_bounds(x as int, y as int, self.width as int, self.height as int);
        }
        u32_to_usize(y) * u32_to_usize(self.width) + u32_to_usize(x)
    }

    /// Whether `(x, y)` is inside the domain.
    pub fn contains(&self, x: u32, y: u32) -> (b: bool)
        ensures
            b == (x < self.spec_width() && y < self.spec_height()),
    {
        x < self.width && y < self.height
    }

    /// Label at flat index `i`.
    pub fn get_index(&self, i: usize) -> (l: LabelId)
        requires
            self.wf(),
            i < self@.len(),
        ensures
            l.0 == self@[i as int],
    {
        match &self.storage {
            Storage::U8(v) => LabelId(v[i] as u32),
            Storage::U16(v) => LabelId(v[i] as u32),
            Storage::U32(v) => LabelId(v[i]),
        }
    }

    /// Label at `(x, y)`.
    pub fn get(&self, x: u32, y: u32) -> (l: LabelId)
        requires
            self.wf(),
            x < self.spec_width(),
            y < self.spec_height(),
        ensures
            l.0 == self@[y * self.spec_width() + x],
    {
        let i = self.index(x, y);
        self.get_index(i)
    }

    /// Set the label at flat index `i`.
    ///
    /// The label must fit the storage width chosen at construction; exceeding
    /// it would be an engine defect.
    pub fn set_index(&mut self, i: usize, label: LabelId)
        requires
            old(self).wf(),
            i < old(self)@.len(),
            label.0 <= old(self).tier().max_label(),
        ensures
            final(self).wf(),
            final(self)@ == old(self)@.update(i as int, label.0),
            final(self).spec_width() == old(self).spec_width(),
            final(self).spec_height() == old(self).spec_height(),
            final(self).tier() == old(self).tier(),
    {
        Storage::store(&mut self.storage, i, label.0);
    }

    /// Set the label at `(x, y)`.
    pub fn set(&mut self, x: u32, y: u32, label: LabelId)
        requires
            old(self).wf(),
            x < old(self).spec_width(),
            y < old(self).spec_height(),
            label.0 <= old(self).tier().max_label(),
        ensures
            final(self).wf(),
            final(self)@ == old(self)@.update(y * old(self).spec_width() + x, label.0),
            final(self).spec_width() == old(self).spec_width(),
            final(self).spec_height() == old(self).spec_height(),
            final(self).tier() == old(self).tier(),
    {
        let i = self.index(x, y);
        self.set_index(i, label);
    }

    /// Every label, in row-major order.
    pub fn iter(&self) -> (labels: Vec<LabelId>)
        requires
            self.wf(),
        ensures
            labels@.len() == self@.len(),
            forall|i: int| 0 <= i < labels@.len() ==> #[trigger] labels@[i].0 == self@[i],
    {
        let n = self.len();
        let mut out: Vec<LabelId> = Vec::with_capacity(n);
        let mut i: usize = 0;
        while i < n
            invariant
                self.wf(),
                n == self@.len(),
                i <= n,
                out@.len() == i,
                forall|k: int| 0 <= k < i ==> #[trigger] out@[k].0 == self@[k],
            decreases n - i,
        {
            out.push(self.get_index(i));
            i = i + 1;
        }
        out
    }

    /// Rewrite every label through `map`, indexed by the old label.
    pub fn remap(&mut self, map: &[LabelId])
        requires
            old(self).wf(),
            forall|i: int| 0 <= i < old(self)@.len() ==> (#[trigger] old(self)@[i]) < map@.len(),
            forall|j: int| 0 <= j < map@.len() ==> (#[trigger] map@[j]).0 <= old(self).tier().max_label(),
        ensures
            final(self).wf(),
            final(self)@.len() == old(self)@.len(),
            forall|i: int| 0 <= i < old(self)@.len() ==> #[trigger] final(self)@[i] == map@[old(self)@[i] as int].0,
            final(self).spec_width() == old(self).spec_width(),
            final(self).spec_height() == old(self).spec_height(),
            final(self).tier() == old(self).tier(),
    {
        let ghost before = self@;
        let n = self.len();
        let mut i: usize = 0;
        while i < n
            invariant
                self.wf(),
                n == self@.len(),
                n == before.len(),
                i <= n,
                self.tier() == old(self).tier(),
                self.spec_width() == old(self).spec_width(),
                self.spec_height() == old(self).spec_height(),
                before == old(self)@,
                forall|k: int| 0 <= k < n ==> (#[trigger] before[k]) < map@.len(),
                forall|j: int| 0 <= j < map@.len() ==> (#[trigger] map@[j]).0 <= self.tier().max_label(),
                forall|k: int| 0 <= k < i ==> #[trigger] self@[k] == map@[before[k] as int].0,
                forall|k: int| i <= k < n ==> #[trigger] self@[k] == before[k],
            decreases n - i,
        {
            let old_label = self.get_index(i);
            let new_label = map[old_label.index()];
            self.set_index(i, new_label);
            i = i + 1;
        }
    }

    /// How many pixels carry each of the first `label_count` labels.
    ///
    /// Linear in the pixel count, with space proportional to the label count.
    pub fn histogram(&self, label_count: usize) -> (counts: Vec<u64>)
        requires
            self.wf(),
            forall|i: int| 0 <= i < self@.len() ==> (#[trigger] self@[i]) < label_count,
        ensures
            counts@.len() == label_count,
            forall|l: int| 0 <= l < label_count ==> #[trigger] counts@[l] == count_label(self@, l),
    {
        let n = self.len();
        let mut counts: Vec<u64> = vec![0u64; label_count];
        let mut i: usize = 0;
        while i < n
            invariant
                self.wf(),
                n == self@.len(),
                i <= n,
                counts@.len() == label_count,
                forall|k: int| 0 <= k < n ==> (#[trigger] self@[k]) < label_count,
                forall|l: int| 0 <= l < label_count ==> #[trigger] counts@[l] == count_label(self@.take(i as int), l),
            decreases n - i,
        {
            let label = self.get_index(i).index();
            proof {
                assert(self@.take(i as int + 1).drop_last() =~= self@.take(i as int));
                lemma_count_label_bound(self@.take(i as int), label as int);
            }
            counts.set(label, counts[label] + 1);
            proof {
                assert forall|l: int| 0 <= l < label_count implies #[trigger] counts@[l]
                    == count_label(self@.take(i as int + 1), l) by {
                    assert(self@.take(i as int + 1).last() == self@[i as int]);
                }
            }
            i = i + 1;
        }
        proof {
            assert(self@.take(n as int) =~= self@);
        }
        counts
    }
}

/// How many entries of `labels` equal `label`.
pub open spec fn count_label(labels: Seq<u32>, label: int) -> nat
    decreases labels.len(),
{
    if labels.len() == 0 {
        0
    } else {
        count_label(labels.drop_last(), label) + if labels.last() as int == label {
            1nat
        } else {
            0nat
        }
    }
}

proof fn lemma_count_label_bound(labels: Seq<u32>, label: int)
    ensures
        count_label(labels, label) <= labels.len(),
    decreases labels.len(),
{
    if labels.len() > 0 {
        lemma_count_label_bound(labels.drop_last(), label);
    }
}

proof fn lemma_row_major_in_bounds(x: int, y: int, w: int, h: int)
    requires
        0 <= x < w,
        0 <= y < h,
    ensures
        0 <= y * w + x < w * h,
{
    assert(y * w + x < w * h) by (nonlinear_arith)
        requires
            0 <= x < w,
            0 <= y < h,
    ;
    assert(0 <= y * w) by (nonlinear_arith)
        requires
            0 <= y,
            0 <= w,
    ;
}

/// Pixels counted under labels below `k`: the sum of a histogram's first `k`
/// counts.
pub open spec fn counted(labels: Seq<u32>, k: nat) -> nat
    decreases k,
{
    if k == 0 {
        0
    } else {
        counted(labels, (k - 1) as nat) + count_label(labels, k - 1)
    }
}

proof fn lemma_counted_step(labels: Seq<u32>, k: nat)
    requires
        labels.len() > 0,
    ensures
        counted(labels, k) == counted(labels.drop_last(), k) + if labels.last() < k {
            1nat
        } else {
            0nat
        },
    decreases k,
{
    if k > 0 {
        lemma_counted_step(labels, (k - 1) as nat);
    }
}

/// A histogram counts every pixel exactly once: when every label is below
/// `k`, the first `k` counts add up to the number of pixels.
pub proof fn law_histogram_counts_every_pixel(labels: Seq<u32>, k: nat)
    requires
        forall|i: int| 0 <= i < labels.len() ==> (#[trigger] labels[i]) < k,
    ensures
        counted(labels, k) == labels.len(),
    decreases labels.len(),
{
    if labels.len() > 0 {
        lemma_counted_step(labels, k);
        assert(labels.last() == labels[labels.len() - 1]);
        assert forall|i: int| 0 <= i < labels.drop_last().len() implies (#[trigger] labels.drop_last()[i]) < k by {
            assert(labels.drop_last()[i] == labels[i]);
        }
        law_histogram_counts_every_pixel(labels.drop_last(), k);
    } else {
        lemma_counted_empty(labels, k);
    }
}

proof fn lemma_counted_empty(labels: Seq<u32>, k: nat)
    requires
        labels.len() == 0,
    ensures
        counted(labels, k) == 0,
    decreases k,
{
    if k > 0 {
        lemma_counted_empty(labels, (k - 1) as nat);
    }
}

} // verus!
