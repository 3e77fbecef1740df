//! Curve chains and their exact reversal.
//!
//! A shared edge owns one chain; both incident faces reference it, one
//! traversing it forwards and the other backwards. Reversal copies
//! coordinates and recomputes nothing, so reversing twice is the identity and
//! the two faces of a shared edge are drawn from identical numbers. The
//! coordinate types are parameters: `P` for points, `V` for an arc's radii
//! and `R` for its rotation. Reversal only moves them.

use vstd::prelude::*;

verus! {

/// One segment of a path. Its start is the previous segment's end, or the
/// chain's start.
#[derive(Debug, Clone, Copy, PartialEq)]
pub enum PathSegment<P, V, R> {
    /// Straight line to `to`.
    Line {
        /// End point.
        to: P,
    },
    /// Cubic Bézier with control points `c1` and `c2`.
    Cubic {
        /// First control point.
        c1: P,
        /// Second control point.
        c2: P,
        /// End point.
        to: P,
    },
    /// Elliptical arc, in SVG's parameterisation.
    Arc {
        /// Semi-axes.
        radii: V,
        /// X-axis rotation, in radians.
        rotation: R,
        /// Large-arc flag.
        large: bool,
        /// Sweep flag.
        sweep: bool,
        /// End point.
        to: P,
    },
}

impl<P: Copy, V: Copy, R: Copy> PathSegment<P, V, R> {
    /// Where the segment ends.
    pub open spec fn end_point(self) -> P {
        match self {
            PathSegment::Line { to } => to,
            PathSegment::Cubic { to, .. } => to,
            PathSegment::Arc { to, .. } => to,
        }
    }

    /// The segment's end point.
    pub fn end(&self) -> (p: P)
        ensures
            p == self.end_point(),
    {
        match self {
            PathSegment::Line { to } => *to,
            PathSegment::Cubic { to, .. } => *to,
            PathSegment::Arc { to, .. } => *to,
        }
    }

    /// Control points the segment contributes to the node count.
    pub open spec fn points(self) -> nat {
        match self {
            PathSegment::Cubic { .. } => 3,
            _ => 1,
        }
    }

    /// Number of control points this segment contributes to the complexity
    /// report: three for a cubic, one otherwise.
    pub fn control_point_count(&self) -> (n: u32)
        ensures
            n == self.points(),
    {
        match self {
            PathSegment::Cubic { .. } => 3,
            _ => 1,
        }
    }

    /// The same segment traversed backwards, ending at `from`: a cubic's
    /// controls swap, an arc keeps its large-arc flag and flips its sweep.
    pub open spec fn flipped(self, from: P) -> PathSegment<P, V, R> {
        match self {
            PathSegment::Line { .. } => PathSegment::Line { to: from },
            PathSegment::Cubic { c1, c2, .. } => PathSegment::Cubic { c1: c2, c2: c1, to: from },
            PathSegment::Arc { radii, rotation, large, sweep, .. } => PathSegment::Arc {
                radii,
                rotation,
                large,
                sweep: !sweep,
                to: from,
            },
        }
    }
}

/// A polyline or curve chain: a start point followed by segments.
#[derive(Debug, Clone, PartialEq)]
pub struct CurveChain<P, V, R> {
    /// Where the chain begins.
    pub start: P,
    /// Segments in order.
    pub segments: Vec<PathSegment<P, V, R>>,
}

/// The `i`-th vertex of a chain: its start, then each segment's end.
pub open spec fn vertex<P: Copy, V: Copy, R: Copy>(
    start: P,
    segments: Seq<PathSegment<P, V, R>>,
    i: int,
) -> P {
    if i == 0 {
        start
    } else {
        segments[i - 1].end_point()
    }
}

/// Where a chain ends.
pub open spec fn chain_end<P: Copy, V: Copy, R: Copy>(start: P, segments: Seq<PathSegment<P, V, R>>) -> P {
    vertex(start, segments, segments.len() as int)
}

/// The segments of a chain traversed backwards.
pub open spec fn reversed_segments<P: Copy, V: Copy, R: Copy>(
    start: P,
    segments: Seq<PathSegment<P, V, R>>,
) -> Seq<PathSegment<P, V, R>> {
    let n = segments.len() as int;
    Seq::new(segments.len(), |j: int| segments[n - 1 - j].flipped(vertex(start, segments, n - 1 - j)))
}

/// The segments needed for `count` control points in all.
pub open spec fn segment_points<P: Copy, V: Copy, R: Copy>(segments: Seq<PathSegment<P, V, R>>) -> nat
    decreases segments.len(),
{
    if segments.len() == 0 {
        0
    } else {
        segment_points(segments.drop_last()) + segments.last().points()
    }
}

impl<P: Copy, V: Copy, R: Copy> CurveChain<P, V, R> {
    /// The chain as its start and its segments.
    pub open spec fn parts(&self) -> (P, Seq<PathSegment<P, V, R>>) {
        (self.start, self.segments@)
    }

    /// An empty chain starting at `start`.
    pub fn new(start: P) -> (c: Self)
        ensures
            c.start == start,
            c.segments@.len() == 0,
    {
        CurveChain { start, segments: Vec::new() }
    }

    /// A chain of straight lines through `points`, or `None` for fewer than
    /// two points: a chain with no segments has no direction to reverse.
    pub fn polyline(points: &[P]) -> (r: Option<Self>)
        ensures
            points@.len() < 2 ==> r is None,
            points@.len() >= 2 ==> (r matches Some(c) && c.start == points@[0] && c.segments@.len()
                == points@.len() - 1 && forall|k: int|
                0 <= k < c.segments@.len() ==> #[trigger] c.segments@[k] == (PathSegment::<P, V, R>::Line {
                    to: points@[k + 1],
                })),
    {
        if points.len() < 2 {
            return None;
        }
        let mut segments: Vec<PathSegment<P, V, R>> = Vec::new();
        let mut i: usize = 1;
        while i < points.len()
            invariant
                1 <= i <= points@.len(),
                segments@.len() == i - 1,
                forall|k: int|
                    0 <= k < segments@.len() ==> #[trigger] segments@[k] == (PathSegment::<P, V, R>::Line {
                        to: points@[k + 1],
                    }),
            decreases points@.len() - i,
        {
            segments.push(PathSegment::Line { to: points[i] });
            i += 1;
        }
        Some(CurveChain { start: points[0], segments })
    }

    /// The chain's end point.
    pub fn end(&self) -> (p: P)
        ensures
            p == chain_end(self.start, self.segments@),
    {
        let n = self.segments.len();
        if n == 0 {
            self.start
        } else {
            self.segments[n - 1].end()
        }
    }

    /// The same geometry traversed backwards.
    ///
    /// Reversing a face traversal reverses the same chain; it does not clone
    /// and refit it. Control points swap and coordinates are copied, so
    /// reversing twice gives back the chain exactly.
    pub fn reversed(&self) -> (r: Self)
        ensures
            r.start == chain_end(self.start, self.segments@),
            r.segments@ == reversed_segments(self.start, self.segments@),
    {
        let n = self.segments.len();
        let mut points: Vec<P> = Vec::new();
        points.push(self.start);
        let mut i: usize = 0;
        while i < n
            invariant
                n == self.segments@.len(),
                i <= n,
                points@.len() == i + 1,
                forall|k: int| 0 <= k <= i ==> #[trigger] points@[k] == vertex(self.start, self.segments@, k),
            decreases n - i,
        {
            points.push(self.segments[i].end());
            i += 1;
        }
        let mut segments: Vec<PathSegment<P, V, R>> = Vec::new();
        let mut j: usize = 0;
        while j < n
            invariant
                n == self.segments@.len(),
                j <= n,
                points@.len() == n + 1,
                forall|k: int| 0 <= k <= n ==> #[trigger] points@[k] == vertex(self.start, self.segments@, k),
                segments@ == reversed_segments(self.start, self.segments@).take(j as int),
            decreases n - j,
        {
            let i = n - 1 - j;
            let from = points[i];
            let seg = match self.segments[i] {
                PathSegment::Line { .. } => PathSegment::Line { to: from },
                PathSegment::Cubic { c1, c2, .. } => PathSegment::Cubic { c1: c2, c2: c1, to: from },
                PathSegment::Arc { radii, rotation, large, sweep, .. } => PathSegment::Arc {
                    radii,
                    rotation,
                    large,
                    sweep: !sweep,
                    to: from,
                },
            };
            segments.push(seg);
            proof {
                assert(reversed_segments(self.start, self.segments@).take(j + 1) =~= reversed_segments(
                    self.start,
                    self.segments@,
                ).take(j as int).push(seg));
            }
            j += 1;
        }
        proof {
            assert(reversed_segments(self.start, self.segments@).take(n as int) =~= reversed_segments(
                self.start,
                self.segments@,
            ));
        }
        CurveChain { start: points[n], segments }
    }

    /// Total control points, for the complexity report: the start plus each
    /// segment's.
    pub fn control_point_count(&self) -> (n: u32)
        requires
            1 + segment_points(self.segments@) <= u32::MAX,
        ensures
            n == 1 + segment_points(self.segments@),
    {
        let mut total: u32 = 1;
        let mut i: usize = 0;
        while i < self.segments.len()
            invariant
                i <= self.segments@.len(),
                1 + segment_points(self.segments@) <= u32::MAX,
                total == 1 + segment_points(self.segments@.take(i as int)),
            decreases self.segments@.len() - i,
        {
            proof {
                assert(self.segments@.take(i + 1).drop_last() =~= self.segments@.take(i as int));
                lemma_segment_points_prefix(self.segments@, i + 1);
            }
            total = total + self.segments[i].control_point_count();
            i += 1;
        }
        proof {
            assert(self.segments@.take(self.segments@.len() as int) =~= self.segments@);
        }
        total
    }
}

proof fn lemma_segment_points_prefix<P: Copy, V: Copy, R: Copy>(segments: Seq<PathSegment<P, V, R>>, i: int)
    requires
        0 <= i <= segments.len(),
    ensures
        segment_points(segments.take(i)) <= segment_points(segments),
    decreases segments.len() - i,
{
    if i < segments.len() {
        lemma_segment_points_prefix(segments, i + 1);
        assert(segments.take(i + 1).drop_last() =~= segments.take(i));
    } else {
        assert(segments.take(i) =~= segments);
    }
}

/// Reversing a chain twice gives back the chain exactly: start, every
/// segment kind, every control point and every arc flag.
pub proof fn law_reversal_is_an_involution<P: Copy, V: Copy, R: Copy>(
    start: P,
    segments: Seq<PathSegment<P, V, R>>,
)
    ensures
        chain_end(chain_end(start, segments), reversed_segments(start, segments)) == start,
        reversed_segments(chain_end(start, segments), reversed_segments(start, segments)) == segments,
{
    let n = segments.len() as int;
    let end = chain_end(start, segments);
    let rev = reversed_segments(start, segments);
    assert forall|k: int| 0 <= k <= n implies #[trigger] vertex(end, rev, k) == vertex(start, segments, n - k) by {
        if k > 0 {
            assert(rev[k - 1] == segments[n - k].flipped(vertex(start, segments, n - k)));
        }
    }
    assert(vertex(end, rev, n) == vertex(start, segments, 0));
    let twice = reversed_segments(end, rev);
    assert forall|j: int| 0 <= j < n implies #[trigger] twice[j] == segments[j] by {
        assert(vertex(end, rev, n - 1 - j) == vertex(start, segments, j + 1));
        assert(rev[n - 1 - j] == segments[j].flipped(vertex(start, segments, j)));
    }
    assert(twice =~= segments);
}

/// A reversed chain starts where the original ends and ends where it starts.
pub proof fn law_reversal_swaps_endpoints<P: Copy, V: Copy, R: Copy>(
    start: P,
    segments: Seq<PathSegment<P, V, R>>,
)
    ensures
        chain_end(chain_end(start, segments), reversed_segments(start, segments)) == start,
        reversed_segments(start, segments).len() == segments.len(),
{
    law_reversal_is_an_involution(start, segments);
}

} // verus!
