//! The shared topology: identifiers, vertices, shared edges, half-edges,
//! faces and cycles, held in one arena.
//!
//! An interface between two faces is one shared edge with one curve chain;
//! the two incident faces reference it through twin half-edges, one traversing
//! the chain forwards and the other in reverse, so independent geometry for
//! the two sides is not representable. Every reference is an index, assigned
//! in a deterministic order derived from raster or topological position,
//! never allocation order. Positions, chain coordinates and confidences are
//! type parameters, as in [`CurveChain`]: nothing here computes with them.

use vstd::prelude::*;
use super::geom::{
    CurveChain, PathSegment, chain_end, law_reversal_is_an_involution, reversed_segments,
    segment_points,
};

verus! {

/// A junction, corner pin, or image-domain corner.
#[derive(Debug, Clone, Copy, PartialEq, Eq, PartialOrd, Ord, Hash, Structural)]
pub struct VertexId(pub u32);

impl VertexId {
    /// The raw index.
    pub fn index(self) -> (i: usize)
        ensures
            i == self.0,
    {
        self.0 as usize
    }
}

/// One oriented side of a shared edge.
#[derive(Debug, Clone, Copy, PartialEq, Eq, PartialOrd, Ord, Hash, Structural)]
pub struct HalfEdgeId(pub u32);

impl HalfEdgeId {
    /// The raw index.
    pub fn index(self) -> (i: usize)
        ensures
            i == self.0,
    {
        self.0 as usize
    }
}

/// An undirected interface between two faces.
#[derive(Debug, Clone, Copy, PartialEq, Eq, PartialOrd, Ord, Hash, Structural)]
pub struct EdgeId(pub u32);

impl EdgeId {
    /// The raw index.
    pub fn index(self) -> (i: usize)
        ensures
            i == self.0,
    {
        self.0 as usize
    }
}

/// A filled region, or the exterior.
#[derive(Debug, Clone, Copy, PartialEq, Eq, PartialOrd, Ord, Hash, Structural)]
pub struct FaceId(pub u32);

impl FaceId {
    /// The raw index.
    pub fn index(self) -> (i: usize)
        ensures
            i == self.0,
    {
        self.0 as usize
    }
}

/// One shared curve chain.
#[derive(Debug, Clone, Copy, PartialEq, Eq, PartialOrd, Ord, Hash, Structural)]
pub struct ChainId(pub u32);

impl ChainId {
    /// The raw index.
    pub fn index(self) -> (i: usize)
        ensures
            i == self.0,
    {
        self.0 as usize
    }
}

/// A region of the raster partition.
#[derive(Debug, Clone, Copy, PartialEq, Eq, PartialOrd, Ord, Hash, Structural)]
pub struct RegionId(pub u32);

impl RegionId {
    /// The raw index.
    pub fn index(self) -> (i: usize)
        ensures
            i == self.0,
    {
        self.0 as usize
    }
}

/// A palette entry.
#[derive(Debug, Clone, Copy, PartialEq, Eq, PartialOrd, Ord, Hash, Structural)]
pub struct PaletteId(pub u32);

impl PaletteId {
    /// The raw index.
    pub fn index(self) -> (i: usize)
        ensures
            i == self.0,
    {
        self.0 as usize
    }
}

impl FaceId {
    /// The exterior face: an explicit face, always index 0, so a domain-border
    /// half-edge always has a twin to point at.
    pub fn exterior() -> (f: FaceId)
        ensures
            f.0 == 0,
    {
        FaceId(0)
    }

    /// Whether this is the exterior face.
    pub fn is_exterior(self) -> (b: bool)
        ensures
            b == (self.0 == 0),
    {
        self.0 == 0
    }
}

/// Where a boundary's position came from.
#[derive(Debug, Clone, Copy, PartialEq, Eq, Structural)]
pub enum BoundaryEvidence {
    /// Antialias coverage was inverted to a subpixel offset.
    CoverageReconstructed,
    /// The boundary sits on the pixel-cell interface.
    CrispGrid,
    /// Coverage was attempted and rejected; the geometric estimate stands.
    LowConfidenceFallback,
    /// Pixel-art connectivity policy decided it.
    PixelArtPolicy,
}

impl BoundaryEvidence {
    /// The report identifier of each kind of evidence.
    pub open spec fn name(self) -> &'static str {
        match self {
            BoundaryEvidence::CoverageReconstructed => "coverage_reconstructed",
            BoundaryEvidence::CrispGrid => "crisp_grid",
            BoundaryEvidence::LowConfidenceFallback => "low_confidence_fallback",
            BoundaryEvidence::PixelArtPolicy => "pixel_art_policy",
        }
    }

    /// Stable identifier for the report.
    pub fn as_str(self) -> (s: &'static str)
        ensures
            s == self.name(),
    {
        match self {
            BoundaryEvidence::CoverageReconstructed => "coverage_reconstructed",
            BoundaryEvidence::CrispGrid => "crisp_grid",
            BoundaryEvidence::LowConfidenceFallback => "low_confidence_fallback",
            BoundaryEvidence::PixelArtPolicy => "pixel_art_policy",
        }
    }
}

/// Properties of a shared edge that the fitter and serialiser must respect.
#[derive(Debug, Clone, Copy, PartialEq, Eq, Default)]
pub struct EdgeFlags {
    /// The edge lies on the image domain border and twins the exterior face.
    pub domain_border: bool,
    /// The edge separates two distinct pinned palette identities and must not
    /// be simplified across.
    pub pinned_interface: bool,
    /// A profile marked this interface for once-only emission.
    pub visible_interface: bool,
}

/// One oriented side of a shared edge.
#[derive(Debug, Clone, Copy, PartialEq, Eq)]
pub struct HalfEdge {
    /// Where this traversal begins.
    pub origin: VertexId,
    /// The opposite traversal. Always exists.
    pub twin: HalfEdgeId,
    /// Next half-edge around the incident face.
    pub next: HalfEdgeId,
    /// Previous half-edge around the incident face.
    pub prev: HalfEdgeId,
    /// The face this traversal borders.
    pub face: FaceId,
    /// The undirected edge.
    pub edge: EdgeId,
    /// Whether this traversal follows the chain as stored, or reversed.
    pub forward: bool,
}

/// Whether a face cycle is an outer boundary or a hole.
#[derive(Debug, Clone, Copy, PartialEq, Eq, Structural)]
pub enum CycleKind {
    /// The outer boundary of the face.
    Outer,
    /// A hole inside the face.
    Hole,
}

/// One closed traversal around a face.
#[derive(Debug, Clone, Copy, PartialEq, Eq)]
pub struct Cycle {
    /// Any half-edge on the cycle; traversal starts here.
    pub start: HalfEdgeId,
    /// Outer boundary or hole.
    pub kind: CycleKind,
}

/// A face: one filled region, or the exterior.
#[derive(Debug, Clone, PartialEq, Eq)]
pub struct Face {
    /// Stable identifier.
    pub id: FaceId,
    /// Palette entry that paints this face, or `None` for the exterior.
    pub palette: Option<PaletteId>,
    /// Whether this is the exterior face.
    pub exterior: bool,
    /// The raster region this face came from.
    pub region: RegionId,
    /// Outer boundary first, then holes.
    pub cycles: Vec<Cycle>,
    /// Raster area in pixels, carried for the report and for area gates.
    pub area_pixels: u64,
}

/// How sure the engine is of a boundary's position: a confidence `C` in
/// `[0, 1]`, and what produced the position.
#[derive(Debug, Clone, Copy, PartialEq)]
pub struct BoundaryConfidence<C> {
    /// Confidence in `[0, 1]`.
    pub value: C,
    /// What produced the position.
    pub evidence: BoundaryEvidence,
}

/// An undirected interface between exactly two faces, drawn by one chain.
#[derive(Debug, Clone, Copy, PartialEq)]
pub struct SharedEdge<C> {
    /// Stable identifier.
    pub id: EdgeId,
    /// Face on the left of the forward traversal.
    pub left_face: FaceId,
    /// Face on the right of the forward traversal.
    pub right_face: FaceId,
    /// The one curve chain, traversed forwards from `start` to `end`.
    pub geometry: ChainId,
    /// Where the chain starts.
    pub start: VertexId,
    /// Where the chain ends.
    pub end: VertexId,
    /// Position confidence.
    pub confidence: BoundaryConfidence<C>,
    /// Fitting and emission flags.
    pub flags: EdgeFlags,
}

impl<C> SharedEdge<C> {
    /// The two faces in canonical order, so `(A, B)` and `(B, A)` name the
    /// same interface.
    pub fn face_pair(&self) -> (p: (FaceId, FaceId))
        ensures
            p == (if self.left_face.0 <= self.right_face.0 {
                (self.left_face, self.right_face)
            } else {
                (self.right_face, self.left_face)
            }),
    {
        if self.left_face.0 <= self.right_face.0 {
            (self.left_face, self.right_face)
        } else {
            (self.right_face, self.left_face)
        }
    }
}

/// A vertex of the topology at position `P`.
#[derive(Debug, Clone, Copy, PartialEq)]
pub struct Vertex<P> {
    /// Position.
    pub position: P,
    /// One outgoing half-edge, for starting a traversal.
    pub outgoing: HalfEdgeId,
    /// Degree: how many half-edges leave this vertex.
    pub degree: u32,
}

impl<P> Vertex<P> {
    /// Whether this vertex is a junction rather than a point along a chain:
    /// junctions have a degree other than two.
    pub fn is_junction(&self) -> (b: bool)
        ensures
            b == (self.degree != 2),
    {
        self.degree != 2
    }
}

/// The shared topology of one raster partition.
///
/// Arena-allocated: every reference is an index. The coordinate types are
/// parameters, as for [`CurveChain`], and `C` is the type of a boundary's
/// confidence.
#[derive(Debug, Clone, PartialEq, Default)]
pub struct Topology<P, V, R, C> {
    /// Vertices, indexed by [`VertexId`].
    pub vertices: Vec<Vertex<P>>,
    /// Half-edges, indexed by [`HalfEdgeId`].
    pub half_edges: Vec<HalfEdge>,
    /// Shared edges, indexed by [`EdgeId`].
    pub edges: Vec<SharedEdge<C>>,
    /// Faces, indexed by [`FaceId`]. Index 0 is always the exterior.
    pub faces: Vec<Face>,
    /// Curve chains, indexed by [`ChainId`]. One per shared edge.
    pub chains: Vec<CurveChain<P, V, R>>,
}

/// Every `next` link of `half_edges` names a half-edge that exists.
pub open spec fn links_in_range(half_edges: Seq<HalfEdge>) -> bool {
    forall|i: int| 0 <= i < half_edges.len() ==> (#[trigger] half_edges[i]).next.0 < half_edges.len()
}

/// The half-edge `k` steps along the `next` links from `start`.
pub open spec fn step_from(half_edges: Seq<HalfEdge>, start: HalfEdgeId, k: nat) -> HalfEdgeId
    decreases k,
{
    if k == 0 {
        start
    } else {
        half_edges[step_from(half_edges, start, (k - 1) as nat).0 as int].next
    }
}

/// The faces other than the exterior.
pub open spec fn interior_faces(faces: Seq<Face>) -> Seq<Face> {
    faces.filter(|f: Face| !f.exterior)
}

/// The hole cycles of one face.
pub open spec fn hole_cycles(cycles: Seq<Cycle>) -> nat {
    cycles.filter(|c: Cycle| c.kind == CycleKind::Hole).len()
}

/// Total holes across the interior faces. The exterior's cycles are not
/// counted: the image sits inside the exterior, so each of them would read as
/// a hole for every component of the artwork.
pub open spec fn holes(faces: Seq<Face>) -> nat
    decreases faces.len(),
{
    if faces.len() == 0 {
        0
    } else {
        holes(faces.drop_last()) + if faces.last().exterior {
            0
        } else {
            hole_cycles(faces.last().cycles@)
        }
    }
}

/// Total cycles of every face.
pub open spec fn cycle_total(faces: Seq<Face>) -> nat
    decreases faces.len(),
{
    if faces.len() == 0 {
        0
    } else {
        cycle_total(faces.drop_last()) + faces.last().cycles@.len()
    }
}

proof fn lemma_holes_bounded(faces: Seq<Face>)
    ensures
        holes(faces) <= cycle_total(faces),
    decreases faces.len(),
{
    if faces.len() > 0 {
        lemma_holes_bounded(faces.drop_last());
        faces.last().cycles@.lemma_filter_len(|c: Cycle| c.kind == CycleKind::Hole);
    }
}

proof fn lemma_cycle_total_prefix(faces: Seq<Face>, i: int)
    requires
        0 <= i <= faces.len(),
    ensures
        cycle_total(faces.take(i)) <= cycle_total(faces),
    decreases faces.len() - i,
{
    if i < faces.len() {
        lemma_cycle_total_prefix(faces, i + 1);
        assert(faces.take(i + 1).drop_last() =~= faces.take(i));
    } else {
        assert(faces.take(i) =~= faces);
    }
}

/// Number of hole cycles of one face.
fn count_holes(cycles: &Vec<Cycle>) -> (n: usize)
    ensures
        n == hole_cycles(cycles@),
{
    let mut count: usize = 0;
    let mut i: usize = 0;
    proof {
        assert(cycles@.take(0).filter(|c: Cycle| c.kind == CycleKind::Hole) =~= Seq::<Cycle>::empty()) by {
            reveal(Seq::filter);
        }
    }
    while i < cycles.len()
        invariant
            i <= cycles@.len(),
            count == cycles@.take(i as int).filter(|c: Cycle| c.kind == CycleKind::Hole).len(),
            count <= i,
        decreases cycles@.len() - i,
    {
        proof {
            assert(cycles@.take(i + 1) =~= cycles@.take(i as int).push(cycles@[i as int]));
            broadcast use Seq::lemma_filter_push;
        }
        if cycles[i].kind == CycleKind::Hole {
            count += 1;
        }
        i += 1;
    }
    proof {
        assert(cycles@.take(cycles@.len() as int) =~= cycles@);
    }
    count
}

/// A chain, as its start and segments, traversed backwards.
pub open spec fn reverse_parts<P: Copy, V: Copy, R: Copy>(
    parts: (P, Seq<PathSegment<P, V, R>>),
) -> (P, Seq<PathSegment<P, V, R>>) {
    (chain_end(parts.0, parts.1), reversed_segments(parts.0, parts.1))
}

/// The geometry a half-edge traverses: its edge's one chain, forwards or
/// reversed.
pub open spec fn oriented<P: Copy, V: Copy, R: Copy, C>(
    half_edge: HalfEdge,
    edges: Seq<SharedEdge<C>>,
    chains: Seq<CurveChain<P, V, R>>,
) -> (P, Seq<PathSegment<P, V, R>>) {
    let c = chains[edges[half_edge.edge.0 as int].geometry.0 as int];
    if half_edge.forward {
        c.parts()
    } else {
        reverse_parts(c.parts())
    }
}

/// The two sides of an interface are the same numbers, one of them reversed:
/// twin half-edges of one edge with opposite directions traverse exact
/// reverses of one stored chain.
pub proof fn law_twins_traverse_one_chain<P: Copy, V: Copy, R: Copy, C>(
    side: HalfEdge,
    twin: HalfEdge,
    edges: Seq<SharedEdge<C>>,
    chains: Seq<CurveChain<P, V, R>>,
)
    requires
        side.edge == twin.edge,
        side.forward != twin.forward,
    ensures
        oriented(twin, edges, chains) == reverse_parts(oriented(side, edges, chains)),
{
    let c = chains[edges[side.edge.0 as int].geometry.0 as int];
    law_reversal_is_an_involution(c.start, c.segments@);
}

fn copy_chain<P: Copy, V: Copy, R: Copy>(chain: &CurveChain<P, V, R>) -> (c: CurveChain<P, V, R>)
    ensures
        c.parts() == chain.parts(),
{
    let mut segments: Vec<PathSegment<P, V, R>> = Vec::new();
    let mut i: usize = 0;
    while i < chain.segments.len()
        invariant
            i <= chain.segments@.len(),
            segments@ == chain.segments@.take(i as int),
        decreases chain.segments@.len() - i,
    {
        segments.push(chain.segments[i]);
        proof {
            assert(chain.segments@.take(i + 1) =~= chain.segments@.take(i as int).push(chain.segments@[i as int]));
        }
        i += 1;
    }
    proof {
        assert(chain.segments@.take(chain.segments@.len() as int) =~= chain.segments@);
    }
    CurveChain { start: chain.start, segments }
}

/// How many of the vertices are junctions.
pub open spec fn junctions<P>(vertices: Seq<Vertex<P>>) -> nat
    decreases vertices.len(),
{
    if vertices.len() == 0 {
        0
    } else {
        junctions(vertices.drop_last()) + if vertices.last().degree != 2 {
            1nat
        } else {
            0nat
        }
    }
}

/// Total control points of the chains: each chain's start and its segments'.
pub open spec fn chains_points<P: Copy, V: Copy, R: Copy>(chains: Seq<CurveChain<P, V, R>>) -> nat
    decreases chains.len(),
{
    if chains.len() == 0 {
        0
    } else {
        chains_points(chains.drop_last()) + 1 + segment_points(chains.last().segments@)
    }
}

proof fn lemma_chains_points_prefix<P: Copy, V: Copy, R: Copy>(chains: Seq<CurveChain<P, V, R>>, i: int)
    requires
        0 <= i <= chains.len(),
    ensures
        chains_points(chains.take(i)) <= chains_points(chains),
    decreases chains.len() - i,
{
    if i < chains.len() {
        lemma_chains_points_prefix(chains, i + 1);
        assert(chains.take(i + 1).drop_last() =~= chains.take(i));
    } else {
        assert(chains.take(i) =~= chains);
    }
}

impl<P: Copy, V: Copy, R: Copy, C> Topology<P, V, R, C> {
    /// The chain for `half_edge`, oriented for that traversal: the only way a
    /// face gets its geometry, and why the two sides of an interface cannot
    /// drift apart.
    pub fn oriented_chain(&self, half_edge: HalfEdgeId) -> (c: CurveChain<P, V, R>)
        requires
            half_edge.0 < self.half_edges@.len(),
            self.half_edges@[half_edge.0 as int].edge.0 < self.edges@.len(),
            self.edges@[self.half_edges@[half_edge.0 as int].edge.0 as int].geometry.0 < self.chains@.len(),
        ensures
            c.parts() == oriented(self.half_edges@[half_edge.0 as int], self.edges@, self.chains@),
    {
        let he = self.half_edges[half_edge.index()];
        let chain = &self.chains[self.edges[he.edge.index()].geometry.index()];
        if he.forward {
            copy_chain(chain)
        } else {
            chain.reversed()
        }
    }

    /// Walk a cycle, listing its half-edges in order from `start` until the
    /// next link returns to `start`.
    ///
    /// The walk stops after one more step than there are half-edges, so a
    /// corrupt `next` chain produces a finite result a validator can report
    /// rather than a hang.
    pub fn walk_cycle(&self, start: HalfEdgeId) -> (walk: Vec<HalfEdgeId>)
        requires
            start.0 < self.half_edges@.len(),
            links_in_range(self.half_edges@),
        ensures
            1 <= walk@.len() <= self.half_edges@.len() + 1,
            forall|k: int| 0 <= k < walk@.len() ==> (#[trigger] walk@[k]).0 < self.half_edges@.len(),
            forall|k: int|
                0 <= k < walk@.len() ==> #[trigger] walk@[k] == step_from(self.half_edges@, start, k as nat),
            forall|k: int|
                0 <= k < walk@.len() - 1 ==> self.half_edges@[walk@[k].0 as int].next != start,
            self.half_edges@[walk@[walk@.len() - 1].0 as int].next == start || walk@.len()
                == self.half_edges@.len() + 1,
    {
        let n = self.half_edges.len();
        let mut out: Vec<HalfEdgeId> = Vec::new();
        let mut current = start;
        let mut steps: usize = 0;
        loop
            invariant
                n == self.half_edges@.len(),
                links_in_range(self.half_edges@),
                start.0 < n,
                steps <= n,
                out@.len() == steps,
                current.0 < n,
                current == step_from(self.half_edges@, start, steps as nat),
                forall|k: int|
                    0 <= k < out@.len() ==> #[trigger] out@[k] == step_from(self.half_edges@, start, k as nat),
                forall|k: int| 0 <= k < out@.len() ==> (#[trigger] out@[k]).0 < n,
                forall|k: int| 0 <= k < out@.len() ==> self.half_edges@[out@[k].0 as int].next != start,
            decreases n - steps,
        {
            out.push(current);
            let next = self.half_edges[current.index()].next;
            if next == start || steps == n {
                return out;
            }
            current = next;
            steps += 1;
        }
    }

    /// Number of faces excluding the exterior.
    pub fn interior_face_count(&self) -> (n: usize)
        ensures
            n == interior_faces(self.faces@).len(),
    {
        let mut count: usize = 0;
        let mut i: usize = 0;
        proof {
            assert(self.faces@.take(0).filter(|f: Face| !f.exterior) =~= Seq::<Face>::empty()) by {
                reveal(Seq::filter);
            }
        }
        while i < self.faces.len()
            invariant
                i <= self.faces@.len(),
                count == self.faces@.take(i as int).filter(|f: Face| !f.exterior).len(),
                count <= i,
            decreases self.faces@.len() - i,
        {
            proof {
                assert(self.faces@.take(i + 1) =~= self.faces@.take(i as int).push(self.faces@[i as int]));
                broadcast use Seq::lemma_filter_push;
            }
            if !self.faces[i].exterior {
                count += 1;
            }
            i += 1;
        }
        proof {
            assert(self.faces@.take(self.faces@.len() as int) =~= self.faces@);
        }
        count
    }

    /// Number of junction vertices.
    pub fn junction_count(&self) -> (n: usize)
        ensures
            n == junctions(self.vertices@),
    {
        let mut count: usize = 0;
        let mut i: usize = 0;
        while i < self.vertices.len()
            invariant
                i <= self.vertices@.len(),
                count == junctions(self.vertices@.take(i as int)),
                count <= i,
            decreases self.vertices@.len() - i,
        {
            proof {
                assert(self.vertices@.take(i + 1).drop_last() =~= self.vertices@.take(i as int));
            }
            if self.vertices[i].is_junction() {
                count += 1;
            }
            i += 1;
        }
        proof {
            assert(self.vertices@.take(self.vertices@.len() as int) =~= self.vertices@);
        }
        count
    }

    /// Total control points across all chains.
    pub fn control_point_count(&self) -> (n: u32)
        requires
            chains_points(self.chains@) <= u32::MAX,
        ensures
            n == chains_points(self.chains@),
    {
        let mut total: u32 = 0;
        let mut i: usize = 0;
        while i < self.chains.len()
            invariant
                i <= self.chains@.len(),
                chains_points(self.chains@) <= u32::MAX,
                total == chains_points(self.chains@.take(i as int)),
            decreases self.chains@.len() - i,
        {
            proof {
                assert(self.chains@.take(i + 1).drop_last() =~= self.chains@.take(i as int));
                lemma_chains_points_prefix(self.chains@, i + 1);
            }
            let k = self.chains[i].control_point_count();
            total = total + k;
            i += 1;
        }
        proof {
            assert(self.chains@.take(self.chains@.len() as int) =~= self.chains@);
        }
        total
    }

    /// Total holes across the interior faces.
    pub fn hole_count(&self) -> (n: usize)
        requires
            cycle_total(self.faces@) <= usize::MAX,
        ensures
            n == holes(self.faces@),
    {
        let mut count: usize = 0;
        let mut i: usize = 0;
        while i < self.faces.len()
            invariant
                i <= self.faces@.len(),
                cycle_total(self.faces@) <= usize::MAX,
                count == holes(self.faces@.take(i as int)),
            decreases self.faces@.len() - i,
        {
            proof {
                assert(self.faces@.take(i + 1).drop_last() =~= self.faces@.take(i as int));
                lemma_holes_bounded(self.faces@.take(i + 1));
                lemma_cycle_total_prefix(self.faces@, i + 1);
            }
            if !self.faces[i].exterior {
                let h = count_holes(&self.faces[i].cycles);
                count = count + h;
            }
            i += 1;
        }
        proof {
            assert(self.faces@.take(self.faces@.len() as int) =~= self.faces@);
        }
        count
    }
}

} // verus!
