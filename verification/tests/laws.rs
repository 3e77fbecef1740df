use palette_tracer_engine::checked::{mul_bytes, pixel_count, u32_to_usize, usize_to_u64};
use palette_tracer_engine::color::palette::{best_claim, Claim, ColorCache};
use palette_tracer_engine::determinism::{canonical_pair, Generation, MinHeap, QuantKey};
use palette_tracer_engine::digest::{render_digest, DigestWriter};
use palette_tracer_engine::error::DecodeError;
use palette_tracer_engine::ir::geom::{CurveChain, PathSegment};
use palette_tracer_engine::ir::topology::{
    BoundaryConfidence, BoundaryEvidence, ChainId, Cycle, CycleKind, EdgeFlags, EdgeId, Face,
    FaceId, HalfEdge, HalfEdgeId, PaletteId, RegionId, SharedEdge, Topology, Vertex, VertexId,
};
use palette_tracer_engine::labels::LabelId;
use palette_tracer_engine::render::decimal_string;

type Chain = CurveChain<(i32, i32), (i32, i32), i32>;
type Segment = PathSegment<(i32, i32), (i32, i32), i32>;

fn sample_chain() -> Chain {
    CurveChain {
        start: (1, 2),
        segments: vec![
            Segment::Line { to: (3, 4) },
            Segment::Cubic { c1: (4, 5), c2: (6, 7), to: (8, 9) },
            Segment::Arc { radii: (2, 3), rotation: 5, large: true, sweep: false, to: (10, 11) },
        ],
    }
}

#[test]
fn reversing_twice_is_the_identity_exactly() {
    let chain = sample_chain();
    assert_eq!(chain.reversed().reversed(), chain);
}

#[test]
fn reversal_swaps_endpoints_and_cubic_controls() {
    let chain = sample_chain();
    let r = chain.reversed();
    assert_eq!(r.start, chain.end());
    assert_eq!(r.end(), chain.start);
    assert_eq!(r.segments.len(), chain.segments.len());
    assert_eq!(r.segments[1], Segment::Cubic { c1: (6, 7), c2: (4, 5), to: (3, 4) });
    assert_eq!(r.segments[2], Segment::Line { to: (1, 2) });
}

#[test]
fn reversal_flips_arc_sweep_but_not_large_arc() {
    let r = sample_chain().reversed();
    assert_eq!(
        r.segments[0],
        Segment::Arc { radii: (2, 3), rotation: 5, large: true, sweep: true, to: (8, 9) }
    );
}

#[test]
fn a_polyline_needs_at_least_two_points() {
    assert!(Chain::polyline(&[]).is_none());
    assert!(Chain::polyline(&[(0, 0)]).is_none());
    let c = Chain::polyline(&[(0, 0), (1, 0), (1, 1)]).unwrap();
    assert_eq!(c.segments, vec![Segment::Line { to: (1, 0) }, Segment::Line { to: (1, 1) }]);
    assert_eq!(c.control_point_count(), 3);
    assert_eq!(sample_chain().control_point_count(), 6);
    assert_eq!(Chain::new((5, 5)).end(), (5, 5));
}

type Square = Topology<(i32, i32), (i32, i32), i32, f64>;

/// A two-face topology: one square face inside the exterior, four edges.
fn square_topology() -> Square {
    let corners = [(1, 1), (3, 1), (3, 3), (1, 3)];
    let mut t = Square::default();
    for (i, &p) in corners.iter().enumerate() {
        t.vertices.push(Vertex { position: p, outgoing: HalfEdgeId(2 * i as u32), degree: 2 });
    }
    for i in 0..4u32 {
        let next_corner = (i + 1) % 4;
        t.chains.push(Chain::polyline(&[corners[i as usize], corners[next_corner as usize]]).unwrap());
        t.edges.push(SharedEdge {
            id: EdgeId(i),
            left_face: FaceId(1),
            right_face: FaceId::exterior(),
            geometry: ChainId(i),
            start: VertexId(i),
            end: VertexId(next_corner),
            confidence: BoundaryConfidence { value: 1.0, evidence: BoundaryEvidence::CrispGrid },
            flags: EdgeFlags::default(),
        });
        // Even half-edges bound the square, odd ones bound the exterior.
        t.half_edges.push(HalfEdge {
            origin: VertexId(i),
            twin: HalfEdgeId(2 * i + 1),
            next: HalfEdgeId(2 * next_corner),
            prev: HalfEdgeId(2 * ((i + 3) % 4)),
            face: FaceId(1),
            edge: EdgeId(i),
            forward: true,
        });
        t.half_edges.push(HalfEdge {
            origin: VertexId(next_corner),
            twin: HalfEdgeId(2 * i),
            next: HalfEdgeId(2 * ((i + 3) % 4) + 1),
            prev: HalfEdgeId(2 * next_corner + 1),
            face: FaceId::exterior(),
            edge: EdgeId(i),
            forward: false,
        });
    }
    t.faces.push(Face {
        id: FaceId::exterior(),
        palette: None,
        exterior: true,
        region: RegionId(0),
        cycles: vec![Cycle { start: HalfEdgeId(1), kind: CycleKind::Outer }],
        area_pixels: 0,
    });
    t.faces.push(Face {
        id: FaceId(1),
        palette: Some(PaletteId(0)),
        exterior: false,
        region: RegionId(1),
        cycles: vec![Cycle { start: HalfEdgeId(0), kind: CycleKind::Outer }],
        area_pixels: 4,
    });
    t
}

#[test]
fn twin_traversals_are_exact_reverses_of_one_chain() {
    let t = square_topology();
    for (i, he) in t.half_edges.iter().enumerate() {
        let this = t.oriented_chain(HalfEdgeId(i as u32));
        let twin = t.oriented_chain(he.twin);
        assert_eq!(this, twin.reversed(), "half-edge {i} and its twin must describe one chain");
    }
}

#[test]
fn twins_are_an_involution() {
    let t = square_topology();
    for (i, he) in t.half_edges.iter().enumerate() {
        assert_eq!(t.half_edges[he.twin.index()].twin.index(), i);
    }
}

#[test]
fn face_cycles_close() {
    let t = square_topology();
    for face in &t.faces {
        for cycle in &face.cycles {
            let walk = t.walk_cycle(cycle.start);
            assert_eq!(walk.len(), 4, "the square has four sides per cycle");
            let mut seen = std::collections::BTreeSet::new();
            for he in &walk {
                assert!(seen.insert(*he), "a half-edge appears twice in one cycle");
                assert_eq!(t.half_edges[he.index()].face, face.id);
            }
        }
    }
}

#[test]
fn walking_a_broken_cycle_terminates() {
    let mut t = square_topology();
    t.half_edges[0].next = HalfEdgeId(0);
    let walk = t.walk_cycle(HalfEdgeId(2));
    assert!(walk.len() <= t.half_edges.len() + 1);
    assert_eq!(walk.len(), t.half_edges.len() + 1);
}

#[test]
fn the_exterior_face_is_explicit_and_first() {
    let t = square_topology();
    assert!(t.faces[0].exterior);
    assert!(FaceId::exterior().is_exterior());
    assert!(!FaceId(1).is_exterior());
    assert_eq!(t.interior_face_count(), 1);
}

#[test]
fn a_face_pair_canonicalises_regardless_of_side() {
    let t = square_topology();
    let e = &t.edges[0];
    assert_eq!(e.face_pair(), (FaceId::exterior(), FaceId(1)));
    let mut flipped = *e;
    flipped.left_face = FaceId::exterior();
    flipped.right_face = FaceId(1);
    assert_eq!(flipped.face_pair(), (FaceId::exterior(), FaceId(1)));
}

#[test]
fn degree_two_vertices_are_not_junctions() {
    let t = square_topology();
    assert_eq!(t.junction_count(), 0);
    assert_eq!(t.hole_count(), 0);
}

#[test]
fn a_vertex_of_another_degree_is_a_junction() {
    let mut t = square_topology();
    t.vertices[2].degree = 3;
    t.vertices[3].degree = 1;
    assert!(t.vertices[2].is_junction());
    assert!(!t.vertices[0].is_junction());
    assert_eq!(t.junction_count(), 2);
}

#[test]
fn holes_of_the_exterior_are_not_counted() {
    let mut t = square_topology();
    t.faces[0].cycles.push(Cycle { start: HalfEdgeId(3), kind: CycleKind::Hole });
    t.faces[1].cycles.push(Cycle { start: HalfEdgeId(5), kind: CycleKind::Hole });
    t.faces[1].cycles.push(Cycle { start: HalfEdgeId(7), kind: CycleKind::Hole });
    assert_eq!(t.hole_count(), 2);
}

#[test]
fn control_points_are_counted_over_every_chain() {
    let mut t = square_topology();
    assert_eq!(t.control_point_count(), 8);
    t.chains.push(sample_chain());
    assert_eq!(t.control_point_count(), 14);
}

#[test]
fn a_cache_hit_returns_exactly_what_was_put() {
    let mut cache = ColorCache::new();
    assert_eq!(cache.get(0x0102_0304), None);
    cache.put(0x0102_0304, LabelId(3), true);
    assert_eq!(cache.get(0x0102_0304), Some((LabelId(3), true)));
    assert_eq!(cache.get(0x0102_0305), None);
    assert_eq!(cache.hits(), 1);
    for k in 0..100_000u32 {
        cache.put(k, LabelId(k % 7), k % 2 == 0);
    }
    for k in 0..100_000u32 {
        if let Some(v) = cache.get(k) {
            assert_eq!(v, (LabelId(k % 7), k % 2 == 0));
        }
    }
}

fn claim(key: i64, priority: i16, id: u32) -> Claim {
    Claim { key: QuantKey::from_raw(key), priority, id }
}

#[test]
fn the_winner_is_score_then_priority_then_id() {
    assert_eq!(best_claim(&[]), None);
    let claims = [claim(5, 0, 1), claim(3, 0, 2), claim(3, 1, 3), claim(3, 1, 0)];
    assert_eq!(best_claim(&claims), Some(3));
    let reordered = [claims[3], claims[2], claims[0], claims[1]];
    assert_eq!(reordered[best_claim(&reordered).unwrap()], claims[3]);
    let tie = [claim(1, 0, 4), claim(1, 0, 4)];
    assert_eq!(best_claim(&tie), Some(0));
}

#[test]
fn a_heap_pops_in_key_order_whatever_the_push_order() {
    let mut a: MinHeap<(i64, u32, u32)> = MinHeap::new();
    let mut b: MinHeap<(i64, u32, u32)> = MinHeap::with_capacity(4);
    let items = [(3, 1, 2), (-1, 0, 0), (3, 0, 9), (0, 5, 5)];
    for x in items {
        a.push(x);
    }
    for x in items.iter().rev() {
        b.push(*x);
    }
    assert_eq!(a.len(), 4);
    let mut out = Vec::new();
    while let Some(x) = a.pop() {
        assert_eq!(b.pop(), Some(x));
        out.push(x);
    }
    assert!(a.is_empty() && b.is_empty());
    assert_eq!(out, vec![(-1, 0, 0), (0, 5, 5), (3, 0, 9), (3, 1, 2)]);
}

#[test]
fn an_unordered_pair_canonicalises_either_way() {
    assert_eq!(canonical_pair(7u32, 2u32), (2, 7));
    assert_eq!(canonical_pair(2u32, 7u32), (2, 7));
    let mut g = Generation(u32::MAX - 1);
    g.bump();
    g.bump();
    assert_eq!(g, Generation(u32::MAX));
    assert_eq!(QuantKey::from_raw(-4).raw(), -4);
}

#[test]
fn the_digest_is_blake3_of_the_canonical_stream() {
    let mut stream = vec![1u8];
    stream.extend_from_slice(&10u64.to_le_bytes());
    stream.extend_from_slice(b"pte-digest");
    stream.push(2);
    stream.extend_from_slice(&1u64.to_le_bytes());
    let expected = format!("pte-semantic-v1-blake3:{}", blake3::hash(&stream).to_hex());
    assert_eq!(DigestWriter::new().finish(), expected);

    let mut w = DigestWriter::new();
    w.tag("face");
    w.u64(3);
    w.i64(-2);
    w.str("ab");
    w.bool(true);
    stream.push(1);
    stream.extend_from_slice(&4u64.to_le_bytes());
    stream.extend_from_slice(b"face");
    stream.push(2);
    stream.extend_from_slice(&3u64.to_le_bytes());
    stream.push(3);
    stream.extend_from_slice(&(-2i64).to_le_bytes());
    stream.push(4);
    stream.extend_from_slice(&2u64.to_le_bytes());
    stream.extend_from_slice(b"ab");
    stream.extend_from_slice(&[5, 1]);
    let expected = format!("pte-semantic-v1-blake3:{}", blake3::hash(&stream).to_hex());
    assert_eq!(w.finish(), expected);
    assert_eq!(render_digest(&[0x00, 0xab, 0x7f]), "pte-semantic-v1-blake3:00ab7f");
}

#[test]
fn checked_conversions_name_the_failure() {
    assert_eq!(pixel_count(0, 5), Err(DecodeError::EmptyImage));
    assert_eq!(pixel_count(3, 5), Ok(15));
    assert_eq!(mul_bytes(usize::MAX, 2, 7, 8), Err(DecodeError::DimensionOverflow { width: 7, height: 8 }));
    assert_eq!(mul_bytes(6, 2, 7, 8), Ok(12));
    assert_eq!(u32_to_usize(9), 9usize);
    assert_eq!(usize_to_u64(9), 9u64);
    assert_eq!(decimal_string(0), "0");
    assert_eq!(decimal_string(18_446_744_073_709_551_615), "18446744073709551615");
}

#[test]
fn pop_order_is_independent_of_push_order() {
    // Keys are ordered by the number, then by the character's code.
    let entries = [(3u32, 'a' as u32), (1, 'b' as u32), (2, 'c' as u32), (1, 'a' as u32)];

    let mut forward = MinHeap::new();
    for e in entries {
        forward.push(e);
    }
    let mut backward = MinHeap::new();
    for e in entries.iter().rev() {
        backward.push(*e);
    }

    let drain = |mut h: MinHeap<(u32, u32)>| {
        let mut out = Vec::new();
        while let Some(e) = h.pop() {
            out.push(e);
        }
        out
    };
    let a = drain(forward);
    assert_eq!(a, drain(backward));
    assert_eq!(a, vec![(1, 'a' as u32), (1, 'b' as u32), (2, 'c' as u32), (3, 'a' as u32)]);
}

#[test]
fn generations_invalidate_stale_entries() {
    let mut g = Generation::default();
    let recorded = g;
    g.bump();
    assert_ne!(recorded, g, "a bumped generation must not match a stale one");
}

#[test]
fn canonical_pair_is_symmetric() {
    assert_eq!(canonical_pair(7u32, 3), canonical_pair(3u32, 7));
}
