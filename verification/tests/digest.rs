use palette_tracer_engine::config::profile::PROFILE_SCHEMA_VERSION;
use palette_tracer_engine::config::{Profile, CONFIG_SCHEMA_VERSION};
use palette_tracer_engine::digest::chain::{write_chain, QuantChain, QuantPoint};
use palette_tracer_engine::digest::document::{
    digest_document, write_paint, QuantConfig, QuantDocument, QuantElement, QuantFace,
    QuantGroup, QuantLayer, QuantPaint, QuantRect, QuantReach, QuantStop,
};
use palette_tracer_engine::digest::{DigestWriter, DIGEST_PREFIX};
use palette_tracer_engine::error::NumericalError;
use palette_tracer_engine::ir::document::{DocumentProvenance, FillRule};
use palette_tracer_engine::ir::geom::{CurveChain, PathSegment};
use palette_tracer_engine::ir::paint::{Color, SpreadMethod};
use palette_tracer_engine::ir::topology::{FaceId, PaletteId};
use palette_tracer_engine::report::{AlgorithmVersions, Fallback};

/// A coordinate as the digest quantises it: millionths of a pixel.
fn coord(v: f64) -> Option<i64> {
    if v.is_finite() {
        Some((v * 1.0e6).round() as i64)
    } else {
        None
    }
}

/// A real value that is not a coordinate, at the merge-cost scale.
fn scalar(v: f64) -> Option<i64> {
    if v.is_finite() {
        Some((v * 1.0e9).round() as i64)
    } else {
        None
    }
}

fn point(x: f64, y: f64) -> QuantPoint {
    (coord(x), coord(y))
}

fn polyline(points: &[(f64, f64)]) -> QuantChain {
    let pts: Vec<QuantPoint> = points.iter().map(|&(x, y)| point(x, y)).collect();
    CurveChain::polyline(&pts).unwrap()
}

fn closed_square(offset: f64) -> QuantChain {
    polyline(&[
        (offset, 0.0),
        (offset + 2.0, 0.0),
        (offset + 2.0, 2.0),
        (offset, 2.0),
        (offset, 0.0),
    ])
}

fn face(chains: Vec<QuantChain>) -> QuantElement {
    QuantElement::FilledFace(QuantFace {
        face: FaceId(1),
        palette: Some(PaletteId(0)),
        paint: QuantPaint::Solid(Color::rgb(10, 20, 30)),
        boundaries: chains,
        fill_rule: FillRule::NonZero,
    })
}

fn document(chains: Vec<QuantChain>) -> QuantDocument {
    QuantDocument {
        viewport: QuantRect { x: coord(0.0), y: coord(0.0), width: coord(8.0), height: coord(8.0) },
        physical_size: None,
        palette: vec![QuantPaint::Solid(Color::rgb(10, 20, 30))],
        defs: Vec::new(),
        layers: vec![QuantLayer {
            id: "layer-0".to_owned(),
            label: Some("ignored prose".to_owned()),
            role: "fills".to_owned(),
            elements: chains.into_iter().map(|c| face(vec![c])).collect(),
        }],
        provenance: DocumentProvenance {
            engine: "e".to_owned(),
            version: "v".to_owned(),
            profile: "flat-illustration".to_owned(),
            semantic_digest: String::new(),
        },
    }
}

/// The flat-illustration profile's expanded defaults, quantised.
fn default_config() -> QuantConfig {
    QuantConfig {
        schema_version: CONFIG_SCHEMA_VERSION,
        profile_schema_version: PROFILE_SCHEMA_VERSION,
        profile: Profile::FlatIllustration,
        modifiers: Vec::new(),
        max_colors: 12,
        default_reach: QuantReach { lightness: scalar(0.08), chroma: scalar(0.06), hue: scalar(0.06) },
        entries: Vec::new(),
        edge_weight_color: scalar(1.0),
        edge_weight_gradient: scalar(0.5),
        edge_weight_alpha: scalar(1.0),
        edge_weight_claim: scalar(0.25),
        merge_threshold: scalar(0.020),
        fringe_max_residual: scalar(0.035),
        small_region_pixels: 12,
        protect_thin_features: true,
        curve_tolerance_px: scalar(0.6),
        corner_threshold_deg: scalar(55.0),
        corner_hysteresis_deg: scalar(8.0),
        allow_arcs: false,
        max_span_candidates: 48,
        neutral_chroma_threshold: scalar(0.02),
        preserve_alpha: true,
        unpremultiply_epsilon: scalar(1.0 / 510.0),
        palette_mode: "\"automatic\"".to_owned(),
        background: "\"keep\"".to_owned(),
        geometry_mode: "\"shared-mosaic\"".to_owned(),
        boundary_source: "\"auto\"".to_owned(),
        pixel_art_mode: "\"blocky\"".to_owned(),
        strokes: "\"off\"".to_owned(),
        gradients: "\"off\"".to_owned(),
        determinism: "\"strict\"".to_owned(),
    }
}

fn digest(doc: &QuantDocument) -> String {
    digest_document(doc, &default_config(), &AlgorithmVersions::default(), &[], &[]).unwrap()
}

#[test]
fn the_digest_carries_its_algorithm_and_schema_prefix() {
    let d = digest(&document(vec![closed_square(0.0)]));
    assert!(d.starts_with("pte-semantic-v1-blake3:"), "{d}");
    assert_eq!(d.len(), DIGEST_PREFIX.len() + 1 + 64);
    assert!(d[DIGEST_PREFIX.len() + 1..].chars().all(|c| c.is_ascii_digit() || ('a'..='f').contains(&c)));
}

#[test]
fn identical_documents_digest_identically() {
    let a = document(vec![closed_square(0.0)]);
    let b = document(vec![closed_square(0.0)]);
    assert_eq!(digest(&a), digest(&b));
}

#[test]
fn a_moved_boundary_changes_the_digest() {
    let a = document(vec![closed_square(0.0)]);
    let b = document(vec![closed_square(1.0)]);
    assert_ne!(digest(&a), digest(&b));
}

#[test]
fn non_semantic_fields_do_not_reach_the_digest() {
    let mut a = document(vec![closed_square(0.0)]);
    let before = digest(&a);

    a.layers[0].label = Some("completely different prose".to_owned());
    a.layers[0].id = "layer-renamed".to_owned();
    a.provenance.version = "99.99.99".to_owned();
    a.provenance.engine = "something-else".to_owned();
    assert_eq!(digest(&a), before);
}

#[test]
fn a_rotated_closed_path_digests_identically() {
    let square = closed_square(0.0);
    let rotated = polyline(&[(2.0, 2.0), (0.0, 2.0), (0.0, 0.0), (2.0, 0.0), (2.0, 2.0)]);
    assert_eq!(digest(&document(vec![square])), digest(&document(vec![rotated])));
}

#[test]
fn a_reversed_closed_path_does_not_collide_with_the_forward_one() {
    let forward = closed_square(0.0);
    let backward = forward.reversed();
    assert_ne!(digest(&document(vec![forward])), digest(&document(vec![backward])));
}

#[test]
fn an_algorithm_version_change_changes_the_digest() {
    let doc = document(vec![closed_square(0.0)]);
    let config = default_config();
    let base = digest_document(&doc, &config, &AlgorithmVersions::default(), &[], &[]).unwrap();
    let bumped = digest_document(
        &doc,
        &config,
        &AlgorithmVersions { topology: "pte-dcel/2".to_owned(), ..AlgorithmVersions::default() },
        &[],
        &[],
    )
    .unwrap();
    assert_ne!(base, bumped);
}

#[test]
fn a_configuration_change_that_affects_output_changes_the_digest() {
    let doc = document(vec![closed_square(0.0)]);
    let base = default_config();
    let mut other = default_config();
    other.curve_tolerance_px = scalar(2.5);

    let a = digest_document(&doc, &base, &AlgorithmVersions::default(), &[], &[]).unwrap();
    let b = digest_document(&doc, &other, &AlgorithmVersions::default(), &[], &[]).unwrap();
    assert_ne!(a, b);
}

/// `-0` quantises to the key `0`, so the library sees one value.
#[test]
fn negative_zero_canonicalises() {
    let a = document(vec![polyline(&[(0.0, 0.0), (1.0, 1.0)])]);
    let b = document(vec![polyline(&[(-0.0, -0.0), (1.0, 1.0)])]);
    assert_eq!(digest(&a), digest(&b));
}

#[test]
fn a_non_finite_coordinate_is_rejected() {
    let doc = document(vec![polyline(&[(f64::NAN, 0.0), (1.0, 1.0)])]);
    let config = default_config();
    assert!(digest_document(&doc, &config, &AlgorithmVersions::default(), &[], &[]).is_err());
}

#[test]
fn structure_is_distinguishable_from_content() {
    let two_faces = document(vec![closed_square(0.0), closed_square(4.0)]);
    let mut one_face = document(vec![closed_square(0.0)]);
    if let QuantElement::FilledFace(f) = &mut one_face.layers[0].elements[0] {
        f.boundaries.push(closed_square(4.0));
    }
    assert_ne!(digest(&two_faces), digest(&one_face));
}

#[test]
fn the_first_refused_value_names_the_error() {
    let doc = document(vec![polyline(&[(f64::INFINITY, 0.0), (1.0, 1.0)])]);
    assert_eq!(
        digest_document(&doc, &default_config(), &AlgorithmVersions::default(), &[], &[]),
        Err(NumericalError::NonFinite { context: "digest coordinate" })
    );

    let mut config = default_config();
    config.merge_threshold = None;
    assert_eq!(
        digest_document(&doc, &config, &AlgorithmVersions::default(), &[], &[]),
        Err(NumericalError::NonFinite { context: "cost quantisation" })
    );

    let mut w = DigestWriter::new();
    assert_eq!(w.coord(Some(5)), Ok(()));
    assert_eq!(w.failure(), None);
    assert_eq!(w.scalar(None), Err(NumericalError::NonFinite { context: "cost quantisation" }));
    assert_eq!(w.coord(None), Err(NumericalError::NonFinite { context: "digest coordinate" }));
    assert_eq!(w.failure(), Some(NumericalError::NonFinite { context: "cost quantisation" }));
}

#[test]
fn a_chain_writes_from_its_least_vertex_in_its_own_direction() {
    // Walked from (2, 2); its least vertex is (0, 0), so both write the same.
    let rotated = polyline(&[(2.0, 2.0), (0.0, 2.0), (0.0, 0.0), (2.0, 0.0), (2.0, 2.0)]);
    let from_least = polyline(&[(0.0, 0.0), (2.0, 0.0), (2.0, 2.0), (0.0, 2.0), (0.0, 0.0)]);
    let mut a = DigestWriter::new();
    write_chain(&mut a, &rotated);
    let mut b = DigestWriter::new();
    write_chain(&mut b, &from_least);
    assert_eq!(a.finish(), b.finish());

    // An open chain is read from its start: a different start differs.
    let open = polyline(&[(2.0, 2.0), (0.0, 2.0), (0.0, 0.0)]);
    let open_other = polyline(&[(0.0, 2.0), (0.0, 0.0), (2.0, 2.0)]);
    let mut c = DigestWriter::new();
    write_chain(&mut c, &open);
    let mut d = DigestWriter::new();
    write_chain(&mut d, &open_other);
    assert_ne!(c.finish(), d.finish());
}

#[test]
fn the_stream_of_a_chain_is_tagged_and_counted() {
    let chain: QuantChain = CurveChain {
        start: (Some(1), Some(2)),
        segments: vec![PathSegment::Line { to: (Some(3), Some(4)) }],
    };
    let mut w = DigestWriter::new();
    write_chain(&mut w, &chain);

    let mut expected = DigestWriter::new();
    expected.tag("chain");
    expected.bool(false);
    expected.u64(1);
    expected.i64(1);
    expected.i64(2);
    expected.tag("L");
    expected.i64(3);
    expected.i64(4);
    assert_eq!(w.finish(), expected.finish());
}

#[test]
fn paints_write_their_colour_as_one_word() {
    let mut w = DigestWriter::new();
    write_paint(&mut w, &QuantPaint::Solid(Color::rgba(1, 2, 3, 4)));
    let mut expected = DigestWriter::new();
    expected.tag("solid");
    expected.u64(0x0102_0304);
    assert_eq!(w.finish(), expected.finish());

    let gradient = QuantPaint::LinearGradient {
        from: (Some(0), Some(0)),
        to: (Some(5), Some(0)),
        stops: vec![QuantStop { offset: Some(0), color: Color::black() }],
        spread: SpreadMethod::Pad,
    };
    let mut g = DigestWriter::new();
    write_paint(&mut g, &gradient);
    let mut expected = DigestWriter::new();
    expected.tag("linear");
    for v in [0, 0, 5, 0] {
        expected.i64(v);
    }
    expected.u64(1);
    expected.i64(0);
    expected.u64(0x0000_00ff);
    assert_eq!(g.finish(), expected.finish());
}

#[test]
fn groups_and_fallbacks_reach_the_digest() {
    let doc = document(vec![closed_square(0.0)]);
    let mut grouped = document(Vec::new());
    grouped.layers[0].elements.push(QuantElement::Group(QuantGroup {
        id: "g".to_owned(),
        label: None,
        children: vec![face(vec![closed_square(0.0)])],
    }));
    assert_ne!(digest(&doc), digest(&grouped));

    let fallback = Fallback {
        code: "strokes.off".to_owned(),
        requested: "auto".to_owned(),
        effective: "off".to_owned(),
        reason: "prose".to_owned(),
    };
    let config = default_config();
    let with = digest_document(&doc, &config, &AlgorithmVersions::default(), &["simd"], &[fallback])
        .unwrap();
    assert_ne!(with, digest(&doc));
}

#[test]
fn element_count_includes_group_children() {
    let mut doc = document(vec![closed_square(0.0)]);
    doc.layers[0].elements.push(QuantElement::Group(QuantGroup {
        id: "outer".to_owned(),
        label: None,
        children: vec![
            face(vec![closed_square(1.0)]),
            QuantElement::Group(QuantGroup {
                id: "inner".to_owned(),
                label: Some("label".to_owned()),
                children: vec![face(vec![closed_square(2.0)])],
            }),
        ],
    }));
    doc.layers.push(QuantLayer {
        id: "layer-1".to_owned(),
        label: None,
        role: "outlines".to_owned(),
        elements: Vec::new(),
    });
    assert_eq!(doc.element_count(), 5);
    assert_eq!(document(Vec::new()).element_count(), 0);
}

#[test]
fn every_paint_is_portable_and_a_solid_shows_its_colour() {
    let solid = QuantPaint::Solid(Color::rgba(1, 2, 3, 4));
    assert!(solid.is_portable());
    assert_eq!(solid.as_solid(), Some(Color::rgba(1, 2, 3, 4)));
    let radial = QuantPaint::RadialGradient {
        center: (Some(0), Some(0)),
        radius: Some(1),
        focus: None,
        stops: Vec::new(),
        spread: SpreadMethod::Reflect,
        transform: None,
    };
    assert!(radial.is_portable());
    assert_eq!(radial.as_solid(), None);
}

#[test]
fn elements_are_counted_through_groups() {
    let mut doc = document(vec![closed_square(0.0)]);
    doc.layers[0].elements.push(QuantElement::Group(QuantGroup {
        id: "g".to_owned(),
        label: None,
        children: vec![face(vec![closed_square(1.0)]), face(vec![closed_square(2.0)])],
    }));
    assert_eq!(doc.element_count(), 4);
}

#[test]
fn traversal_visits_group_children() {
    let mut doc = document(Vec::new());
    doc.layers[0].elements.push(QuantElement::Group(QuantGroup {
        id: "g".to_owned(),
        label: None,
        children: vec![face(vec![closed_square(1.0)])],
    }));
    let mut seen = 0;
    for _ in doc.elements_in_order() {
        seen += 1;
    }
    assert_eq!(seen, 2);
}

#[test]
fn a_group_comes_before_its_children() {
    let mut doc = document(vec![closed_square(0.0)]);
    doc.layers[0].elements.push(QuantElement::Group(QuantGroup {
        id: "g".to_owned(),
        label: None,
        children: vec![face(vec![closed_square(1.0)])],
    }));
    let all = doc.elements_in_order();
    assert_eq!(all.len(), doc.element_count() as usize);
    assert!(matches!(all[0], QuantElement::FilledFace(_)));
    assert!(matches!(all[1], QuantElement::Group(_)));
    assert!(matches!(all[2], QuantElement::FilledFace(_)));
}
