//! The semantic digest of a finished document.
//!
//! The digest is defined over the quantised document, not over its SVG
//! bytes: every real number enters the stream as its quantised key, so the
//! types here hold those keys. A key is `None` where the real value was NaN
//! or infinite; the digest refuses such a document rather than encoding it.
//! Coordinates are quantised at one millionth of a source pixel and other
//! real values at the merge-cost scale; which is which is said field by
//! field. Layer and group identifiers and labels, and the provenance, are
//! kept so that a document carries them, but they are prose and never reach
//! the stream.

use vstd::prelude::*;
use vstd::string::*;
use crate::config::profile::{Modifier, Profile};
use crate::digest::chain::{QuantChain, QuantPoint, chain_steps, write_chain};
use crate::digest::{
    blake3_hash, digest_text, encode_all, failure_of, tokens_of, DigestWriter, Step, Token,
    DIGEST_SCHEMA_VERSION,
};
use crate::render::is_lower_hex;
use crate::error::NumericalError;
use crate::ir::document::{DocumentProvenance, FillRule};
use crate::ir::paint::{Color, SpreadMethod};
use crate::ir::topology::{FaceId, PaletteId};
use crate::report::{AlgorithmVersions, Fallback};
use vstd::utf8::encode_utf8;

verus! {

/// A gradient stop; its offset is quantised as a real value.
#[derive(Debug, Clone, Copy, PartialEq, Eq)]
pub struct QuantStop {
    /// Position along the gradient.
    pub offset: Option<i64>,
    /// Colour at this stop.
    pub color: Color,
}

/// A paint with quantised geometry.
#[derive(Debug, PartialEq, Eq)]
pub enum QuantPaint {
    /// A solid colour.
    Solid(Color),
    /// A linear gradient; its end points are coordinates.
    LinearGradient {
        /// Start point.
        from: QuantPoint,
        /// End point.
        to: QuantPoint,
        /// Stops in offset order.
        stops: Vec<QuantStop>,
        /// Extension beyond the stops.
        spread: SpreadMethod,
    },
    /// A radial gradient; its centre, radius and focus are coordinates, its
    /// transform real values.
    RadialGradient {
        /// Centre.
        center: QuantPoint,
        /// Radius.
        radius: Option<i64>,
        /// Focal point, when not the centre.
        focus: Option<QuantPoint>,
        /// Stops in offset order.
        stops: Vec<QuantStop>,
        /// Extension beyond the stops.
        spread: SpreadMethod,
        /// Gradient transform, when present.
        transform: Option<[Option<i64>; 6]>,
    },
}

impl QuantPaint {
    /// Whether this paint is portable SVG 2: every paint this type can hold
    /// is.
    pub fn is_portable(&self) -> (b: bool)
        ensures
            b,
    {
        match self {
            QuantPaint::Solid(_) | QuantPaint::LinearGradient { .. } | QuantPaint::RadialGradient {
                ..
            } => true,
        }
    }

    /// The solid colour, if this is one.
    pub fn as_solid(&self) -> (c: Option<Color>)
        ensures
            c == (match *self {
                QuantPaint::Solid(c) => Some(c),
                _ => None,
            }),
    {
        match self {
            QuantPaint::Solid(c) => Some(*c),
            _ => None,
        }
    }
}

/// A colour as one number: red, green, blue and alpha, most significant
/// first.
pub open spec fn rgba_word(c: Color) -> u64 {
    (c.r as int * 16777216 + c.g as int * 65536 + c.b as int * 256 + c.a as int) as u64
}

fn rgba_word_of(c: Color) -> (v: u64)
    ensures
        v == rgba_word(c),
{
    (c.r as u64) * 16777216 + (c.g as u64) * 65536 + (c.b as u64) * 256 + (c.a as u64)
}

/// The writes for a gradient stop.
pub open spec fn stop_steps(s: QuantStop) -> Seq<Step> {
    seq![Step::Scalar(s.offset), Step::Put(Token::U64(rgba_word(s.color)))]
}

/// The writes for gradient stops, in order.
pub open spec fn stops_steps(stops: Seq<QuantStop>) -> Seq<Step>
    decreases stops.len(),
{
    if stops.len() == 0 {
        Seq::empty()
    } else {
        stops_steps(stops.drop_last()) + stop_steps(stops.last())
    }
}

/// The writes for a paint: its kind, its geometry, then its stops. A
/// gradient's spread method, focus and transform are not written.
pub open spec fn paint_steps(p: QuantPaint) -> Seq<Step> {
    match p {
        QuantPaint::Solid(c) => seq![
            Step::Put(Token::Tag("solid".spec_bytes())),
            Step::Put(Token::U64(rgba_word(c))),
        ],
        QuantPaint::LinearGradient { from, to, stops, .. } => seq![
            Step::Put(Token::Tag("linear".spec_bytes())),
            Step::Coord(from.0),
            Step::Coord(from.1),
            Step::Coord(to.0),
            Step::Coord(to.1),
            Step::Put(Token::U64(stops@.len() as u64)),
        ] + stops_steps(stops@),
        QuantPaint::RadialGradient { center, radius, stops, .. } => seq![
            Step::Put(Token::Tag("radial".spec_bytes())),
            Step::Coord(center.0),
            Step::Coord(center.1),
            Step::Coord(radius),
            Step::Put(Token::U64(stops@.len() as u64)),
        ] + stops_steps(stops@),
    }
}

fn write_stops(w: &mut DigestWriter, stops: &Vec<QuantStop>)
    requires
        old(w).wf(),
    ensures
        final(w).wf(),
        final(w)@ == old(w)@ + stops_steps(stops@),
{
    let ghost base = w@;
    let mut i: usize = 0;
    while i < stops.len()
        invariant
            i <= stops@.len(),
            w.wf(),
            w@ == base + stops_steps(stops@.take(i as int)),
        decreases stops@.len() - i,
    {
        let stop = stops[i];
        w.put_scalar(stop.offset);
        w.u64(rgba_word_of(stop.color));
        proof {
            assert(stops@.take(i + 1).drop_last() =~= stops@.take(i as int));
            assert(w@ =~= base + stops_steps(stops@.take(i + 1)));
        }
        i = i + 1;
    }
    proof {
        assert(stops@.take(stops@.len() as int) =~= stops@);
    }
}

/// Write a paint.
pub fn write_paint(w: &mut DigestWriter, paint: &QuantPaint)
    requires
        old(w).wf(),
    ensures
        final(w).wf(),
        final(w)@ == old(w)@ + paint_steps(*paint),
{
    match paint {
        QuantPaint::Solid(c) => {
            w.tag("solid");
            w.u64(rgba_word_of(*c));
        },
        QuantPaint::LinearGradient { from, to, stops, .. } => {
            w.tag("linear");
            w.put_coord(from.0);
            w.put_coord(from.1);
            w.put_coord(to.0);
            w.put_coord(to.1);
            w.u64(stops.len() as u64);
            write_stops(w, stops);
        },
        QuantPaint::RadialGradient { center, radius, stops, .. } => {
            w.tag("radial");
            w.put_coord(center.0);
            w.put_coord(center.1);
            w.put_coord(*radius);
            w.u64(stops.len() as u64);
            write_stops(w, stops);
        },
    }
    assert(w@ =~= old(w)@ + paint_steps(*paint));
}

/// An axis-aligned rectangle; all four numbers are coordinates.
#[derive(Debug, Clone, Copy, PartialEq, Eq)]
pub struct QuantRect {
    /// Left edge.
    pub x: Option<i64>,
    /// Top edge.
    pub y: Option<i64>,
    /// Width.
    pub width: Option<i64>,
    /// Height.
    pub height: Option<i64>,
}

/// A filled face: one outer boundary and its holes.
#[derive(Debug, PartialEq)]
pub struct QuantFace {
    /// Topological face this came from.
    pub face: FaceId,
    /// Palette entry that paints it.
    pub palette: Option<PaletteId>,
    /// Paint, resolved.
    pub paint: QuantPaint,
    /// Outer boundary first, then holes.
    pub boundaries: Vec<QuantChain>,
    /// Fill rule.
    pub fill_rule: FillRule,
}

/// A stroked path; its width is a coordinate.
#[derive(Debug, PartialEq)]
pub struct QuantStroke {
    /// The path.
    pub geometry: QuantChain,
    /// Stroke paint.
    pub paint: QuantPaint,
    /// Width in user units.
    pub width: Option<i64>,
    /// Whether the path closes.
    pub closed: bool,
}

/// A recognised primitive, kept in its semantic form; its numbers are
/// coordinates.
#[derive(Debug, PartialEq, Eq)]
pub enum QuantPrimitive {
    /// An axis-aligned rectangle.
    Rect {
        /// Its bounds.
        bounds: QuantRect,
        /// Corner radius, if rounded.
        corner_radius: Option<Option<i64>>,
        /// Paint.
        paint: QuantPaint,
    },
    /// A circle or ellipse.
    Ellipse {
        /// Centre.
        center: QuantPoint,
        /// Semi-axes.
        radii: QuantPoint,
        /// Paint.
        paint: QuantPaint,
    },
}

/// A document element.
#[derive(Debug, PartialEq)]
pub enum QuantElement {
    /// A filled face.
    FilledFace(QuantFace),
    /// A stroked path.
    Stroke(QuantStroke),
    /// A recognised primitive.
    Primitive(QuantPrimitive),
    /// A nested group.
    Group(QuantGroup),
}

/// A group of elements.
#[derive(Debug, PartialEq)]
pub struct QuantGroup {
    /// Deterministic identifier.
    pub id: String,
    /// Human-meaningful label.
    pub label: Option<String>,
    /// Children in canonical order.
    pub children: Vec<QuantElement>,
}

/// The writes for chains, in order.
pub open spec fn chains_steps(chains: Seq<QuantChain>) -> Seq<Step>
    decreases chains.len(),
{
    if chains.len() == 0 {
        Seq::empty()
    } else {
        chains_steps(chains.drop_last()) + chain_steps(chains.last())
    }
}

/// The tag naming a fill rule.
pub open spec fn fill_rule_tag(rule: FillRule) -> Token {
    match rule {
        FillRule::NonZero => Token::Tag("nonzero".spec_bytes()),
        FillRule::EvenOdd => Token::Tag("evenodd".spec_bytes()),
    }
}

/// The writes for a primitive: its kind, its numbers, then its paint.
pub open spec fn primitive_steps(p: QuantPrimitive) -> Seq<Step> {
    match p {
        QuantPrimitive::Rect { bounds, corner_radius, paint } => seq![
            Step::Put(Token::Tag("rect".spec_bytes())),
            Step::Coord(bounds.x),
            Step::Coord(bounds.y),
            Step::Coord(bounds.width),
            Step::Coord(bounds.height),
            match corner_radius {
                Some(r) => Step::Coord(r),
                None => Step::Put(Token::Tag("sharp".spec_bytes())),
            },
        ] + paint_steps(paint),
        QuantPrimitive::Ellipse { center, radii, paint } => seq![
            Step::Put(Token::Tag("ellipse".spec_bytes())),
            Step::Coord(center.0),
            Step::Coord(center.1),
            Step::Coord(radii.0),
            Step::Coord(radii.1),
        ] + paint_steps(paint),
    }
}

/// The writes for a filled face: its face and palette entry, its paint,
/// its fill rule, then its boundaries.
pub open spec fn face_steps(f: QuantFace) -> Seq<Step> {
    seq![
        Step::Put(Token::Tag("face".spec_bytes())),
        Step::Put(Token::U64(f.face.0 as u64)),
        match f.palette {
            Some(p) => Step::Put(Token::U64(p.0 as u64)),
            None => Step::Put(Token::Tag("no-palette".spec_bytes())),
        },
    ] + paint_steps(f.paint) + seq![
        Step::Put(fill_rule_tag(f.fill_rule)),
        Step::Put(Token::U64(f.boundaries@.len() as u64)),
    ] + chains_steps(f.boundaries@)
}

/// The writes for a stroke: its paint, width and closure, then its path.
pub open spec fn stroke_steps(s: QuantStroke) -> Seq<Step> {
    seq![Step::Put(Token::Tag("stroke".spec_bytes()))] + paint_steps(s.paint) + seq![
        Step::Coord(s.width),
        Step::Put(Token::Bool(s.closed)),
    ] + chain_steps(s.geometry)
}

/// The writes for an element. A group writes its children in order; its
/// identifier and label are not written.
pub open spec fn element_steps(e: QuantElement) -> Seq<Step>
    decreases e, 0int,
{
    match e {
        QuantElement::FilledFace(f) => face_steps(f),
        QuantElement::Stroke(s) => stroke_steps(s),
        QuantElement::Primitive(p) => seq![Step::Put(Token::Tag("primitive".spec_bytes()))]
            + primitive_steps(p),
        QuantElement::Group(g) => seq![
            Step::Put(Token::Tag("group".spec_bytes())),
            Step::Put(Token::U64(g.children@.len() as u64)),
        ] + elements_upto(g.children@, g.children@.len() as int),
    }
}

/// The writes for the first `i` elements, in order.
pub open spec fn elements_upto(elements: Seq<QuantElement>, i: int) -> Seq<Step>
    decreases elements, i,
{
    if i <= 0 || i > elements.len() {
        Seq::empty()
    } else {
        elements_upto(elements, i - 1) + element_steps(elements[i - 1])
    }
}

/// The writes for elements, in order.
pub open spec fn elements_steps(elements: Seq<QuantElement>) -> Seq<Step> {
    elements_upto(elements, elements.len() as int)
}

fn write_chains(w: &mut DigestWriter, chains: &Vec<QuantChain>)
    requires
        old(w).wf(),
    ensures
        final(w).wf(),
        final(w)@ == old(w)@ + chains_steps(chains@),
{
    let ghost base = w@;
    let mut i: usize = 0;
    while i < chains.len()
        invariant
            i <= chains@.len(),
            w.wf(),
            w@ == base + chains_steps(chains@.take(i as int)),
        decreases chains@.len() - i,
    {
        write_chain(w, &chains[i]);
        proof {
            assert(chains@.take(i + 1).drop_last() =~= chains@.take(i as int));
            assert(w@ =~= base + chains_steps(chains@.take(i + 1)));
        }
        i = i + 1;
    }
    proof {
        assert(chains@.take(chains@.len() as int) =~= chains@);
    }
}

fn write_primitive(w: &mut DigestWriter, primitive: &QuantPrimitive)
    requires
        old(w).wf(),
    ensures
        final(w).wf(),
        final(w)@ == old(w)@ + primitive_steps(*primitive),
{
    match primitive {
        QuantPrimitive::Rect { bounds, corner_radius, paint } => {
            w.tag("rect");
            w.put_coord(bounds.x);
            w.put_coord(bounds.y);
            w.put_coord(bounds.width);
            w.put_coord(bounds.height);
            match corner_radius {
                Some(r) => w.put_coord(*r),
                None => w.tag("sharp"),
            }
            let ghost mid = w@;
            write_paint(w, paint);
            assert(mid =~= old(w)@ + primitive_steps(*primitive).take(6));
        },
        QuantPrimitive::Ellipse { center, radii, paint } => {
            w.tag("ellipse");
            w.put_coord(center.0);
            w.put_coord(center.1);
            w.put_coord(radii.0);
            w.put_coord(radii.1);
            let ghost mid = w@;
            write_paint(w, paint);
            assert(mid =~= old(w)@ + primitive_steps(*primitive).take(5));
        },
    }
    assert(w@ =~= old(w)@ + primitive_steps(*primitive));
}

#[verifier::spinoff_prover]
fn write_face(w: &mut DigestWriter, face: &QuantFace)
    requires
        old(w).wf(),
    ensures
        final(w).wf(),
        final(w)@ == old(w)@ + face_steps(*face),
{
    w.tag("face");
    w.u64(face.face.0 as u64);
    match face.palette {
        Some(p) => w.u64(p.0 as u64),
        None => w.tag("no-palette"),
    }
    let ghost head = w@;
    write_paint(w, &face.paint);
    match face.fill_rule {
        FillRule::NonZero => w.tag("nonzero"),
        FillRule::EvenOdd => w.tag("evenodd"),
    }
    w.u64(face.boundaries.len() as u64);
    let ghost mid = w@;
    write_chains(w, &face.boundaries);
    proof {
        let paint = paint_steps(face.paint);
        assert(head =~= old(w)@ + face_steps(*face).take(3));
        assert(mid =~= old(w)@ + face_steps(*face).take(5 + paint.len() as int));
        assert(w@ =~= old(w)@ + face_steps(*face));
    }
}

fn write_stroke(w: &mut DigestWriter, stroke: &QuantStroke)
    requires
        old(w).wf(),
    ensures
        final(w).wf(),
        final(w)@ == old(w)@ + stroke_steps(*stroke),
{
    w.tag("stroke");
    write_paint(w, &stroke.paint);
    w.put_coord(stroke.width);
    w.bool(stroke.closed);
    let ghost mid = w@;
    write_chain(w, &stroke.geometry);
    proof {
        assert(mid =~= old(w)@ + stroke_steps(*stroke).take(3 + paint_steps(stroke.paint).len() as int));
        assert(w@ =~= old(w)@ + stroke_steps(*stroke));
    }
}

/// Write an element; a group's children follow it in order.
pub fn write_element(w: &mut DigestWriter, element: &QuantElement)
    requires
        old(w).wf(),
    ensures
        final(w).wf(),
        final(w)@ == old(w)@ + element_steps(*element),
    decreases element,
{
    match element {
        QuantElement::FilledFace(f) => write_face(w, f),
        QuantElement::Stroke(s) => write_stroke(w, s),
        QuantElement::Primitive(p) => {
            w.tag("primitive");
            write_primitive(w, p);
            assert(w@ =~= old(w)@ + element_steps(*element));
        },
        QuantElement::Group(g) => {
            w.tag("group");
            w.u64(g.children.len() as u64);
            let ghost base = w@;
            let mut i: usize = 0;
            while i < g.children.len()
                invariant
                    *element == QuantElement::Group(*g),
                    i <= g.children@.len(),
                    w.wf(),
                    w@ == base + elements_upto(g.children@, i as int),
                decreases g.children@.len() - i,
            {
                proof {
                    assert(decreases_to!(*element => (*element)->Group_0));
                }
                write_element(w, &g.children[i]);
                proof {
                    assert(w@ =~= base + elements_upto(g.children@, i + 1));
                }
                i = i + 1;
            }
            assert(w@ =~= old(w)@ + element_steps(*element));
        },
    }
}

/// A palette entry's reach; all three are real values.
#[derive(Debug, Clone, Copy, PartialEq, Eq)]
pub struct QuantReach {
    /// Lightness reach.
    pub lightness: Option<i64>,
    /// Chroma reach.
    pub chroma: Option<i64>,
    /// Hue reach.
    pub hue: Option<i64>,
}

/// A resolved palette entry.
#[derive(Debug, Clone, Copy, PartialEq, Eq)]
pub struct QuantPaletteEntry {
    /// Stable identifier.
    pub id: u32,
    /// Straight 8-bit RGBA.
    pub rgba: [u8; 4],
    /// Whether the entry is pinned.
    pub pinned: bool,
    /// Tie-break priority.
    pub priority: i16,
    /// Resolved reach.
    pub reach: QuantReach,
}

/// The output-affecting part of a resolved configuration; every real value
/// in it is quantised as a real value, not as a coordinate. The eight mode
/// settings are held as the JSON text that serde writes for them.
#[derive(Debug, Clone, PartialEq, Eq)]
pub struct QuantConfig {
    /// Config schema version.
    pub schema_version: u32,
    /// Version of the profile's frozen defaults.
    pub profile_schema_version: u32,
    /// Primary profile.
    pub profile: Profile,
    /// Active modifiers, in canonical order.
    pub modifiers: Vec<Modifier>,
    /// Target entry count for automatic palettes.
    pub max_colors: u32,
    /// Reach of entries that declare none.
    pub default_reach: QuantReach,
    /// Palette entries.
    pub entries: Vec<QuantPaletteEntry>,
    /// Colour edge weight.
    pub edge_weight_color: Option<i64>,
    /// Gradient edge weight.
    pub edge_weight_gradient: Option<i64>,
    /// Alpha edge weight.
    pub edge_weight_alpha: Option<i64>,
    /// Claim edge weight.
    pub edge_weight_claim: Option<i64>,
    /// Merge cost ceiling.
    pub merge_threshold: Option<i64>,
    /// Fringe mixture residual ceiling.
    pub fringe_max_residual: Option<i64>,
    /// Reassignment candidate size.
    pub small_region_pixels: u32,
    /// Whether thin features are protected.
    pub protect_thin_features: bool,
    /// Boundary error budget, in source pixels.
    pub curve_tolerance_px: Option<i64>,
    /// Corner turning-angle threshold, in degrees.
    pub corner_threshold_deg: Option<i64>,
    /// Hysteresis band, in degrees.
    pub corner_hysteresis_deg: Option<i64>,
    /// Whether arcs may be emitted.
    pub allow_arcs: bool,
    /// Candidate-span cap per chain position.
    pub max_span_candidates: u32,
    /// Chroma below which hue loses weight.
    pub neutral_chroma_threshold: Option<i64>,
    /// Whether alpha is preserved.
    pub preserve_alpha: bool,
    /// Alpha below which colour is not unpremultiplied.
    pub unpremultiply_epsilon: Option<i64>,
    /// Palette mode.
    pub palette_mode: String,
    /// Background policy.
    pub background: String,
    /// Geometry mode.
    pub geometry_mode: String,
    /// Boundary evidence policy.
    pub boundary_source: String,
    /// Pixel-art mode.
    pub pixel_art_mode: String,
    /// Stroke mode.
    pub strokes: String,
    /// Gradient mode.
    pub gradients: String,
    /// Determinism level.
    pub determinism: String,
}

/// A string as a token.
pub open spec fn text(s: Seq<char>) -> Step {
    Step::Put(Token::Str(encode_utf8(s)))
}

/// A tag as a step.
pub open spec fn tagged(name: &str) -> Step {
    Step::Put(Token::Tag(name.spec_bytes()))
}

/// The writes for modifiers, by name, in order.
pub open spec fn modifiers_steps(modifiers: Seq<Modifier>) -> Seq<Step>
    decreases modifiers.len(),
{
    if modifiers.len() == 0 {
        Seq::empty()
    } else {
        modifiers_steps(modifiers.drop_last()).push(
            Step::Put(Token::Str(modifiers.last().name().spec_bytes())),
        )
    }
}

/// Four bytes as one number, the first most significant.
pub open spec fn bytes_word(b: [u8; 4]) -> u64 {
    rgba_word(Color { r: b@[0], g: b@[1], b: b@[2], a: b@[3] })
}

/// The writes for a palette entry.
pub open spec fn entry_steps(e: QuantPaletteEntry) -> Seq<Step> {
    seq![
        Step::Put(Token::U64(e.id as u64)),
        Step::Put(Token::U64(bytes_word(e.rgba))),
        Step::Put(Token::Bool(e.pinned)),
        Step::Put(Token::I64(e.priority as i64)),
        Step::Scalar(e.reach.lightness),
        Step::Scalar(e.reach.chroma),
        Step::Scalar(e.reach.hue),
    ]
}

/// The writes for palette entries, in order.
pub open spec fn entries_steps(entries: Seq<QuantPaletteEntry>) -> Seq<Step>
    decreases entries.len(),
{
    if entries.len() == 0 {
        Seq::empty()
    } else {
        entries_steps(entries.drop_last()) + entry_steps(entries.last())
    }
}

/// The writes opening the configuration: versions, profile and modifiers.
pub open spec fn config_head_steps(c: QuantConfig) -> Seq<Step> {
    seq![
        tagged("config"),
        Step::Put(Token::U64(c.schema_version as u64)),
        Step::Put(Token::U64(c.profile_schema_version as u64)),
        Step::Put(Token::Str(c.profile.name().spec_bytes())),
        tagged("modifiers"),
        Step::Put(Token::U64(c.modifiers@.len() as u64)),
    ] + modifiers_steps(c.modifiers@)
}

/// The writes for the palette settings.
pub open spec fn palette_settings_steps(c: QuantConfig) -> Seq<Step> {
    seq![
        tagged("palette"),
        Step::Put(Token::U64(c.max_colors as u64)),
        Step::Scalar(c.default_reach.lightness),
        Step::Scalar(c.default_reach.chroma),
        Step::Scalar(c.default_reach.hue),
        Step::Put(Token::U64(c.entries@.len() as u64)),
    ] + entries_steps(c.entries@)
}

/// The writes for the segmentation settings.
pub open spec fn segmentation_steps(c: QuantConfig) -> Seq<Step> {
    seq![
        tagged("segmentation"),
        Step::Scalar(c.edge_weight_color),
        Step::Scalar(c.edge_weight_gradient),
        Step::Scalar(c.edge_weight_alpha),
        Step::Scalar(c.edge_weight_claim),
        Step::Scalar(c.merge_threshold),
        Step::Scalar(c.fringe_max_residual),
        Step::Put(Token::U64(c.small_region_pixels as u64)),
        Step::Put(Token::Bool(c.protect_thin_features)),
    ]
}

/// The writes for the geometry and colour settings.
pub open spec fn geometry_color_steps(c: QuantConfig) -> Seq<Step> {
    seq![
        tagged("geometry"),
        Step::Scalar(c.curve_tolerance_px),
        Step::Scalar(c.corner_threshold_deg),
        Step::Scalar(c.corner_hysteresis_deg),
        Step::Put(Token::Bool(c.allow_arcs)),
        Step::Put(Token::U64(c.max_span_candidates as u64)),
        tagged("color"),
        Step::Scalar(c.neutral_chroma_threshold),
        Step::Put(Token::Bool(c.preserve_alpha)),
        Step::Scalar(c.unpremultiply_epsilon),
    ]
}

/// The writes for the modes, each as its JSON text.
pub open spec fn modes_steps(c: QuantConfig) -> Seq<Step> {
    seq![
        text(c.palette_mode@),
        text(c.background@),
        text(c.geometry_mode@),
        text(c.boundary_source@),
        text(c.pixel_art_mode@),
        text(c.strokes@),
        text(c.gradients@),
        text(c.determinism@),
    ]
}

/// The writes for the configuration: versions, profile and modifiers, then
/// palette, segmentation, geometry and colour settings, then the modes.
pub open spec fn config_steps(c: QuantConfig) -> Seq<Step> {
    config_head_steps(c) + palette_settings_steps(c) + segmentation_steps(c) + geometry_color_steps(c)
        + modes_steps(c)
}

fn write_modifiers(w: &mut DigestWriter, modifiers: &Vec<Modifier>)
    requires
        old(w).wf(),
    ensures
        final(w).wf(),
        final(w)@ == old(w)@ + modifiers_steps(modifiers@),
{
    let ghost base = w@;
    let mut i: usize = 0;
    while i < modifiers.len()
        invariant
            i <= modifiers@.len(),
            w.wf(),
            w@ == base + modifiers_steps(modifiers@.take(i as int)),
        decreases modifiers@.len() - i,
    {
        w.str(modifiers[i].as_str());
        proof {
            assert(modifiers@.take(i + 1).drop_last() =~= modifiers@.take(i as int));
            assert(w@ =~= base + modifiers_steps(modifiers@.take(i + 1)));
        }
        i = i + 1;
    }
    proof {
        assert(modifiers@.take(modifiers@.len() as int) =~= modifiers@);
    }
}

fn write_entries(w: &mut DigestWriter, entries: &Vec<QuantPaletteEntry>)
    requires
        old(w).wf(),
    ensures
        final(w).wf(),
        final(w)@ == old(w)@ + entries_steps(entries@),
{
    let ghost base = w@;
    let mut i: usize = 0;
    while i < entries.len()
        invariant
            i <= entries@.len(),
            w.wf(),
            w@ == base + entries_steps(entries@.take(i as int)),
        decreases entries@.len() - i,
    {
        let e = entries[i];
        w.u64(e.id as u64);
        w.u64(rgba_word_of(Color::from_array(e.rgba)));
        w.bool(e.pinned);
        w.i64(e.priority as i64);
        w.put_scalar(e.reach.lightness);
        w.put_scalar(e.reach.chroma);
        w.put_scalar(e.reach.hue);
        proof {
            assert(entries@.take(i + 1).drop_last() =~= entries@.take(i as int));
            assert(w@ =~= base + entries_steps(entries@.take(i + 1)));
        }
        i = i + 1;
    }
    proof {
        assert(entries@.take(entries@.len() as int) =~= entries@);
    }
}

fn write_config_head(w: &mut DigestWriter, config: &QuantConfig)
    requires
        old(w).wf(),
    ensures
        final(w).wf(),
        final(w)@ == old(w)@ + config_head_steps(*config),
{
    w.tag("config");
    w.u64(config.schema_version as u64);
    w.u64(config.profile_schema_version as u64);
    w.str(config.profile.as_str());
    w.tag("modifiers");
    w.u64(config.modifiers.len() as u64);
    let ghost at = w@;
    write_modifiers(w, &config.modifiers);
    proof {
        assert(at =~= old(w)@ + config_head_steps(*config).take(6));
        assert(w@ =~= old(w)@ + config_head_steps(*config));
    }
}

fn write_palette_settings(w: &mut DigestWriter, config: &QuantConfig)
    requires
        old(w).wf(),
    ensures
        final(w).wf(),
        final(w)@ == old(w)@ + palette_settings_steps(*config),
{
    w.tag("palette");
    w.u64(config.max_colors as u64);
    w.put_scalar(config.default_reach.lightness);
    w.put_scalar(config.default_reach.chroma);
    w.put_scalar(config.default_reach.hue);
    w.u64(config.entries.len() as u64);
    let ghost at = w@;
    write_entries(w, &config.entries);
    proof {
        assert(at =~= old(w)@ + palette_settings_steps(*config).take(6));
        assert(w@ =~= old(w)@ + palette_settings_steps(*config));
    }
}

fn write_segmentation(w: &mut DigestWriter, config: &QuantConfig)
    requires
        old(w).wf(),
    ensures
        final(w).wf(),
        final(w)@ == old(w)@ + segmentation_steps(*config),
{
    w.tag("segmentation");
    w.put_scalar(config.edge_weight_color);
    w.put_scalar(config.edge_weight_gradient);
    w.put_scalar(config.edge_weight_alpha);
    w.put_scalar(config.edge_weight_claim);
    w.put_scalar(config.merge_threshold);
    w.put_scalar(config.fringe_max_residual);
    w.u64(config.small_region_pixels as u64);
    w.bool(config.protect_thin_features);
    assert(w@ =~= old(w)@ + segmentation_steps(*config));
}

fn write_geometry_color(w: &mut DigestWriter, config: &QuantConfig)
    requires
        old(w).wf(),
    ensures
        final(w).wf(),
        final(w)@ == old(w)@ + geometry_color_steps(*config),
{
    w.tag("geometry");
    w.put_scalar(config.curve_tolerance_px);
    w.put_scalar(config.corner_threshold_deg);
    w.put_scalar(config.corner_hysteresis_deg);
    w.bool(config.allow_arcs);
    w.u64(config.max_span_candidates as u64);
    w.tag("color");
    w.put_scalar(config.neutral_chroma_threshold);
    w.bool(config.preserve_alpha);
    w.put_scalar(config.unpremultiply_epsilon);
    assert(w@ =~= old(w)@ + geometry_color_steps(*config));
}

fn write_modes(w: &mut DigestWriter, config: &QuantConfig)
    requires
        old(w).wf(),
    ensures
        final(w).wf(),
        final(w)@ == old(w)@ + modes_steps(*config),
{
    w.str(config.palette_mode.as_str());
    w.str(config.background.as_str());
    w.str(config.geometry_mode.as_str());
    w.str(config.boundary_source.as_str());
    w.str(config.pixel_art_mode.as_str());
    w.str(config.strokes.as_str());
    w.str(config.gradients.as_str());
    w.str(config.determinism.as_str());
    assert(w@ =~= old(w)@ + modes_steps(*config));
}

/// Write the output-affecting configuration. Serialisation policy is not
/// part of it.
#[verifier::spinoff_prover]
pub fn write_config(w: &mut DigestWriter, config: &QuantConfig)
    requires
        old(w).wf(),
    ensures
        final(w).wf(),
        final(w)@ == old(w)@ + config_steps(*config),
{
    write_config_head(w, config);
    write_palette_settings(w, config);
    write_segmentation(w, config);
    write_geometry_color(w, config);
    write_modes(w, config);
    assert(w@ =~= old(w)@ + config_steps(*config));
}

/// Physical output size; both are real values.
#[derive(Debug, Clone, Copy, PartialEq, Eq)]
pub struct QuantPhysicalSize {
    /// Width in millimetres.
    pub width_mm: Option<i64>,
    /// Height in millimetres.
    pub height_mm: Option<i64>,
}

/// A referenced definition.
#[derive(Debug, PartialEq, Eq)]
pub struct QuantDefinition {
    /// Deterministic identifier.
    pub id: String,
    /// The paint this definition provides.
    pub paint: QuantPaint,
}

/// A semantic layer.
#[derive(Debug, PartialEq)]
pub struct QuantLayer {
    /// Deterministic identifier.
    pub id: String,
    /// Human-meaningful label.
    pub label: Option<String>,
    /// Role, such as `fills` or `outlines`.
    pub role: String,
    /// Elements in canonical order.
    pub elements: Vec<QuantElement>,
}

/// A finished document; its viewport numbers are coordinates, its physical
/// size real values.
#[derive(Debug, PartialEq)]
pub struct QuantDocument {
    /// Viewport in user units.
    pub viewport: QuantRect,
    /// Physical size, when declared.
    pub physical_size: Option<QuantPhysicalSize>,
    /// Palette, in stable identifier order.
    pub palette: Vec<QuantPaint>,
    /// Referenced definitions, in canonical dependency order.
    pub defs: Vec<QuantDefinition>,
    /// Layers in declared semantic order.
    pub layers: Vec<QuantLayer>,
    /// Provenance.
    pub provenance: DocumentProvenance,
}

/// The writes for feature flags, in order.
pub open spec fn features_steps(features: Seq<&str>) -> Seq<Step>
    decreases features.len(),
{
    if features.len() == 0 {
        Seq::empty()
    } else {
        features_steps(features.drop_last()).push(Step::Put(Token::Str(features.last().spec_bytes())))
    }
}

/// The writes for the algorithm versions and the feature flags.
pub open spec fn algorithm_steps(algorithms: AlgorithmVersions, features: Seq<&str>) -> Seq<Step> {
    seq![
        tagged("algorithms"),
        text(algorithms.segmentation@),
        text(algorithms.topology@),
        text(algorithms.boundary@),
        text(algorithms.curves@),
        tagged("features"),
        Step::Put(Token::U64(features.len() as u64)),
    ] + features_steps(features)
}

/// The writes for the viewport and the physical size.
pub open spec fn extent_steps(doc: QuantDocument) -> Seq<Step> {
    seq![
        tagged("viewport"),
        Step::Coord(doc.viewport.x),
        Step::Coord(doc.viewport.y),
        Step::Coord(doc.viewport.width),
        Step::Coord(doc.viewport.height),
    ] + match doc.physical_size {
        Some(p) => seq![tagged("physical"), Step::Scalar(p.width_mm), Step::Scalar(p.height_mm)],
        None => seq![tagged("no-physical")],
    }
}

/// The writes for paints, in order.
pub open spec fn paints_steps(paints: Seq<QuantPaint>) -> Seq<Step>
    decreases paints.len(),
{
    if paints.len() == 0 {
        Seq::empty()
    } else {
        paints_steps(paints.drop_last()) + paint_steps(paints.last())
    }
}

/// The writes for definitions, each its identifier then its paint.
pub open spec fn defs_steps(defs: Seq<QuantDefinition>) -> Seq<Step>
    decreases defs.len(),
{
    if defs.len() == 0 {
        Seq::empty()
    } else {
        defs_steps(defs.drop_last()) + seq![text(defs.last().id@)] + paint_steps(defs.last().paint)
    }
}

/// The writes for a layer: its role, then its elements. Its identifier and
/// label are not written.
pub open spec fn layer_steps(layer: QuantLayer) -> Seq<Step> {
    seq![
        tagged("layer"),
        text(layer.role@),
        Step::Put(Token::U64(layer.elements@.len() as u64)),
    ] + elements_steps(layer.elements@)
}

/// The writes for layers, in order.
pub open spec fn layers_steps(layers: Seq<QuantLayer>) -> Seq<Step>
    decreases layers.len(),
{
    if layers.len() == 0 {
        Seq::empty()
    } else {
        layers_steps(layers.drop_last()) + layer_steps(layers.last())
    }
}

/// The writes for fallbacks: each one's code, requested and effective
/// values. The reason is prose and is not written.
pub open spec fn fallbacks_steps(fallbacks: Seq<Fallback>) -> Seq<Step>
    decreases fallbacks.len(),
{
    if fallbacks.len() == 0 {
        Seq::empty()
    } else {
        fallbacks_steps(fallbacks.drop_last()) + seq![
            text(fallbacks.last().code@),
            text(fallbacks.last().requested@),
            text(fallbacks.last().effective@),
        ]
    }
}

/// The writes for the document's content: paints, definitions, layers.
pub open spec fn content_steps(doc: QuantDocument) -> Seq<Step> {
    seq![tagged("paints"), Step::Put(Token::U64(doc.palette@.len() as u64))] + paints_steps(doc.palette@)
        + seq![tagged("defs"), Step::Put(Token::U64(doc.defs@.len() as u64))] + defs_steps(doc.defs@)
        + seq![tagged("layers"), Step::Put(Token::U64(doc.layers@.len() as u64))] + layers_steps(
        doc.layers@,
    )
}

/// Every write of a document's digest, in order: the schema version, the
/// algorithm versions and feature flags, the configuration, the viewport and
/// physical size, the paints, definitions and layers, then the fallbacks.
pub open spec fn document_steps(
    doc: QuantDocument,
    config: QuantConfig,
    algorithms: AlgorithmVersions,
    features: Seq<&str>,
    fallbacks: Seq<Fallback>,
) -> Seq<Step> {
    seq![tagged("pte-digest"), Step::Put(Token::U64(DIGEST_SCHEMA_VERSION as u64))]
        + algorithm_steps(algorithms, features) + config_steps(config) + extent_steps(doc)
        + content_steps(doc) + seq![
        tagged("fallbacks"),
        Step::Put(Token::U64(fallbacks.len() as u64)),
    ] + fallbacks_steps(fallbacks)
}

/// The digest of a run of writes: the first refusal, or the digest text of
/// the stream.
pub open spec fn digest_of(steps: Seq<Step>) -> Result<Seq<char>, NumericalError> {
    match failure_of(steps) {
        Some(e) => Err(e),
        None => Ok(digest_text(encode_all(tokens_of(steps)))),
    }
}

#[verifier::spinoff_prover]
fn write_algorithms(w: &mut DigestWriter, algorithms: &AlgorithmVersions, features: &[&str])
    requires
        old(w).wf(),
    ensures
        final(w).wf(),
        final(w)@ == old(w)@ + algorithm_steps(*algorithms, features@),
{
    w.tag("algorithms");
    w.str(algorithms.segmentation.as_str());
    w.str(algorithms.topology.as_str());
    w.str(algorithms.boundary.as_str());
    w.str(algorithms.curves.as_str());
    w.tag("features");
    w.u64(features.len() as u64);
    let ghost base = w@;
    proof {
        assert(base =~= old(w)@ + algorithm_steps(*algorithms, features@).take(7));
    }
    let mut i: usize = 0;
    while i < features.len()
        invariant
            i <= features@.len(),
            w.wf(),
            w@ == base + features_steps(features@.take(i as int)),
        decreases features@.len() - i,
    {
        w.str(features[i]);
        proof {
            assert(features@.take(i + 1).drop_last() =~= features@.take(i as int));
            assert(w@ =~= base + features_steps(features@.take(i + 1)));
        }
        i = i + 1;
    }
    proof {
        assert(features@.take(features@.len() as int) =~= features@);
        assert(w@ =~= old(w)@ + algorithm_steps(*algorithms, features@));
    }
}

fn write_extent(w: &mut DigestWriter, doc: &QuantDocument)
    requires
        old(w).wf(),
    ensures
        final(w).wf(),
        final(w)@ == old(w)@ + extent_steps(*doc),
{
    w.tag("viewport");
    w.put_coord(doc.viewport.x);
    w.put_coord(doc.viewport.y);
    w.put_coord(doc.viewport.width);
    w.put_coord(doc.viewport.height);
    match doc.physical_size {
        Some(p) => {
            w.tag("physical");
            w.put_scalar(p.width_mm);
            w.put_scalar(p.height_mm);
        },
        None => w.tag("no-physical"),
    }
    assert(w@ =~= old(w)@ + extent_steps(*doc));
}

fn write_paints(w: &mut DigestWriter, paints: &Vec<QuantPaint>)
    requires
        old(w).wf(),
    ensures
        final(w).wf(),
        final(w)@ == old(w)@ + paints_steps(paints@),
{
    let ghost base = w@;
    let mut i: usize = 0;
    while i < paints.len()
        invariant
            i <= paints@.len(),
            w.wf(),
            w@ == base + paints_steps(paints@.take(i as int)),
        decreases paints@.len() - i,
    {
        write_paint(w, &paints[i]);
        proof {
            assert(paints@.take(i + 1).drop_last() =~= paints@.take(i as int));
            assert(w@ =~= base + paints_steps(paints@.take(i + 1)));
        }
        i = i + 1;
    }
    proof {
        assert(paints@.take(paints@.len() as int) =~= paints@);
    }
}

fn write_defs(w: &mut DigestWriter, defs: &Vec<QuantDefinition>)
    requires
        old(w).wf(),
    ensures
        final(w).wf(),
        final(w)@ == old(w)@ + defs_steps(defs@),
{
    let ghost base = w@;
    let mut i: usize = 0;
    while i < defs.len()
        invariant
            i <= defs@.len(),
            w.wf(),
            w@ == base + defs_steps(defs@.take(i as int)),
        decreases defs@.len() - i,
    {
        w.str(defs[i].id.as_str());
        write_paint(w, &defs[i].paint);
        proof {
            assert(defs@.take(i + 1).drop_last() =~= defs@.take(i as int));
            assert(w@ =~= base + defs_steps(defs@.take(i + 1)));
        }
        i = i + 1;
    }
    proof {
        assert(defs@.take(defs@.len() as int) =~= defs@);
    }
}

fn write_elements(w: &mut DigestWriter, elements: &Vec<QuantElement>)
    requires
        old(w).wf(),
    ensures
        final(w).wf(),
        final(w)@ == old(w)@ + elements_steps(elements@),
{
    let ghost base = w@;
    let mut i: usize = 0;
    while i < elements.len()
        invariant
            i <= elements@.len(),
            w.wf(),
            w@ == base + elements_upto(elements@, i as int),
        decreases elements@.len() - i,
    {
        write_element(w, &elements[i]);
        proof {
            assert(w@ =~= base + elements_upto(elements@, i + 1));
        }
        i = i + 1;
    }
}

#[verifier::spinoff_prover]
fn write_layers(w: &mut DigestWriter, layers: &Vec<QuantLayer>)
    requires
        old(w).wf(),
    ensures
        final(w).wf(),
        final(w)@ == old(w)@ + layers_steps(layers@),
{
    let ghost base = w@;
    let mut i: usize = 0;
    while i < layers.len()
        invariant
            i <= layers@.len(),
            w.wf(),
            w@ == base + layers_steps(layers@.take(i as int)),
        decreases layers@.len() - i,
    {
        let layer = &layers[i];
        w.tag("layer");
        w.str(layer.role.as_str());
        w.u64(layer.elements.len() as u64);
        let ghost mid = w@;
        write_elements(w, &layer.elements);
        proof {
            assert(mid =~= base + layers_steps(layers@.take(i as int)) + layer_steps(*layer).take(3));
            assert(layers@.take(i + 1).drop_last() =~= layers@.take(i as int));
            assert(w@ =~= base + layers_steps(layers@.take(i + 1)));
        }
        i = i + 1;
    }
    proof {
        assert(layers@.take(layers@.len() as int) =~= layers@);
    }
}

#[verifier::spinoff_prover]
fn write_content(w: &mut DigestWriter, doc: &QuantDocument)
    requires
        old(w).wf(),
    ensures
        final(w).wf(),
        final(w)@ == old(w)@ + content_steps(*doc),
{
    w.tag("paints");
    w.u64(doc.palette.len() as u64);
    let ghost a = w@;
    write_paints(w, &doc.palette);
    w.tag("defs");
    w.u64(doc.defs.len() as u64);
    let ghost b = w@;
    write_defs(w, &doc.defs);
    w.tag("layers");
    w.u64(doc.layers.len() as u64);
    let ghost c = w@;
    write_layers(w, &doc.layers);
    proof {
        let p = paints_steps(doc.palette@).len() as int;
        let d = defs_steps(doc.defs@).len() as int;
        assert(a =~= old(w)@ + content_steps(*doc).take(2));
        assert(b =~= old(w)@ + content_steps(*doc).take(4 + p));
        assert(c =~= old(w)@ + content_steps(*doc).take(6 + p + d));
        assert(w@ =~= old(w)@ + content_steps(*doc));
    }
}

fn write_fallbacks(w: &mut DigestWriter, fallbacks: &[Fallback])
    requires
        old(w).wf(),
    ensures
        final(w).wf(),
        final(w)@ == old(w)@ + seq![
            tagged("fallbacks"),
            Step::Put(Token::U64(fallbacks@.len() as u64)),
        ] + fallbacks_steps(fallbacks@),
{
    w.tag("fallbacks");
    w.u64(fallbacks.len() as u64);
    let ghost base = w@;
    let mut i: usize = 0;
    while i < fallbacks.len()
        invariant
            i <= fallbacks@.len(),
            w.wf(),
            w@ == base + fallbacks_steps(fallbacks@.take(i as int)),
        decreases fallbacks@.len() - i,
    {
        w.str(fallbacks[i].code.as_str());
        w.str(fallbacks[i].requested.as_str());
        w.str(fallbacks[i].effective.as_str());
        proof {
            assert(fallbacks@.take(i + 1).drop_last() =~= fallbacks@.take(i as int));
            assert(w@ =~= base + fallbacks_steps(fallbacks@.take(i + 1)));
        }
        i = i + 1;
    }
    proof {
        assert(fallbacks@.take(fallbacks@.len() as int) =~= fallbacks@);
        assert(w@ =~= old(w)@ + seq![
            tagged("fallbacks"),
            Step::Put(Token::U64(fallbacks@.len() as u64)),
        ] + fallbacks_steps(fallbacks@));
    }
}

/// The semantic digest of a finished document.
///
/// The stream holds, in order: the schema version; the algorithm-stage
/// versions and output-affecting feature flags; the output-affecting
/// configuration; the viewport and physical size; the paints and
/// definitions in stable identifier order; the layers and their elements in
/// canonical order, closed chains from their canonical start; and the
/// output-affecting fallbacks. Timings, messages, identifiers, labels and
/// provenance are not in it. A real value that was NaN or infinite is
/// refused, not encoded: the first such value is the error.
#[verifier::spinoff_prover]
pub fn digest_document(
    document: &QuantDocument,
    config: &QuantConfig,
    algorithms: &AlgorithmVersions,
    features: &[&str],
    fallbacks: &[Fallback],
) -> (r: Result<String, NumericalError>)
    ensures
        match digest_of(document_steps(*document, *config, *algorithms, features@, fallbacks@)) {
            Ok(d) => r matches Ok(s) && s@ == d,
            Err(e) => r == Err::<String, NumericalError>(e),
        },
        r is Ok ==> blake3_hash(
            encode_all(tokens_of(document_steps(*document, *config, *algorithms, features@, fallbacks@))),
        ).len() == 32,
        r matches Ok(s) ==> s@.len() == 87 && forall|i: int| 23 <= i < 87 ==> is_lower_hex(#[trigger] s@[i]),
{
    let ghost steps = document_steps(*document, *config, *algorithms, features@, fallbacks@);
    let mut w = DigestWriter::new();
    let ghost start = w@;
    write_algorithms(&mut w, algorithms, features);
    let ghost a = w@;
    write_config(&mut w, config);
    let ghost b = w@;
    write_extent(&mut w, document);
    let ghost c = w@;
    write_content(&mut w, document);
    let ghost d = w@;
    write_fallbacks(&mut w, fallbacks);
    proof {
        assert(w@ =~= steps);
    }
    match w.failure() {
        Some(e) => Err(e),
        None => Ok(w.finish()),
    }
}


proof fn lemma_layers_ignore_prose(a: Seq<QuantLayer>, b: Seq<QuantLayer>)
    requires
        a.len() == b.len(),
        forall|i: int|
            0 <= i < a.len() ==> (#[trigger] a[i]).role == b[i].role && a[i].elements@ == b[i].elements@,
    ensures
        layers_steps(a) == layers_steps(b),
    decreases a.len(),
{
    if a.len() > 0 {
        lemma_layers_ignore_prose(a.drop_last(), b.drop_last());
        assert(a.last().role == b.last().role);
        assert(layer_steps(a.last()) == layer_steps(b.last()));
    }
}

/// Identifiers, labels and provenance are prose and do not reach the
/// digest: two documents that differ only in their layers' identifiers and
/// labels and in their provenance write exactly the same.
pub proof fn law_prose_does_not_reach_the_digest(
    a: QuantDocument,
    b: QuantDocument,
    config: QuantConfig,
    algorithms: AlgorithmVersions,
    features: Seq<&str>,
    fallbacks: Seq<Fallback>,
)
    requires
        a.viewport == b.viewport,
        a.physical_size == b.physical_size,
        a.palette@ == b.palette@,
        a.defs@ == b.defs@,
        a.layers@.len() == b.layers@.len(),
        forall|i: int|
            0 <= i < a.layers@.len() ==> (#[trigger] a.layers@[i]).role == b.layers@[i].role
                && a.layers@[i].elements@ == b.layers@[i].elements@,
    ensures
        document_steps(a, config, algorithms, features, fallbacks) == document_steps(
            b,
            config,
            algorithms,
            features,
            fallbacks,
        ),
{
    lemma_layers_ignore_prose(a.layers@, b.layers@);
    assert(extent_steps(a) == extent_steps(b));
    assert(content_steps(a) == content_steps(b));
}

/// How many elements an element counts for: one, and a group also its
/// children.
pub open spec fn element_total(e: QuantElement) -> nat
    decreases e, 0int,
{
    match e {
        QuantElement::Group(g) => 1 + elements_total_upto(g.children@, g.children@.len() as int),
        _ => 1,
    }
}

/// How many elements the first `i` elements count for.
pub open spec fn elements_total_upto(elements: Seq<QuantElement>, i: int) -> nat
    decreases elements, i,
{
    if i <= 0 || i > elements.len() {
        0
    } else {
        elements_total_upto(elements, i - 1) + element_total(elements[i - 1])
    }
}

/// How many elements the layers hold, counting group children.
pub open spec fn layers_total(layers: Seq<QuantLayer>) -> nat
    decreases layers.len(),
{
    if layers.len() == 0 {
        0
    } else {
        layers_total(layers.drop_last()) + elements_total_upto(
            layers.last().elements@,
            layers.last().elements@.len() as int,
        )
    }
}

proof fn lemma_elements_total_grows(elements: Seq<QuantElement>, i: int, j: int)
    requires
        0 <= i <= j <= elements.len(),
    ensures
        elements_total_upto(elements, i) <= elements_total_upto(elements, j),
    decreases j - i,
{
    if i < j {
        lemma_elements_total_grows(elements, i, j - 1);
    }
}

proof fn lemma_layers_total_grows(layers: Seq<QuantLayer>, i: int)
    requires
        0 <= i <= layers.len(),
    ensures
        layers_total(layers.take(i)) <= layers_total(layers),
    decreases layers.len() - i,
{
    if i < layers.len() {
        lemma_layers_total_grows(layers, i + 1);
        assert(layers.take(i + 1).drop_last() =~= layers.take(i));
    } else {
        assert(layers.take(i) =~= layers);
    }
}

fn count_elements(elements: &Vec<QuantElement>) -> (n: u64)
    requires
        elements_total_upto(elements@, elements@.len() as int) <= u64::MAX,
    ensures
        n == elements_total_upto(elements@, elements@.len() as int),
    decreases elements@, 1int,
{
    let mut total: u64 = 0;
    let mut i: usize = 0;
    while i < elements.len()
        invariant
            i <= elements@.len(),
            elements_total_upto(elements@, elements@.len() as int) <= u64::MAX,
            total == elements_total_upto(elements@, i as int),
        decreases elements@.len() - i,
    {
        proof {
            lemma_elements_total_grows(elements@, i + 1, elements@.len() as int);
        }
        let k = count_element(&elements[i]);
        total = total + k;
        i = i + 1;
    }
    total
}

fn count_element(element: &QuantElement) -> (n: u64)
    requires
        element_total(*element) <= u64::MAX,
    ensures
        n == element_total(*element),
    decreases *element, 0int,
{
    match element {
        QuantElement::Group(g) => {
            proof {
                assert(decreases_to!(*element => (*element)->Group_0));
            }
            1 + count_elements(&g.children)
        },
        _ => 1,
    }
}

impl QuantDocument {
    /// How many elements the document holds, counting group children.
    pub open spec fn total(&self) -> nat {
        layers_total(self.layers@)
    }

    /// Total elements across every layer, counting group children.
    pub fn element_count(&self) -> (n: u64)
        requires
            self.total() <= u64::MAX,
        ensures
            n == self.total(),
    {
        let mut total: u64 = 0;
        let mut i: usize = 0;
        while i < self.layers.len()
            invariant
                i <= self.layers@.len(),
                layers_total(self.layers@) <= u64::MAX,
                total == layers_total(self.layers@.take(i as int)),
            decreases self.layers@.len() - i,
        {
            proof {
                lemma_layers_total_grows(self.layers@, i + 1);
                assert(self.layers@.take(i + 1).drop_last() =~= self.layers@.take(i as int));
            }
            let k = count_elements(&self.layers[i].elements);
            total = total + k;
            i = i + 1;
        }
        proof {
            assert(self.layers@.take(self.layers@.len() as int) =~= self.layers@);
        }
        total
    }
}

/// An element and, for a group, its children after it, depth first.
pub open spec fn element_preorder(e: QuantElement) -> Seq<QuantElement>
    decreases e, 0int,
{
    match e {
        QuantElement::Group(g) => seq![e] + preorder_upto(g.children@, g.children@.len() as int),
        _ => seq![e],
    }
}

/// The first `i` elements, each followed by its descendants.
pub open spec fn preorder_upto(elements: Seq<QuantElement>, i: int) -> Seq<QuantElement>
    decreases elements, i,
{
    if i <= 0 || i > elements.len() {
        Seq::empty()
    } else {
        preorder_upto(elements, i - 1) + element_preorder(elements[i - 1])
    }
}

/// Every element of the layers, in canonical order, groups before their
/// children.
pub open spec fn layers_preorder(layers: Seq<QuantLayer>) -> Seq<QuantElement>
    decreases layers.len(),
{
    if layers.len() == 0 {
        Seq::empty()
    } else {
        layers_preorder(layers.drop_last()) + preorder_upto(
            layers.last().elements@,
            layers.last().elements@.len() as int,
        )
    }
}

/// The elements the references point to.
pub open spec fn pointed(refs: Seq<&QuantElement>) -> Seq<QuantElement> {
    Seq::new(refs.len(), |i: int| *refs[i])
}

fn collect_elements<'a>(elements: &'a Vec<QuantElement>, out: &mut Vec<&'a QuantElement>)
    ensures
        pointed(final(out)@) == pointed(old(out)@) + preorder_upto(
            elements@,
            elements@.len() as int,
        ),
    decreases elements@, 1int,
{
    let ghost start = pointed(out@);
    let mut i: usize = 0;
    while i < elements.len()
        invariant
            i <= elements@.len(),
            pointed(out@) == start + preorder_upto(elements@, i as int),
        decreases elements@.len() - i,
    {
        collect_element(&elements[i], out);
        proof {
            assert(pointed(out@) =~= start + preorder_upto(elements@, i + 1));
        }
        i = i + 1;
    }
}

fn collect_element<'a>(element: &'a QuantElement, out: &mut Vec<&'a QuantElement>)
    ensures
        pointed(final(out)@) == pointed(old(out)@) + element_preorder(*element),
    decreases *element, 0int,
{
    out.push(element);
    proof {
        assert(pointed(out@) =~= pointed(old(out)@) + seq![*element]);
    }
    match element {
        QuantElement::Group(g) => {
            proof {
                assert(decreases_to!(*element => (*element)->Group_0));
            }
            collect_elements(&g.children, out);
            proof {
                assert(pointed(out@) =~= pointed(old(out)@) + element_preorder(*element));
            }
        },
        _ => {
            proof {
                assert(pointed(out@) =~= pointed(old(out)@) + element_preorder(*element));
            }
        },
    }
}

impl QuantDocument {
    /// Every element in canonical order: layer by layer, each group before
    /// its children.
    pub fn elements_in_order(&self) -> (all: Vec<&QuantElement>)
        ensures
            pointed(all@) == layers_preorder(self.layers@),
    {
        let mut all: Vec<&QuantElement> = Vec::new();
        let mut i: usize = 0;
        while i < self.layers.len()
            invariant
                i <= self.layers@.len(),
                pointed(all@) == layers_preorder(self.layers@.take(i as int)),
            decreases self.layers@.len() - i,
        {
            collect_elements(&self.layers[i].elements, &mut all);
            proof {
                assert(self.layers@.take(i + 1).drop_last() =~= self.layers@.take(i as int));
            }
            i = i + 1;
        }
        proof {
            assert(self.layers@.take(self.layers@.len() as int) =~= self.layers@);
        }
        all
    }
}

proof fn lemma_element_count_matches(e: QuantElement)
    ensures
        element_total(e) == element_preorder(e).len(),
    decreases e, 0int,
{
    if let QuantElement::Group(g) = e {
        assert(decreases_to!(e => e->Group_0));
        lemma_elements_count_match(g.children@, g.children@.len() as int);
    }
}

proof fn lemma_elements_count_match(elements: Seq<QuantElement>, i: int)
    ensures
        elements_total_upto(elements, i) == preorder_upto(elements, i).len(),
    decreases elements, i,
{
    if 0 < i <= elements.len() {
        lemma_elements_count_match(elements, i - 1);
        lemma_element_count_matches(elements[i - 1]);
    }
}

/// The element count counts exactly the elements a traversal visits: each
/// element once, a group and each of its descendants.
pub proof fn law_count_matches_traversal(doc: QuantDocument)
    ensures
        doc.total() == layers_preorder(doc.layers@).len(),
{
    lemma_layers_count_match(doc.layers@);
}

proof fn lemma_layers_count_match(layers: Seq<QuantLayer>)
    ensures
        layers_total(layers) == layers_preorder(layers).len(),
    decreases layers.len(),
{
    if layers.len() > 0 {
        lemma_layers_count_match(layers.drop_last());
        lemma_elements_count_match(layers.last().elements@, layers.last().elements@.len() as int);
    }
}

} // verus!
