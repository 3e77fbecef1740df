//! The pieces of the trace report that carry no floating-point values:
//! diagnostics, downgrades, versions, and the outcome counters.

use vstd::prelude::*;
use vstd::string::*;
use crate::image::{AlphaMode, ColorEncoding, PixelFormat};
use crate::labels::LabelWidth;

verus! {

/// Report schema version.
pub const REPORT_SCHEMA_VERSION: u32 = 1;

/// Severity of a diagnostic.
#[derive(Debug, Clone, Copy, PartialEq, Eq, Structural)]
pub enum Severity {
    /// Worth knowing; output is as requested.
    Info,
    /// Output differs from the ideal in a way the caller should see.
    Warning,
}

/// One diagnostic with a stable machine-readable code.
#[derive(Debug, Clone, PartialEq, Eq)]
pub struct Warning {
    /// Stable machine-readable code.
    pub code: String,
    /// Severity.
    pub severity: Severity,
    /// Human-readable detail.
    pub message: String,
    /// Requirement this relates to, when one governs it.
    pub requirement: Option<String>,
}

impl Warning {
    /// A warning.
    pub fn warn(code: &str, message: &str) -> (w: Warning)
        ensures
            w.code@ == code@,
            w.severity == Severity::Warning,
            w.message@ == message@,
            w.requirement is None,
    {
        Warning {
            code: String::from_str(code),
            severity: Severity::Warning,
            message: String::from_str(message),
            requirement: None,
        }
    }

    /// An informational note.
    pub fn info(code: &str, message: &str) -> (w: Warning)
        ensures
            w.code@ == code@,
            w.severity == Severity::Info,
            w.message@ == message@,
            w.requirement is None,
    {
        Warning {
            code: String::from_str(code),
            severity: Severity::Info,
            message: String::from_str(message),
            requirement: None,
        }
    }

    /// Attach the governing requirement identifier.
    pub fn about(self, requirement: &str) -> (w: Warning)
        ensures
            w.code == self.code,
            w.severity == self.severity,
            w.message == self.message,
            w.requirement matches Some(r) && r@ == requirement@,
    {
        Warning { requirement: Some(String::from_str(requirement)), ..self }
    }
}

/// Whether any diagnostic in `warnings` has warning severity.
pub open spec fn any_warning(warnings: Seq<Warning>) -> bool {
    exists|i: int| 0 <= i < warnings.len() && #[trigger] warnings[i].severity == Severity::Warning
}

/// Whether any diagnostic has [`Severity::Warning`]; notes do not count.
pub fn has_warnings(warnings: &[Warning]) -> (b: bool)
    ensures
        b == any_warning(warnings@),
{
    let mut i: usize = 0;
    while i < warnings.len()
        invariant
            i <= warnings@.len(),
            forall|k: int| 0 <= k < i ==> #[trigger] warnings@[k].severity != Severity::Warning,
        decreases warnings.len() - i,
    {
        if warnings[i].severity == Severity::Warning {
            return true;
        }
        i = i + 1;
    }
    false
}

/// A documented downgrade: what was requested, what was done, and why.
#[derive(Debug, Clone, PartialEq, Eq)]
pub struct Fallback {
    /// Stable machine-readable code.
    pub code: String,
    /// What the caller asked for.
    pub requested: String,
    /// What was actually done.
    pub effective: String,
    /// Why.
    pub reason: String,
}

/// Which algorithm version produced each stage's output.
#[derive(Debug, Clone, PartialEq, Eq)]
pub struct AlgorithmVersions {
    /// Segmentation algorithm.
    pub segmentation: String,
    /// Topology construction.
    pub topology: String,
    /// Boundary reconstruction.
    pub boundary: String,
    /// Curve fitting.
    pub curves: String,
}

impl Default for AlgorithmVersions {
    fn default() -> (v: AlgorithmVersions)
        ensures
            v.segmentation@ == "pte-watershed-rag/1"@,
            v.topology@ == "pte-dcel/1"@,
            v.boundary@ == "pte-coverage/1"@,
            v.curves@ == "pte-hybrid-fit/1"@,
    {
        AlgorithmVersions {
            segmentation: String::from_str("pte-watershed-rag/1"),
            topology: String::from_str("pte-dcel/1"),
            boundary: String::from_str("pte-coverage/1"),
            curves: String::from_str("pte-hybrid-fit/1"),
        }
    }
}

/// Engine identity.
#[derive(Debug, Clone, PartialEq, Eq)]
pub struct EngineInfo {
    /// Engine name.
    pub name: String,
    /// Engine version.
    pub version: String,
    /// Compilation target.
    pub target: String,
    /// Enabled output-affecting features.
    pub features: Vec<String>,
    /// Per-stage algorithm versions.
    pub algorithms: AlgorithmVersions,
}

/// What the input was and how it was interpreted.
#[derive(Debug, Clone, PartialEq, Eq)]
pub struct InputInfo {
    /// Width in pixels.
    pub width: u32,
    /// Height in pixels.
    pub height: u32,
    /// Pixel layout.
    pub format: PixelFormat,
    /// Declared transfer function.
    pub encoding: ColorEncoding,
    /// Declared alpha association.
    pub alpha_mode: AlphaMode,
    /// What was done about a colour profile.
    pub profile_action: String,
}

/// One palette entry as it was actually used.
#[derive(Debug, Clone, PartialEq, Eq)]
pub struct PaletteReportEntry {
    /// Stable identifier.
    pub id: u32,
    /// Output colour, `#rrggbb`.
    pub color: String,
    /// Whether the entry was pinned.
    pub pinned: bool,
    /// Pixels claimed by this entry.
    pub pixels: u64,
    /// Regions that ended up owned by this entry.
    pub regions: u32,
}

/// Segmentation outcome.
#[derive(Debug, Clone, PartialEq, Eq, Default)]
pub struct SegmentationReport {
    /// Regions in the initial partition, before merging.
    pub initial_regions: u32,
    /// Regions after merging.
    pub final_regions: u32,
    /// Merges performed.
    pub merges: u32,
    /// Regions reassigned as antialias fringe.
    pub fringe_reassignments: u32,
    /// Pixels moved by fringe reassignment.
    pub fringe_pixels: u64,
    /// Regions kept because the protection score said so.
    pub protected_regions: u32,
    /// Storage width of the label plane.
    pub label_width: Option<LabelWidth>,
}

/// Topology outcome.
#[derive(Debug, Clone, PartialEq, Eq, Default)]
pub struct TopologyReport {
    /// Interior faces.
    pub faces: u32,
    /// Shared edges.
    pub shared_edges: u32,
    /// Junction vertices.
    pub junctions: u32,
    /// Holes across all faces.
    pub holes: u32,
    /// Ambiguous 2x2 cells encountered.
    pub ambiguous_cells: u32,
    /// Of those, how many the continuity term decided.
    pub ambiguous_resolved_by_continuity: u32,
    /// Pixels with no owner; zero for a shared partition.
    pub unassigned_pixels: u64,
}

/// Representation outcome.
#[derive(Debug, Clone, PartialEq, Eq, Default)]
pub struct RepresentationReport {
    /// Visible paths.
    pub paths: u32,
    /// Line segments emitted.
    pub lines: u32,
    /// Cubic segments emitted.
    pub cubics: u32,
    /// Arc segments emitted.
    pub arcs: u32,
    /// Recognised primitives.
    pub primitives: u32,
    /// Stroked paths.
    pub strokes: u32,
    /// Gradients.
    pub gradients: u32,
    /// Gradient stops.
    pub gradient_stops: u32,
    /// Total control points.
    pub control_points: u32,
    /// Chains that fell back to a validated polyline.
    pub polyline_fallbacks: u32,
    /// Serialised bytes.
    pub svg_bytes: u64,
    /// Decimal places used.
    pub coordinate_decimals: u8,
}

/// Boundary-source census.
#[derive(Debug, Clone, PartialEq, Eq, Default)]
pub struct BoundarySourceReport {
    /// Edges positioned by inverting antialias coverage.
    pub coverage_reconstructed: u32,
    /// Edges left on the pixel-cell interface.
    pub crisp_grid: u32,
    /// Edges where coverage was attempted and rejected.
    pub low_confidence_fallback: u32,
    /// Edges decided by pixel-art connectivity policy.
    pub pixel_art_policy: u32,
}

/// Resource consumption.
#[derive(Debug, Clone, Copy, PartialEq, Eq, Default)]
pub struct ResourceUsage {
    /// Abstract work units charged.
    pub work_units: u64,
    /// The configured budget, if any.
    pub work_budget: Option<u64>,
    /// Highest working-memory figure the engine recorded.
    pub peak_working_bytes: u64,
}

} // verus!
