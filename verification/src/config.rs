//! The configuration model and the checks that run before anything is traced.
//!
//! Two rules shape every type here. Out-of-range numbers, unknown values and
//! conflicting settings are refused, never coerced. And every tunable is
//! optional: a profile fills what the caller left open, and the source of each
//! value is recorded so a report can tell the caller's choice from the
//! profile's.

pub mod effective;
pub mod policy;
pub mod profile;

use vstd::prelude::*;
use vstd::string::*;
use crate::error::ConfigError;
use crate::render::{decimal, push_decimal};
use profile::has_modifier;

pub use effective::{EffectiveOutput, ImpliedSettings, SettingSource};
pub use policy::{
    BackgroundPolicy, BoundarySource, DeltaEScale, DeterminismMode, DeterminismPolicy,
    GeometryMode, GradientMode, GradientPolicy, OutputPolicy, PaletteMode, PaletteRole,
    PixelArtMode, Precision, StrokeMode, StrokePolicy,
};
pub use profile::{Modifier, Profile};

verus! {

/// Configuration schema version this build implements. A configuration that
/// declares another version is refused rather than read optimistically.
pub const CONFIG_SCHEMA_VERSION: u32 = 1;

/// How a configuration check refuses: the error itself, or the parts of one
/// that carries text.
pub enum Refused {
    /// Exactly this error.
    Exactly(ConfigError),
    /// A field outside its range, with the offending value as text.
    OutOfRange { field: &'static str, got: Seq<char>, expected: &'static str },
    /// Two settings that cannot both hold.
    Conflict { first: Seq<char>, second: Seq<char>, reason: &'static str },
}

/// `e` is the error `f` describes.
pub open spec fn refused_with(e: ConfigError, f: Refused) -> bool {
    match f {
        Refused::Exactly(x) => e == x,
        Refused::OutOfRange { field, got, expected } => e matches ConfigError::OutOfRange {
            field: a,
            got: g,
            expected: x,
        } && a == field && g@ == got && x == expected,
        Refused::Conflict { first, second, reason } => e matches ConfigError::IncompatibleCombination {
            first: a,
            second: b,
            reason: c,
        } && a@ == first && b@ == second && c == reason,
    }
}

/// `r` is the outcome `spec` describes.
pub open spec fn checked_as(r: Result<(), ConfigError>, spec: Result<(), Refused>) -> bool {
    match spec {
        Ok(()) => r is Ok,
        Err(f) => r matches Err(e) && refused_with(e, f),
    }
}

/// Range validation for a policy block.
pub trait Validate {
    /// Check every field against its documented range, naming the first that
    /// fails.
    fn validate(&self) -> Result<(), ConfigError>;
}

/// The outcome of checking that an optional integer lies in an inclusive
/// range.
pub open spec fn u32_range(
    field: &'static str,
    value: Option<u32>,
    min: u32,
    max: u32,
    expected: &'static str,
) -> Result<(), Refused> {
    match value {
        Some(v) => if v < min || v > max {
            Err(Refused::OutOfRange { field, got: decimal(v as nat), expected })
        } else {
            Ok(())
        },
        None => Ok(()),
    }
}

/// Check that an optional integer lies in an inclusive range; an absent
/// value passes.
pub fn check_u32_range(
    field: &'static str,
    value: Option<u32>,
    min: u32,
    max: u32,
    expected: &'static str,
) -> (r: Result<(), ConfigError>)
    ensures
        checked_as(r, u32_range(field, value, min, max, expected)),
{
    if let Some(v) = value {
        if v < min || v > max {
            let mut got = String::new();
            push_decimal(&mut got, v as u64);
            proof {
                assert(got@ =~= decimal(v as nat));
            }
            return Err(ConfigError::OutOfRange { field, got, expected });
        }
    }
    Ok(())
}

/// The outcome of checking the settings that span two policy blocks: a
/// modifier against the explicit setting it contradicts.
pub open spec fn cross_field(
    modifiers: Seq<Modifier>,
    background: Option<BackgroundPolicy>,
    geometry_mode: Option<GeometryMode>,
    physical_size_known: bool,
    palette_mode: Option<PaletteMode>,
) -> Result<(), Refused> {
    if modifiers.contains(Modifier::TransparentBackground) && background == Some(BackgroundPolicy::Keep) {
        Err(Refused::Conflict {
            first: "modifier `transparent-background`"@,
            second: "color.background = keep"@,
            reason: "one removes the background face and the other retains it",
        })
    } else if modifiers.contains(Modifier::SharedMosaic) && geometry_mode == Some(GeometryMode::Stacked) {
        Err(Refused::Conflict {
            first: "modifier `shared-mosaic`"@,
            second: "geometry.mode = stacked"@,
            reason: "a stacked trace is not a partition (PTE-TOPO-016)",
        })
    } else if modifiers.contains(Modifier::PhysicalScaleKnown) && !physical_size_known {
        Err(Refused::Conflict {
            first: "modifier `physical-scale-known`"@,
            second: "no fabrication.physicalWidthMm or physicalHeightMm"@,
            reason: "physical operations are meaningless without a scale (PTE-FAB-001)",
        })
    } else if modifiers.contains(Modifier::ExactPalette) && palette_mode == Some(PaletteMode::Automatic) {
        Err(Refused::Conflict {
            first: "modifier `exact-palette`"@,
            second: "palette.mode = automatic"@,
            reason: "an exact palette must be supplied, not derived",
        })
    } else {
        Ok(())
    }
}

/// Refuse a modifier that contradicts an explicit setting in another block,
/// naming both sides; a conflict never has an arbitrary winner.
/// `physical_size_known` says whether a physical width or height was given.
pub fn check_cross_field(
    modifiers: &[Modifier],
    background: Option<BackgroundPolicy>,
    geometry_mode: Option<GeometryMode>,
    physical_size_known: bool,
    palette_mode: Option<PaletteMode>,
) -> (r: Result<(), ConfigError>)
    ensures
        checked_as(
            r,
            cross_field(modifiers@, background, geometry_mode, physical_size_known, palette_mode),
        ),
{
    if has_modifier(modifiers, Modifier::TransparentBackground) && matches!(background, Some(BackgroundPolicy::Keep)) {
        return Err(ConfigError::IncompatibleCombination {
            first: "modifier `transparent-background`".to_owned(),
            second: "color.background = keep".to_owned(),
            reason: "one removes the background face and the other retains it",
        });
    }
    if has_modifier(modifiers, Modifier::SharedMosaic) && matches!(geometry_mode, Some(GeometryMode::Stacked)) {
        return Err(ConfigError::IncompatibleCombination {
            first: "modifier `shared-mosaic`".to_owned(),
            second: "geometry.mode = stacked".to_owned(),
            reason: "a stacked trace is not a partition (PTE-TOPO-016)",
        });
    }
    if has_modifier(modifiers, Modifier::PhysicalScaleKnown) && !physical_size_known {
        return Err(ConfigError::IncompatibleCombination {
            first: "modifier `physical-scale-known`".to_owned(),
            second: "no fabrication.physicalWidthMm or physicalHeightMm".to_owned(),
            reason: "physical operations are meaningless without a scale (PTE-FAB-001)",
        });
    }
    if has_modifier(modifiers, Modifier::ExactPalette) && matches!(palette_mode, Some(PaletteMode::Automatic)) {
        return Err(ConfigError::IncompatibleCombination {
            first: "modifier `exact-palette`".to_owned(),
            second: "palette.mode = automatic".to_owned(),
            reason: "an exact palette must be supplied, not derived",
        });
    }
    Ok(())
}

/// Refuse a configuration that declares a schema version other than the one
/// this build implements, rather than reading it optimistically.
pub fn check_schema_version(version: u32) -> (r: Result<(), ConfigError>)
    ensures
        version == CONFIG_SCHEMA_VERSION ==> r is Ok,
        version != CONFIG_SCHEMA_VERSION ==> r == Err::<(), ConfigError>(
            ConfigError::UnsupportedSchemaVersion { got: version, supported: CONFIG_SCHEMA_VERSION },
        ),
{
    if version != CONFIG_SCHEMA_VERSION {
        return Err(ConfigError::UnsupportedSchemaVersion { got: version, supported: CONFIG_SCHEMA_VERSION });
    }
    Ok(())
}

} // verus!
