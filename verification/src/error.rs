//! The error taxonomy: distinct categories, stable machine-readable codes, and
//! the process exit code of each category.

use vstd::prelude::*;
use vstd::string::*;
use crate::render::{decimal, decimal_string, push_decimal};

verus! {

/// A configuration is rejected before any pixel is read.
#[derive(Debug, Clone, PartialEq, Eq)]
pub enum ConfigError {
    /// A named field is outside its documented range.
    OutOfRange {
        /// Dotted path of the offending field.
        field: &'static str,
        /// What the caller supplied.
        got: String,
        /// The documented valid range.
        expected: &'static str,
    },
    /// A float field was NaN or infinite.
    NotFinite {
        /// Dotted path of the offending field.
        field: &'static str,
    },
    /// An enum value or object key the schema does not define.
    UnknownValue {
        /// Dotted path of the offending field.
        field: &'static str,
        /// The unrecognised token.
        got: String,
    },
    /// Two settings that cannot both hold.
    IncompatibleCombination {
        /// First setting.
        first: String,
        /// Second setting.
        second: String,
        /// Why they conflict.
        reason: &'static str,
    },
    /// The setting is specified but not implemented in this build.
    UnsupportedInThisBuild {
        /// Dotted path of the requested field.
        field: &'static str,
        /// Requirement that would govern the missing behaviour.
        requirement: &'static str,
    },
    /// The configuration schema version is not one this build understands.
    UnsupportedSchemaVersion {
        /// What the caller supplied.
        got: u32,
        /// What this build implements.
        supported: u32,
    },
    /// A palette was required but empty, or contained duplicate identifiers.
    Palette {
        /// What is wrong.
        reason: &'static str,
    },
}

impl ConfigError {
    /// The stable code of each variant.
    pub open spec fn code_text(&self) -> &'static str {
        match self {
            ConfigError::OutOfRange { .. } => "config.out_of_range",
            ConfigError::NotFinite { .. } => "config.not_finite",
            ConfigError::UnknownValue { .. } => "config.unknown_value",
            ConfigError::IncompatibleCombination { .. } => "config.incompatible_combination",
            ConfigError::UnsupportedInThisBuild { .. } => "config.unsupported_in_this_build",
            ConfigError::UnsupportedSchemaVersion { .. } => "config.unsupported_schema_version",
            ConfigError::Palette { .. } => "config.palette",
        }
    }

    /// The stable machine-readable code.
    pub fn code(&self) -> (c: &'static str)
        ensures
            c == self.code_text(),
    {
        match self {
            ConfigError::OutOfRange { .. } => "config.out_of_range",
            ConfigError::NotFinite { .. } => "config.not_finite",
            ConfigError::UnknownValue { .. } => "config.unknown_value",
            ConfigError::IncompatibleCombination { .. } => "config.incompatible_combination",
            ConfigError::UnsupportedInThisBuild { .. } => "config.unsupported_in_this_build",
            ConfigError::UnsupportedSchemaVersion { .. } => "config.unsupported_schema_version",
            ConfigError::Palette { .. } => "config.palette",
        }
    }

    /// The human-readable message.
    pub open spec fn message_text(&self) -> Seq<char> {
        match self {
            ConfigError::OutOfRange { field, got, expected } =>
                "`"@ + field@ + "` is "@ + got@ + ", expected "@ + expected@,
            ConfigError::NotFinite { field } => "`"@ + field@ + "` is NaN or infinite"@,
            ConfigError::UnknownValue { field, got } =>
                "`"@ + field@ + "` has unknown value `"@ + got@ + "`"@,
            ConfigError::IncompatibleCombination { first, second, reason } =>
                first@ + " and "@ + second@ + " cannot both apply: "@ + reason@,
            ConfigError::UnsupportedInThisBuild { field, requirement } =>
                "`"@ + field@ + "` is not implemented in this build ("@ + requirement@
                    + "); it is refused rather than silently ignored"@,
            ConfigError::UnsupportedSchemaVersion { got, supported } =>
                "config schema version "@ + decimal(*got as nat) + ", this build implements "@
                    + decimal(*supported as nat),
            ConfigError::Palette { reason } => "palette is invalid: "@ + reason@,
        }
    }

    /// The human-readable message.
    pub fn message(&self) -> (m: String)
        ensures
            m@ == self.message_text(),
    {
        let mut m = String::new();
        match self {
            ConfigError::OutOfRange { field, got, expected } => {
                m.append("`");
                m.append(field);
                m.append("` is ");
                m.append(got.as_str());
                m.append(", expected ");
                m.append(expected);
            },
            ConfigError::NotFinite { field } => {
                m.append("`");
                m.append(field);
                m.append("` is NaN or infinite");
            },
            ConfigError::UnknownValue { field, got } => {
                m.append("`");
                m.append(field);
                m.append("` has unknown value `");
                m.append(got.as_str());
                m.append("`");
            },
            ConfigError::IncompatibleCombination { first, second, reason } => {
                m.append(first.as_str());
                m.append(" and ");
                m.append(second.as_str());
                m.append(" cannot both apply: ");
                m.append(reason);
            },
            ConfigError::UnsupportedInThisBuild { field, requirement } => {
                m.append("`");
                m.append(field);
                m.append("` is not implemented in this build (");
                m.append(requirement);
                m.append("); it is refused rather than silently ignored");
            },
            ConfigError::UnsupportedSchemaVersion { got, supported } => {
                m.append("config schema version ");
                push_decimal(&mut m, *got as u64);
                m.append(", this build implements ");
                push_decimal(&mut m, *supported as u64);
            },
            ConfigError::Palette { reason } => {
                m.append("palette is invalid: ");
                m.append(reason);
            },
        }
        proof {
            assert(m@ =~= self.message_text());
        }
        m
    }
}

/// The pixel view or its metadata could not be interpreted.
#[derive(Debug, Clone, PartialEq, Eq)]
pub enum DecodeError {
    /// Width or height is zero.
    EmptyImage,
    /// A dimension product or byte count overflowed.
    DimensionOverflow {
        /// Requested width.
        width: u32,
        /// Requested height.
        height: u32,
    },
    /// The stride is smaller than one row of the declared format.
    StrideTooSmall {
        /// Declared stride, in bytes.
        stride_bytes: usize,
        /// Bytes one row needs.
        minimum: usize,
    },
    /// The stride is not a whole number of pixels.
    StrideMisaligned {
        /// Declared stride, in bytes.
        stride_bytes: usize,
        /// Bytes per pixel of the declared format.
        bytes_per_pixel: usize,
    },
    /// The buffer is shorter than the declared geometry requires.
    BufferTooShort {
        /// Bytes supplied.
        got: usize,
        /// Bytes the geometry needs.
        needed: usize,
    },
    /// The container or encoding is not one this build reads.
    UnsupportedFormat {
        /// What was detected.
        detail: String,
    },
    /// The bytes claim a format but do not conform to it.
    Malformed {
        /// What is wrong.
        detail: String,
    },
    /// An embedded colour profile could not be honoured.
    ColorProfile {
        /// What is wrong.
        detail: String,
    },
}

impl DecodeError {
    /// The stable code of each variant.
    pub open spec fn code_text(&self) -> &'static str {
        match self {
            DecodeError::EmptyImage => "decode.empty_image",
            DecodeError::DimensionOverflow { .. } => "decode.dimension_overflow",
            DecodeError::StrideTooSmall { .. } => "decode.stride_too_small",
            DecodeError::StrideMisaligned { .. } => "decode.stride_misaligned",
            DecodeError::BufferTooShort { .. } => "decode.buffer_too_short",
            DecodeError::UnsupportedFormat { .. } => "decode.unsupported_format",
            DecodeError::Malformed { .. } => "decode.malformed",
            DecodeError::ColorProfile { .. } => "decode.color_profile",
        }
    }

    /// The stable machine-readable code.
    pub fn code(&self) -> (c: &'static str)
        ensures
            c == self.code_text(),
    {
        match self {
            DecodeError::EmptyImage => "decode.empty_image",
            DecodeError::DimensionOverflow { .. } => "decode.dimension_overflow",
            DecodeError::StrideTooSmall { .. } => "decode.stride_too_small",
            DecodeError::StrideMisaligned { .. } => "decode.stride_misaligned",
            DecodeError::BufferTooShort { .. } => "decode.buffer_too_short",
            DecodeError::UnsupportedFormat { .. } => "decode.unsupported_format",
            DecodeError::Malformed { .. } => "decode.malformed",
            DecodeError::ColorProfile { .. } => "decode.color_profile",
        }
    }

    /// The human-readable message.
    pub open spec fn message_text(&self) -> Seq<char> {
        match self {
            DecodeError::EmptyImage => "image has zero width or height"@,
            DecodeError::DimensionOverflow { width, height } =>
                decimal(*width as nat) + "x"@ + decimal(*height as nat)
                    + " overflows address arithmetic"@,
            DecodeError::StrideTooSmall { stride_bytes, minimum } =>
                "stride "@ + decimal(*stride_bytes as nat) + " is below the "@
                    + decimal(*minimum as nat) + " a row needs"@,
            DecodeError::StrideMisaligned { stride_bytes, bytes_per_pixel } =>
                "stride "@ + decimal(*stride_bytes as nat) + " is not a multiple of "@
                    + decimal(*bytes_per_pixel as nat) + " bytes per pixel"@,
            DecodeError::BufferTooShort { got, needed } =>
                "buffer has "@ + decimal(*got as nat) + " bytes, geometry needs "@
                    + decimal(*needed as nat),
            DecodeError::UnsupportedFormat { detail } => "unsupported input: "@ + detail@,
            DecodeError::Malformed { detail } => "malformed input: "@ + detail@,
            DecodeError::ColorProfile { detail } => "colour profile: "@ + detail@,
        }
    }

    /// The human-readable message.
    pub fn message(&self) -> (m: String)
        ensures
            m@ == self.message_text(),
    {
        let mut m = String::new();
        match self {
            DecodeError::EmptyImage => {
                m.append("image has zero width or height");
            },
            DecodeError::DimensionOverflow { width, height } => {
                push_decimal(&mut m, *width as u64);
                m.append("x");
                push_decimal(&mut m, *height as u64);
                m.append(" overflows address arithmetic");
            },
            DecodeError::StrideTooSmall { stride_bytes, minimum } => {
                m.append("stride ");
                push_decimal(&mut m, *stride_bytes as u64);
                m.append(" is below the ");
                push_decimal(&mut m, *minimum as u64);
                m.append(" a row needs");
            },
            DecodeError::StrideMisaligned { stride_bytes, bytes_per_pixel } => {
                m.append("stride ");
                push_decimal(&mut m, *stride_bytes as u64);
                m.append(" is not a multiple of ");
                push_decimal(&mut m, *bytes_per_pixel as u64);
                m.append(" bytes per pixel");
            },
            DecodeError::BufferTooShort { got, needed } => {
                m.append("buffer has ");
                push_decimal(&mut m, *got as u64);
                m.append(" bytes, geometry needs ");
                push_decimal(&mut m, *needed as u64);
            },
            DecodeError::UnsupportedFormat { detail } => {
                m.append("unsupported input: ");
                m.append(detail.as_str());
            },
            DecodeError::Malformed { detail } => {
                m.append("malformed input: ");
                m.append(detail.as_str());
            },
            DecodeError::ColorProfile { detail } => {
                m.append("colour profile: ");
                m.append(detail.as_str());
            },
        }
        proof {
            assert(m@ =~= self.message_text());
        }
        m
    }
}

/// A declared resource bound was reached.
#[derive(Debug, Clone, PartialEq, Eq)]
pub enum ResourceLimitError {
    /// A named limit was exceeded.
    Exceeded {
        /// Which limit.
        limit: &'static str,
        /// The configured bound.
        allowed: u64,
        /// What was required.
        required: u64,
    },
    /// The deterministic work budget ran out.
    WorkBudgetExhausted {
        /// The configured budget in abstract work units.
        budget: u64,
        /// The stage that was running.
        stage: &'static str,
    },
}

impl ResourceLimitError {
    /// The stable code of each variant.
    pub open spec fn code_text(&self) -> &'static str {
        match self {
            ResourceLimitError::Exceeded { .. } => "resource.exceeded",
            ResourceLimitError::WorkBudgetExhausted { .. } => "resource.work_budget_exhausted",
        }
    }

    /// The stable machine-readable code.
    pub fn code(&self) -> (c: &'static str)
        ensures
            c == self.code_text(),
    {
        match self {
            ResourceLimitError::Exceeded { .. } => "resource.exceeded",
            ResourceLimitError::WorkBudgetExhausted { .. } => "resource.work_budget_exhausted",
        }
    }

    /// The human-readable message.
    pub open spec fn message_text(&self) -> Seq<char> {
        match self {
            ResourceLimitError::Exceeded { limit, allowed, required } =>
                limit@ + ": needed "@ + decimal(*required as nat) + ", limit is "@
                    + decimal(*allowed as nat),
            ResourceLimitError::WorkBudgetExhausted { budget, stage } =>
                "work budget of "@ + decimal(*budget as nat) + " units exhausted during "@
                    + stage@,
        }
    }

    /// The human-readable message.
    pub fn message(&self) -> (m: String)
        ensures
            m@ == self.message_text(),
    {
        let mut m = String::new();
        match self {
            ResourceLimitError::Exceeded { limit, allowed, required } => {
                m.append(limit);
                m.append(": needed ");
                push_decimal(&mut m, *required);
                m.append(", limit is ");
                push_decimal(&mut m, *allowed);
            },
            ResourceLimitError::WorkBudgetExhausted { budget, stage } => {
                m.append("work budget of ");
                push_decimal(&mut m, *budget);
                m.append(" units exhausted during ");
                m.append(stage);
            },
        }
        proof {
            assert(m@ =~= self.message_text());
        }
        m
    }
}

/// A computation could not produce a usable number and no fallback applied.
#[derive(Debug, Clone, Copy, PartialEq, Eq)]
pub enum NumericalError {
    /// A value that must be finite was not.
    NonFinite {
        /// Where it happened.
        context: &'static str,
    },
    /// A solve was singular and the declared fallback also failed.
    Singular {
        /// Where it happened.
        context: &'static str,
    },
    /// A bounded iteration did not converge.
    NoConvergence {
        /// Where it happened.
        context: &'static str,
        /// The iteration cap that was hit.
        iterations: u32,
    },
}

impl NumericalError {
    /// The stable code of each variant.
    pub open spec fn code_text(&self) -> &'static str {
        match self {
            NumericalError::NonFinite { .. } => "numeric.non_finite",
            NumericalError::Singular { .. } => "numeric.singular",
            NumericalError::NoConvergence { .. } => "numeric.no_convergence",
        }
    }

    /// The stable machine-readable code.
    pub fn code(&self) -> (c: &'static str)
        ensures
            c == self.code_text(),
    {
        match self {
            NumericalError::NonFinite { .. } => "numeric.non_finite",
            NumericalError::Singular { .. } => "numeric.singular",
            NumericalError::NoConvergence { .. } => "numeric.no_convergence",
        }
    }

    /// The human-readable message.
    pub open spec fn message_text(&self) -> Seq<char> {
        match self {
            NumericalError::NonFinite { context } => "non-finite value in "@ + context@,
            NumericalError::Singular { context } => "singular system in "@ + context@,
            NumericalError::NoConvergence { context, iterations } =>
                context@ + " did not converge in "@ + decimal(*iterations as nat)
                    + " iterations"@,
        }
    }

    /// The human-readable message.
    pub fn message(&self) -> (m: String)
        ensures
            m@ == self.message_text(),
    {
        let mut m = String::new();
        match self {
            NumericalError::NonFinite { context } => {
                m.append("non-finite value in ");
                m.append(context);
            },
            NumericalError::Singular { context } => {
                m.append("singular system in ");
                m.append(context);
            },
            NumericalError::NoConvergence { context, iterations } => {
                m.append(context);
                m.append(" did not converge in ");
                push_decimal(&mut m, *iterations as u64);
                m.append(" iterations");
            },
        }
        proof {
            assert(m@ =~= self.message_text());
        }
        m
    }
}

/// Output failed a validation gate.
#[derive(Debug, Clone, PartialEq, Eq)]
pub enum ValidationError {
    /// A topology invariant does not hold.
    Topology {
        /// Which check failed.
        check: &'static str,
        /// What was observed.
        detail: String,
    },
    /// Fitted geometry failed its gates.
    Geometry {
        /// Which check failed.
        check: &'static str,
        /// What was observed.
        detail: String,
    },
    /// Serialised output is not valid SVG.
    Svg {
        /// Which check failed.
        check: &'static str,
        /// What was observed.
        detail: String,
    },
    /// Pixels in the domain have no owner in a shared partition.
    UnassignedPixels {
        /// How many pixels lack an owner.
        count: u64,
    },
}

impl ValidationError {
    /// The stable code of each variant.
    pub open spec fn code_text(&self) -> &'static str {
        match self {
            ValidationError::Topology { .. } => "validation.topology",
            ValidationError::Geometry { .. } => "validation.geometry",
            ValidationError::Svg { .. } => "validation.svg",
            ValidationError::UnassignedPixels { .. } => "validation.unassigned_pixels",
        }
    }

    /// The stable machine-readable code.
    pub fn code(&self) -> (c: &'static str)
        ensures
            c == self.code_text(),
    {
        match self {
            ValidationError::Topology { .. } => "validation.topology",
            ValidationError::Geometry { .. } => "validation.geometry",
            ValidationError::Svg { .. } => "validation.svg",
            ValidationError::UnassignedPixels { .. } => "validation.unassigned_pixels",
        }
    }

    /// The human-readable message.
    pub open spec fn message_text(&self) -> Seq<char> {
        match self {
            ValidationError::Topology { check, detail } =>
                "topology check `"@ + check@ + "`: "@ + detail@,
            ValidationError::Geometry { check, detail } =>
                "geometry check `"@ + check@ + "`: "@ + detail@,
            ValidationError::Svg { check, detail } => "svg check `"@ + check@ + "`: "@ + detail@,
            ValidationError::UnassignedPixels { count } =>
                decimal(*count as nat) + " pixels have no owner in the shared partition"@,
        }
    }

    /// The human-readable message.
    pub fn message(&self) -> (m: String)
        ensures
            m@ == self.message_text(),
    {
        let mut m = String::new();
        match self {
            ValidationError::Topology { check, detail } => {
                m.append("topology check `");
                m.append(check);
                m.append("`: ");
                m.append(detail.as_str());
            },
            ValidationError::Geometry { check, detail } => {
                m.append("geometry check `");
                m.append(check);
                m.append("`: ");
                m.append(detail.as_str());
            },
            ValidationError::Svg { check, detail } => {
                m.append("svg check `");
                m.append(check);
                m.append("`: ");
                m.append(detail.as_str());
            },
            ValidationError::UnassignedPixels { count } => {
                push_decimal(&mut m, *count);
                m.append(" pixels have no owner in the shared partition");
            },
        }
        proof {
            assert(m@ =~= self.message_text());
        }
        m
    }
}

/// An engine defect, never caused by input.
#[derive(Debug, Clone, PartialEq, Eq)]
pub struct InternalError {
    /// What invariant was violated.
    pub invariant: &'static str,
    /// Observed state.
    pub detail: String,
}

impl InternalError {
    /// The human-readable message.
    pub fn message(&self) -> (m: String)
        ensures
            m@ == self.invariant@ + ": "@ + self.detail@,
    {
        let mut m = String::new();
        m.append(self.invariant);
        m.append(": ");
        m.append(self.detail.as_str());
        proof {
            assert(m@ =~= self.invariant@ + ": "@ + self.detail@);
        }
        m
    }
}

/// Every way a trace can fail, by category.
#[derive(Debug, Clone, PartialEq, Eq)]
pub enum TraceError {
    /// The configuration is invalid, unsupported, or self-contradictory.
    Config(ConfigError),
    /// Input pixels or their metadata could not be interpreted.
    Decode(DecodeError),
    /// A declared resource bound was reached.
    ResourceLimit(ResourceLimitError),
    /// A computation produced an unusable value.
    Numerical(NumericalError),
    /// The caller cancelled.
    Cancelled,
    /// Output failed a validation gate.
    Validation(ValidationError),
    /// An internal invariant was violated.
    Internal(InternalError),
}

impl TraceError {
    /// The stable code of each error.
    pub open spec fn code_text(&self) -> &'static str {
        match self {
            TraceError::Config(e) => e.code_text(),
            TraceError::Decode(e) => e.code_text(),
            TraceError::ResourceLimit(e) => e.code_text(),
            TraceError::Numerical(e) => e.code_text(),
            TraceError::Cancelled => "cancelled",
            TraceError::Validation(e) => e.code_text(),
            TraceError::Internal(_) => "internal.invariant",
        }
    }

    /// The stable machine-readable code.
    pub fn code(&self) -> (c: &'static str)
        ensures
            c == self.code_text(),
    {
        match self {
            TraceError::Config(e) => e.code(),
            TraceError::Decode(e) => e.code(),
            TraceError::ResourceLimit(e) => e.code(),
            TraceError::Numerical(e) => e.code(),
            TraceError::Cancelled => "cancelled",
            TraceError::Validation(e) => e.code(),
            TraceError::Internal(_) => "internal.invariant",
        }
    }

    /// The process exit code of each category.
    pub open spec fn exit_code_of(&self) -> i32 {
        match self {
            TraceError::Config(_) => 2,
            TraceError::Decode(_) => 3,
            TraceError::ResourceLimit(_) => 4,
            TraceError::Numerical(_) => 5,
            TraceError::Validation(_) => 6,
            TraceError::Cancelled => 7,
            TraceError::Internal(_) => 8,
        }
    }

    /// The process exit code for this category.
    pub fn exit_code(&self) -> (code: i32)
        ensures
            code == self.exit_code_of(),
    {
        match self {
            TraceError::Config(_) => 2,
            TraceError::Decode(_) => 3,
            TraceError::ResourceLimit(_) => 4,
            TraceError::Numerical(_) => 5,
            TraceError::Validation(_) => 6,
            TraceError::Cancelled => 7,
            TraceError::Internal(_) => 8,
        }
    }

    /// The human-readable message.
    pub open spec fn message_text(&self) -> Seq<char> {
        match self {
            TraceError::Config(e) => "configuration error: "@ + e.message_text(),
            TraceError::Decode(e) => "input error: "@ + e.message_text(),
            TraceError::ResourceLimit(e) => "resource limit exceeded: "@ + e.message_text(),
            TraceError::Numerical(e) => "numerical failure: "@ + e.message_text(),
            TraceError::Cancelled => "cancelled by caller"@,
            TraceError::Validation(e) => "validation failure: "@ + e.message_text(),
            TraceError::Internal(e) =>
                "internal invariant violated: "@ + e.invariant@ + ": "@ + e.detail@,
        }
    }

    /// The human-readable message.
    pub fn message(&self) -> (m: String)
        ensures
            m@ == self.message_text(),
    {
        let mut m = String::new();
        match self {
            TraceError::Config(e) => {
                m.append("configuration error: ");
                m.append(e.message().as_str());
            },
            TraceError::Decode(e) => {
                m.append("input error: ");
                m.append(e.message().as_str());
            },
            TraceError::ResourceLimit(e) => {
                m.append("resource limit exceeded: ");
                m.append(e.message().as_str());
            },
            TraceError::Numerical(e) => {
                m.append("numerical failure: ");
                m.append(e.message().as_str());
            },
            TraceError::Cancelled => {
                m.append("cancelled by caller");
            },
            TraceError::Validation(e) => {
                m.append("validation failure: ");
                m.append(e.message().as_str());
            },
            TraceError::Internal(e) => {
                m.append("internal invariant violated: ");
                m.append(e.message().as_str());
            },
        }
        proof {
            assert(m@ =~= self.message_text());
        }
        m
    }
}

} // verus!
