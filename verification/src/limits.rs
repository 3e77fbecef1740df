//! Resource limits, checked where each quantity grows, and the deterministic
//! work budget that stops a runaway stage identically on every machine.

use vstd::prelude::*;
use crate::control::Stage;
use crate::error::{ResourceLimitError, TraceError};
use crate::report::ResourceUsage;

pub mod cost;

verus! {

/// Bounds on what one trace may consume.
#[derive(Debug, Clone, Copy, PartialEq, Eq)]
pub struct ResourceLimits {
    /// Largest accepted width in pixels.
    pub max_width: u32,
    /// Largest accepted height in pixels.
    pub max_height: u32,
    /// Largest accepted pixel count, bounding area independently of the sides.
    pub max_pixels: u64,
    /// Largest accepted encoded input, for adapters that decode.
    pub max_input_bytes: u64,
    /// Soft ceiling on working memory, in bytes.
    pub max_working_bytes: u64,
    /// Largest region count after segmentation.
    pub max_regions: u32,
    /// Largest number of boundary samples across all shared edges.
    pub max_boundary_samples: u64,
    /// Largest number of elements in the output document.
    pub max_output_elements: u32,
    /// Largest serialised output, in bytes.
    pub max_output_bytes: u64,
    /// Largest number of gradient stops across the document.
    pub max_gradient_stops: u32,
    /// Iteration cap for any bounded numerical refinement.
    pub max_iterations: u32,
    /// Total abstract work units, or `None` for unbounded.
    pub work_budget: Option<u64>,
}

impl Default for ResourceLimits {
    /// Limits sized for an interactive desktop or browser session.
    fn default() -> (l: ResourceLimits)
        ensures
            l.max_width == 32_768,
            l.max_height == 32_768,
            l.max_pixels == 67_108_864,
            l.max_input_bytes == 536_870_912,
            l.max_working_bytes == 2_147_483_648,
            l.max_regions == 4_194_304,
            l.max_boundary_samples == 268_435_456,
            l.max_output_elements == 1_048_576,
            l.max_output_bytes == 536_870_912,
            l.max_gradient_stops == 4096,
            l.max_iterations == 64,
            l.work_budget is None,
    {
        ResourceLimits {
            max_width: 32_768,
            max_height: 32_768,
            max_pixels: 67_108_864,
            max_input_bytes: 536_870_912,
            max_working_bytes: 2_147_483_648,
            max_regions: 4_194_304,
            max_boundary_samples: 268_435_456,
            max_output_elements: 1_048_576,
            max_output_bytes: 536_870_912,
            max_gradient_stops: 4096,
            max_iterations: 64,
            work_budget: None,
        }
    }
}

/// The error a count above its limit produces.
pub open spec fn exceeded(limit: &'static str, count: u64, allowed: u64) -> Result<(), ResourceLimitError> {
    if count > allowed {
        Err(ResourceLimitError::Exceeded { limit, allowed, required: count })
    } else {
        Ok(())
    }
}

impl ResourceLimits {
    /// Limits small enough to keep a fuzz or property test fast.
    pub fn small() -> (l: ResourceLimits)
        ensures
            l.max_width == 4096,
            l.max_height == 4096,
            l.max_pixels == 1_048_576,
            l.max_input_bytes == 1_048_576,
            l.max_working_bytes == 67_108_864,
            l.max_regions == 65_536,
            l.max_boundary_samples == 4_194_304,
            l.max_output_elements == 65_536,
            l.max_output_bytes == 16_777_216,
            l.max_gradient_stops == 256,
            l.max_iterations == 16,
            l.work_budget == Some(268_435_456u64),
    {
        ResourceLimits {
            max_width: 4096,
            max_height: 4096,
            max_pixels: 1_048_576,
            max_input_bytes: 1_048_576,
            max_working_bytes: 67_108_864,
            max_regions: 65_536,
            max_boundary_samples: 4_194_304,
            max_output_elements: 65_536,
            max_output_bytes: 16_777_216,
            max_gradient_stops: 256,
            max_iterations: 16,
            work_budget: Some(268_435_456),
        }
    }

    /// The outcome of the dimension check: width first, then height, then
    /// area.
    pub open spec fn dimension_check(&self, width: u32, height: u32) -> Result<(), ResourceLimitError> {
        if width > self.max_width {
            exceeded("max_width", width as u64, self.max_width as u64)
        } else if height > self.max_height {
            exceeded("max_height", height as u64, self.max_height as u64)
        } else {
            exceeded("max_pixels", (width * height) as u64, self.max_pixels)
        }
    }

    /// Check image dimensions before any plane is allocated, naming the first
    /// limit that fails.
    pub fn check_dimensions(&self, width: u32, height: u32) -> (r: Result<(), ResourceLimitError>)
        ensures
            r == self.dimension_check(width, height),
    {
        if width > self.max_width {
            return Err(ResourceLimitError::Exceeded {
                limit: "max_width",
                allowed: self.max_width as u64,
                required: width as u64,
            });
        }
        if height > self.max_height {
            return Err(ResourceLimitError::Exceeded {
                limit: "max_height",
                allowed: self.max_height as u64,
                required: height as u64,
            });
        }
        proof {
            assert(width as int * height as int <= u32::MAX as int * u32::MAX as int) by (nonlinear_arith)
                requires
                    width <= u32::MAX,
                    height <= u32::MAX,
            ;
        }
        let pixels = width as u64 * height as u64;
        if pixels > self.max_pixels {
            return Err(ResourceLimitError::Exceeded {
                limit: "max_pixels",
                allowed: self.max_pixels,
                required: pixels,
            });
        }
        Ok(())
    }

    /// Check a count against a named limit.
    pub fn check_count(limit: &'static str, count: u64, allowed: u64) -> (r: Result<(), ResourceLimitError>)
        ensures
            r == exceeded(limit, count, allowed),
    {
        if count > allowed {
            return Err(ResourceLimitError::Exceeded { limit, allowed, required: count });
        }
        Ok(())
    }

    /// Check the region count, which grows during segmentation.
    pub fn check_regions(&self, count: u64) -> (r: Result<(), ResourceLimitError>)
        ensures
            r == exceeded("max_regions", count, self.max_regions as u64),
    {
        Self::check_count("max_regions", count, self.max_regions as u64)
    }

    /// Check the boundary-sample count, which grows during topology extraction.
    pub fn check_boundary_samples(&self, count: u64) -> (r: Result<(), ResourceLimitError>)
        ensures
            r == exceeded("max_boundary_samples", count, self.max_boundary_samples),
    {
        Self::check_count("max_boundary_samples", count, self.max_boundary_samples)
    }

    /// Check the output element count.
    pub fn check_output_elements(&self, count: u64) -> (r: Result<(), ResourceLimitError>)
        ensures
            r == exceeded("max_output_elements", count, self.max_output_elements as u64),
    {
        Self::check_count("max_output_elements", count, self.max_output_elements as u64)
    }
}

/// Deterministic work accounting, denominated in abstract units rather than
/// wall-clock time.
#[derive(Debug)]
pub struct WorkBudget {
    limit: Option<u64>,
    spent: u64,
    stage: Stage,
    peak_bytes: u64,
}

impl WorkBudget {
    /// The budget's limit, if any.
    pub closed spec fn spec_limit(&self) -> Option<u64> {
        self.limit
    }

    /// Units charged so far.
    pub closed spec fn spec_spent(&self) -> u64 {
        self.spent
    }

    /// The stage subsequent charges belong to.
    pub closed spec fn spec_stage(&self) -> Stage {
        self.stage
    }

    /// The highest working-memory figure recorded.
    pub closed spec fn spec_peak(&self) -> u64 {
        self.peak_bytes
    }

    /// A budget enforcing `limits.work_budget`.
    pub fn new(limits: &ResourceLimits) -> (b: WorkBudget)
        ensures
            b.spec_limit() == limits.work_budget,
            b.spec_spent() == 0,
            b.spec_stage() == Stage::Validate,
            b.spec_peak() == 0,
    {
        WorkBudget { limit: limits.work_budget, spent: 0, stage: Stage::Validate, peak_bytes: 0 }
    }

    /// An unbounded budget that still counts, for measurement.
    pub fn unbounded() -> (b: WorkBudget)
        ensures
            b.spec_limit() is None,
            b.spec_spent() == 0,
            b.spec_stage() == Stage::Validate,
            b.spec_peak() == 0,
    {
        WorkBudget { limit: None, spent: 0, stage: Stage::Validate, peak_bytes: 0 }
    }

    /// Record which stage subsequent charges belong to.
    pub fn enter(&mut self, stage: Stage)
        ensures
            final(self).spec_stage() == stage,
            final(self).spec_limit() == old(self).spec_limit(),
            final(self).spec_spent() == old(self).spec_spent(),
            final(self).spec_peak() == old(self).spec_peak(),
    {
        self.stage = stage;
    }

    /// Charge `units` of work, saturating the running total.
    ///
    /// Once the total passes the limit every charge fails, naming the budget
    /// and the current stage; a charge made within the budget overshoots it by
    /// at most that charge.
    pub fn charge(&mut self, units: u64) -> (r: Result<(), TraceError>)
        ensures
            final(self).spec_spent() == if old(self).spec_spent() + units > u64::MAX {
                u64::MAX
            } else {
                (old(self).spec_spent() + units) as u64
            },
            final(self).spec_limit() == old(self).spec_limit(),
            final(self).spec_stage() == old(self).spec_stage(),
            final(self).spec_peak() == old(self).spec_peak(),
            match old(self).spec_limit() {
                Some(limit) => if final(self).spec_spent() > limit {
                    r == Err::<(), TraceError>(TraceError::ResourceLimit(
                        ResourceLimitError::WorkBudgetExhausted {
                            budget: limit,
                            stage: old(self).spec_stage().name(),
                        },
                    ))
                } else {
                    r is Ok
                },
                None => r is Ok,
            },
            old(self).spec_limit() is Some && old(self).spec_spent() <= old(self).spec_limit()->0
                ==> final(self).spec_spent() <= old(self).spec_limit()->0 + units,
    {
        let spent = self.spent.saturating_add(units);
        self.spent = spent;
        if let Some(limit) = self.limit {
            if spent > limit {
                return Err(TraceError::ResourceLimit(ResourceLimitError::WorkBudgetExhausted {
                    budget: limit,
                    stage: self.stage.as_str(),
                }));
            }
        }
        Ok(())
    }

    /// Note that `bytes` of working memory are live, keeping the high-water
    /// mark.
    pub fn note_bytes(&mut self, bytes: u64)
        ensures
            final(self).spec_peak() == if bytes > old(self).spec_peak() {
                bytes
            } else {
                old(self).spec_peak()
            },
            final(self).spec_limit() == old(self).spec_limit(),
            final(self).spec_spent() == old(self).spec_spent(),
            final(self).spec_stage() == old(self).spec_stage(),
    {
        if bytes > self.peak_bytes {
            self.peak_bytes = bytes;
        }
    }

    /// Work units charged so far.
    pub fn spent(&self) -> (n: u64)
        ensures
            n == self.spec_spent(),
    {
        self.spent
    }

    /// Statistics for the report.
    pub fn statistics(&self) -> (u: ResourceUsage)
        ensures
            u.work_units == self.spec_spent(),
            u.work_budget == self.spec_limit(),
            u.peak_working_bytes == self.spec_peak(),
    {
        ResourceUsage { work_units: self.spent, work_budget: self.limit, peak_working_bytes: self.peak_bytes }
    }
}

} // verus!
