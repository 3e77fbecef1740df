//! Cooperative cancellation at bounded work intervals, and the names of the
//! pipeline stages.

use vstd::prelude::*;
use crate::error::TraceError;

verus! {

/// Pipeline stage.
#[derive(Debug, Clone, Copy, PartialEq, Eq, PartialOrd, Ord, Hash)]
pub enum Stage {
    /// Validate and normalise.
    Validate,
    /// Analyse: colour statistics, edge field, palette model.
    Analyze,
    /// Segment into an exclusive label map and region graph.
    Segment,
    /// Build the shared topology graph.
    Topology,
    /// Refine boundaries to subpixel positions.
    Boundaries,
    /// Fit the hybrid representation.
    Fit,
    /// Apply destination policy.
    Destination,
    /// Serialise.
    Serialize,
    /// Validate output.
    Validation,
}

impl Stage {
    /// The stable lowercase identifier of each stage.
    pub open spec fn name(self) -> &'static str {
        match self {
            Stage::Validate => "validate",
            Stage::Analyze => "analyze",
            Stage::Segment => "segment",
            Stage::Topology => "topology",
            Stage::Boundaries => "boundaries",
            Stage::Fit => "fit",
            Stage::Destination => "destination",
            Stage::Serialize => "serialize",
            Stage::Validation => "validation",
        }
    }

    /// Stable lowercase identifier, used in reports and error payloads.
    pub fn as_str(self) -> (s: &'static str)
        ensures
            s == self.name(),
    {
        match self {
            Stage::Validate => "validate",
            Stage::Analyze => "analyze",
            Stage::Segment => "segment",
            Stage::Topology => "topology",
            Stage::Boundaries => "boundaries",
            Stage::Fit => "fit",
            Stage::Destination => "destination",
            Stage::Serialize => "serialize",
            Stage::Validation => "validation",
        }
    }
}

/// Caller-supplied cancellation.
///
/// The engine consults it on a fixed stride inside stage inner loops, so an
/// implementation must be cheap, and it may be shared across threads.
/// Nothing is assumed of its answers.
pub trait TraceControl: Sync {
    /// Whether the caller has asked the trace to stop.
    fn is_cancelled(&self) -> bool;
}

/// A control that never cancels.
#[derive(Debug, Clone, Copy, Default)]
pub struct NoControl;

impl TraceControl for NoControl {
    fn is_cancelled(&self) -> (r: bool)
        ensures
            !r,
    {
        false
    }
}

/// How many inner-loop iterations may pass between cancellation checks.
pub const CANCEL_CHECK_STRIDE: usize = 4096;

/// What a cancellation check returns once the control has answered:
/// [`TraceError::Cancelled`] if it answered that the caller has cancelled.
pub fn cancel_outcome(cancelled: bool) -> (r: Result<(), TraceError>)
    ensures
        r == (if cancelled {
            Err::<(), TraceError>(TraceError::Cancelled)
        } else {
            Ok(())
        }),
{
    if cancelled {
        Err(TraceError::Cancelled)
    } else {
        Ok(())
    }
}

/// Return [`TraceError::Cancelled`] if the caller has cancelled, consulting the
/// control only on iterations that are a multiple of [`CANCEL_CHECK_STRIDE`].
///
/// Whatever the control answers, an iteration off the stride succeeds and the
/// only failure is cancellation; on the stride the result is
/// [`cancel_outcome`] of the control's answer.
pub fn check_cancel<C: TraceControl>(control: &C, iteration: usize) -> (r: Result<(), TraceError>)
    ensures
        iteration % CANCEL_CHECK_STRIDE != 0 ==> r is Ok,
        r is Err ==> r == Err::<(), TraceError>(TraceError::Cancelled),
{
    if iteration % CANCEL_CHECK_STRIDE == 0 {
        cancel_outcome(control.is_cancelled())
    } else {
        Ok(())
    }
}

} // verus!
