use palette_tracer_engine::control::{
    cancel_outcome, check_cancel, NoControl, Stage, TraceControl, CANCEL_CHECK_STRIDE,
};
use palette_tracer_engine::error::TraceError;
use std::sync::atomic::{AtomicUsize, Ordering};

#[test]
fn stage_names_are_stable() {
    assert_eq!(Stage::Topology.as_str(), "topology");
    assert_eq!(Stage::Boundaries.as_str(), "boundaries");
}

struct CancelAfter {
    queries: AtomicUsize,
    after: usize,
}

impl TraceControl for CancelAfter {
    fn is_cancelled(&self) -> bool {
        self.queries.fetch_add(1, Ordering::Relaxed) >= self.after
    }
}

#[test]
fn cancellation_takes_effect_inside_a_long_loop() {
    let control = CancelAfter { queries: AtomicUsize::new(0), after: 2 };
    let mut completed = 0usize;
    let outcome = (0..1_000_000usize).try_for_each(|i| {
        check_cancel(&control, i)?;
        completed = i;
        Ok::<(), TraceError>(())
    });
    assert_eq!(outcome.unwrap_err(), TraceError::Cancelled);
    assert!(completed <= 3 * CANCEL_CHECK_STRIDE, "latency must be bounded by the stride, got {completed}");
}

#[test]
fn a_control_that_never_cancels_lets_the_loop_finish() {
    let control = NoControl;
    for i in 0..100_000usize {
        assert!(check_cancel(&control, i).is_ok());
    }
}

#[test]
fn the_control_is_consulted_only_on_the_stride() {
    let control = CancelAfter { queries: AtomicUsize::new(0), after: 0 };
    assert!(check_cancel(&control, 1).is_ok());
    assert_eq!(control.queries.load(Ordering::Relaxed), 0);
    assert_eq!(check_cancel(&control, CANCEL_CHECK_STRIDE), Err(TraceError::Cancelled));
}

#[test]
fn an_answer_of_cancelled_is_the_only_failure() {
    assert_eq!(cancel_outcome(true), Err(TraceError::Cancelled));
    assert_eq!(cancel_outcome(false), Ok(()));
}
