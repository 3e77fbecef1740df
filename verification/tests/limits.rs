use palette_tracer_engine::control::Stage;
use palette_tracer_engine::error::{ResourceLimitError, TraceError};
use palette_tracer_engine::limits::cost;
use palette_tracer_engine::limits::{ResourceLimits, WorkBudget};

#[test]
fn dimension_limits_are_checked_before_area() {
    let limits = ResourceLimits::small();
    let err = limits.check_dimensions(9999, 10).unwrap_err();
    assert_eq!(
        err,
        ResourceLimitError::Exceeded { limit: "max_width", allowed: 4096, required: 9999 }
    );
}

#[test]
fn area_is_bounded_independently_of_the_sides() {
    let limits = ResourceLimits::small();
    assert!(limits.check_dimensions(4096, 4096).is_err());
    assert!(limits.check_dimensions(1024, 1024).is_ok());
}

#[test]
fn region_count_is_bounded_after_the_image_was_accepted() {
    let limits = ResourceLimits::small();
    assert!(limits.check_dimensions(512, 512).is_ok());
    assert_eq!(
        limits.check_regions(262_144).unwrap_err(),
        ResourceLimitError::Exceeded { limit: "max_regions", allowed: 65_536, required: 262_144 }
    );
    let default = ResourceLimits::default();
    assert!(default.check_regions(262_144).is_ok());
    assert!(default.check_regions(70_000_000).is_err());
}

#[test]
fn the_work_budget_stops_a_runaway_stage() {
    let mut limits = ResourceLimits::small();
    limits.work_budget = Some(100);
    let mut budget = WorkBudget::new(&limits);
    budget.enter(Stage::Segment);

    let mut charged = 0u64;
    let outcome = (0..1000).try_for_each(|_| {
        budget.charge(cost::MERGE_POP)?;
        charged += cost::MERGE_POP;
        Ok::<(), TraceError>(())
    });

    let err = outcome.unwrap_err();
    assert_eq!(
        err,
        TraceError::ResourceLimit(ResourceLimitError::WorkBudgetExhausted {
            budget: 100,
            stage: "segment",
        })
    );
    assert!(budget.spent() <= 100 + cost::MERGE_POP);
    assert!(charged <= 100);
}

#[test]
fn an_unbounded_budget_still_counts() {
    let mut budget = WorkBudget::unbounded();
    budget.charge(cost::PIXEL * 1000).unwrap();
    assert_eq!(budget.spent(), 1000);
    assert_eq!(budget.statistics().work_budget, None);
}

#[test]
fn peak_bytes_is_a_high_water_mark_not_a_last_value() {
    let mut budget = WorkBudget::unbounded();
    budget.note_bytes(1000);
    budget.note_bytes(10);
    assert_eq!(budget.statistics().peak_working_bytes, 1000);
}

#[test]
fn a_saturated_total_never_wraps() {
    let mut budget = WorkBudget::unbounded();
    budget.charge(u64::MAX - 1).unwrap();
    budget.charge(5).unwrap();
    assert_eq!(budget.spent(), u64::MAX);
}

#[test]
fn counts_are_checked_against_their_named_limit() {
    let limits = ResourceLimits::small();
    assert_eq!(
        limits.check_output_elements(65_537).unwrap_err(),
        ResourceLimitError::Exceeded { limit: "max_output_elements", allowed: 65_536, required: 65_537 }
    );
    assert!(limits.check_boundary_samples(4_194_304).is_ok());
    assert_eq!(
        ResourceLimits::check_count("x", 3, 2).unwrap_err(),
        ResourceLimitError::Exceeded { limit: "x", allowed: 2, required: 3 }
    );
    assert_eq!(
        limits.check_dimensions(10, 5000).unwrap_err(),
        ResourceLimitError::Exceeded { limit: "max_height", allowed: 4096, required: 5000 }
    );
}
