use palette_tracer_engine::report::{has_warnings, AlgorithmVersions, Severity, Warning};

#[test]
fn algorithm_versions_are_reported_for_every_stage() {
    let a = AlgorithmVersions::default();
    for v in [&a.segmentation, &a.topology, &a.boundary, &a.curves] {
        assert!(v.contains('/'), "`{v}` must carry a version suffix");
    }
}

#[test]
fn warnings_carry_codes_and_optional_requirements() {
    let mut warnings = Vec::new();
    assert!(!has_warnings(&warnings));
    warnings.push(Warning::info("palette.assumed_srgb", "no profile was present"));
    assert!(!has_warnings(&warnings), "info is not a warning");
    warnings.push(Warning::warn("geometry.polyline_fallback", "chain 4 fell back").about("PTE-GEO-005"));
    assert!(has_warnings(&warnings));
    assert_eq!(warnings[1].requirement.as_deref(), Some("PTE-GEO-005"));
    assert_eq!(warnings[1].severity, Severity::Warning);
    assert_eq!(warnings[0].code, "palette.assumed_srgb");
}
