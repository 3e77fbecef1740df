use palette_tracer_engine::config::effective::{
    canonical_modifiers, check_effective_palette, check_feature_modes, id_order, pick_setting,
    pick_with_modifier,
};
use palette_tracer_engine::config::policy::{check_entry_ids, default_role, parse_hex_color};
use palette_tracer_engine::config::profile::has_modifier;
use palette_tracer_engine::config::{
    check_cross_field, check_u32_range, BackgroundPolicy, DeterminismPolicy, GeometryMode,
    GradientMode, GradientPolicy, ImpliedSettings, Modifier, OutputPolicy, PaletteMode,
    PaletteRole, Precision, Profile, SettingSource, StrokeMode, StrokePolicy, Validate,
    CONFIG_SCHEMA_VERSION,
};
use palette_tracer_engine::error::ConfigError;

#[test]
fn hex_colours_parse_in_every_accepted_length() {
    assert_eq!(parse_hex_color("#f00").unwrap(), [255, 0, 0, 255]);
    assert_eq!(parse_hex_color("#FF0000").unwrap(), [255, 0, 0, 255]);
    assert_eq!(parse_hex_color("#ff000080").unwrap(), [255, 0, 0, 128]);
    assert_eq!(parse_hex_color("#abc").unwrap(), [0xaa, 0xbb, 0xcc, 255]);
}

#[test]
fn a_colour_name_or_bad_hex_is_refused() {
    for bad in ["red", "#gg0000", "ff0000", "#ff00", "#"] {
        assert!(parse_hex_color(bad).is_err(), "{bad} should not parse");
    }
}

#[test]
fn every_bad_colour_gets_the_same_palette_error() {
    for bad in ["#é12", "#12345", "", "#abcdefab0"] {
        assert_eq!(
            parse_hex_color(bad).unwrap_err(),
            ConfigError::Palette { reason: "colour must be #rgb, #rrggbb, or #rrggbbaa" }
        );
    }
}

#[test]
fn precision_beyond_twelve_decimals_is_refused() {
    let o = OutputPolicy { precision: Some(Precision::Fixed(13)), ..Default::default() };
    assert_eq!(o.validate().unwrap_err().code(), "config.out_of_range");
}

#[test]
fn twelve_decimals_and_auto_precision_are_accepted() {
    let fixed = OutputPolicy { precision: Some(Precision::Fixed(12)), ..Default::default() };
    assert!(fixed.validate().is_ok());
    let auto = OutputPolicy { precision: Some(Precision::Auto), ..Default::default() };
    assert!(auto.validate().is_ok());
    let refused = OutputPolicy { precision: Some(Precision::Fixed(200)), ..Default::default() };
    assert_eq!(
        refused.validate().unwrap_err(),
        ConfigError::OutOfRange {
            field: "output.precision",
            got: "200".to_owned(),
            expected: "at most 12 decimals"
        }
    );
}

#[test]
fn integer_ranges_name_the_field_and_the_value() {
    assert!(check_u32_range("f", None, 2, 256, "e").is_ok());
    assert!(check_u32_range("f", Some(2), 2, 256, "e").is_ok());
    assert_eq!(
        check_u32_range("gradients.maxStops", Some(300), 2, 256, "between 2 and 256").unwrap_err(),
        ConfigError::OutOfRange {
            field: "gradients.maxStops",
            got: "300".to_owned(),
            expected: "between 2 and 256"
        }
    );
    let g = GradientPolicy { mode: Some(GradientMode::Off), max_stops: Some(1) };
    assert_eq!(g.validate().unwrap_err().code(), "config.out_of_range");
    assert!(StrokePolicy { prefer: Some(StrokeMode::On) }.validate().is_ok());
    assert!(DeterminismPolicy::default().validate().is_ok());
}

#[test]
fn palette_identifiers_must_be_distinct_and_fixed_palettes_nonempty() {
    assert!(check_entry_ids(Some(PaletteMode::Fixed), &[1, 2]).is_ok());
    assert_eq!(check_entry_ids(Some(PaletteMode::Fixed), &[1, 1]).unwrap_err().code(), "config.palette");
    assert_eq!(check_entry_ids(Some(PaletteMode::Fixed), &[]).unwrap_err().code(), "config.palette");
    assert!(check_entry_ids(Some(PaletteMode::Automatic), &[]).is_ok());
    assert!(check_entry_ids(None, &[3, 9, 3]).is_err());
    assert_eq!(default_role(), PaletteRole::Fill);
}

#[test]
fn conflicting_modifiers_and_settings_name_both_sides() {
    let err = check_cross_field(
        &[Modifier::TransparentBackground],
        Some(BackgroundPolicy::Keep),
        None,
        false,
        None,
    )
    .unwrap_err();
    assert_eq!(err.code(), "config.incompatible_combination");
    let text = err.message();
    assert!(text.contains("transparent-background"), "{text}");
    assert!(text.contains("keep"), "{text}");

    let stacked = check_cross_field(&[Modifier::SharedMosaic], None, Some(GeometryMode::Stacked), false, None);
    assert_eq!(stacked.unwrap_err().code(), "config.incompatible_combination");
    let unscaled = check_cross_field(&[Modifier::PhysicalScaleKnown], None, None, false, None);
    assert_eq!(unscaled.unwrap_err().code(), "config.incompatible_combination");
    assert!(check_cross_field(&[Modifier::PhysicalScaleKnown], None, None, true, None).is_ok());
    let derived = check_cross_field(&[Modifier::ExactPalette], None, None, false, Some(PaletteMode::Automatic));
    assert_eq!(derived.unwrap_err().code(), "config.incompatible_combination");
    assert!(check_cross_field(&[], Some(BackgroundPolicy::Keep), Some(GeometryMode::Stacked), false, None).is_ok());
}

#[test]
fn every_profile_has_a_distinct_stable_identifier() {
    let mut seen = std::collections::BTreeSet::new();
    for p in Profile::ALL {
        assert!(seen.insert(p.as_str()), "duplicate id {}", p.as_str());
    }
    assert_eq!(seen.len(), 11);
    assert_eq!(Profile::FlatIllustration.as_str(), "flat-illustration");
    assert_eq!(Modifier::AllowExperimentalShading.as_str(), "allow-experimental-shading");
}

#[test]
fn every_modifier_has_a_distinct_identifier() {
    let all = [
        Modifier::ExactPalette,
        Modifier::PreserveAlpha,
        Modifier::TransparentBackground,
        Modifier::SharedMosaic,
        Modifier::StackedLayers,
        Modifier::RecognizePrimitives,
        Modifier::PreferStrokes,
        Modifier::PhysicalScaleKnown,
        Modifier::AllowPortableGradients,
        Modifier::AllowExperimentalShading,
        Modifier::StrictDeterminism,
    ];
    let ids: std::collections::BTreeSet<&str> = all.iter().map(|m| m.as_str()).collect();
    assert_eq!(ids.len(), 11);
    assert_eq!(Modifier::ExactPalette.as_str(), "exact-palette");
    assert_eq!(Modifier::StrictDeterminism.as_str(), "strict-determinism");
}

#[test]
fn unimplemented_profiles_name_their_sections() {
    let requirement = |p: Profile| match p.check_implemented() {
        Err(ConfigError::UnsupportedInThisBuild { field: "profile", requirement }) => requirement,
        other => panic!("{other:?}"),
    };
    assert_eq!(requirement(Profile::VinylCut), "PTE-FAB-001 (§16 fabrication)");
    assert_eq!(requirement(Profile::LineArt), "PTE-STROKE-001 (§13 centrelines)");
    assert_eq!(requirement(Profile::GradientIllustration), "PTE-GRAD-001 (§14 gradients)");
    assert_eq!(requirement(Profile::Poster), "PTE-GOAL-006 (§3 poster profile)");
}

#[test]
fn unimplemented_profiles_are_refused_with_their_requirement() {
    for profile in Profile::ALL {
        if profile.is_implemented() {
            assert!(profile.check_implemented().is_ok());
            assert!(profile.check_modifiers(&[]).is_ok());
        } else {
            let err = profile.check_implemented().unwrap_err();
            assert_eq!(err.code(), "config.unsupported_in_this_build");
            assert!(!profile.missing_requirement().is_empty());
            assert_eq!(profile.check_modifiers(&[]).unwrap_err(), err);
        }
    }
}

#[test]
fn forbidden_modifier_pairings_are_refused() {
    let p = Profile::FlatIllustration;
    let both = p.check_modifiers(&[Modifier::SharedMosaic, Modifier::StackedLayers]).unwrap_err();
    assert_eq!(both.code(), "config.incompatible_combination");
    let strokes = Profile::PixelArt.check_modifiers(&[Modifier::PreferStrokes]).unwrap_err();
    assert_eq!(strokes.code(), "config.incompatible_combination");
    let shading = p.check_modifiers(&[Modifier::AllowExperimentalShading]).unwrap_err();
    assert_eq!(shading.code(), "config.incompatible_combination");
    assert!(p.check_modifiers(&[Modifier::ExactPalette, Modifier::PreserveAlpha]).is_ok());
}

#[test]
fn unimplemented_modifiers_are_refused() {
    for modifier in [Modifier::PreferStrokes, Modifier::AllowPortableGradients, Modifier::RecognizePrimitives] {
        let err = Profile::Logo.check_modifiers(&[modifier]).unwrap_err();
        assert_eq!(err.code(), "config.unsupported_in_this_build", "{}", modifier.as_str());
        assert_eq!(
            err,
            ConfigError::UnsupportedInThisBuild {
                field: modifier.as_str(),
                requirement: match modifier {
                    Modifier::PreferStrokes => "PTE-STROKE-001 (§13 centrelines)",
                    Modifier::AllowPortableGradients => "PTE-GRAD-001 (§14 gradients)",
                    _ => "PTE-GEO-010 (§11.7 primitive recognition)",
                }
            }
        );
    }
}

#[test]
fn modifiers_are_canonicalised_and_deduplicated() {
    let a = canonical_modifiers(&[Modifier::PreserveAlpha, Modifier::ExactPalette, Modifier::PreserveAlpha]);
    let b = canonical_modifiers(&[Modifier::ExactPalette, Modifier::PreserveAlpha]);
    assert_eq!(a, b);
    assert_eq!(a, vec![Modifier::ExactPalette, Modifier::PreserveAlpha]);
    assert!(canonical_modifiers(&[]).is_empty());
    assert!(has_modifier(&a, Modifier::ExactPalette));
    assert!(!has_modifier(&a, Modifier::StackedLayers));
}

#[test]
fn a_modifier_stands_for_a_setting() {
    let s = ImpliedSettings::from_modifiers(&[Modifier::ExactPalette, Modifier::StackedLayers]);
    assert_eq!(s.palette_mode, Some(PaletteMode::Fixed));
    assert_eq!(s.geometry_mode, Some(GeometryMode::Stacked));
    assert_eq!(s.background, None);
    assert_eq!(s.determinism, None);
    let t = ImpliedSettings::from_modifiers(&[Modifier::StackedLayers, Modifier::SharedMosaic]);
    assert_eq!(t.geometry_mode, Some(GeometryMode::SharedMosaic));
}

#[test]
fn the_caller_value_wins_and_its_source_is_recorded() {
    assert_eq!(pick_setting(Some(3u32), 7), (3, SettingSource::User));
    assert_eq!(pick_setting(None, 7u32), (7, SettingSource::Profile));
    assert_eq!(pick_with_modifier(Some(1u32), Some(2), 3), (1, SettingSource::User));
    assert_eq!(pick_with_modifier(None, Some(2u32), 3), (2, SettingSource::User));
    assert_eq!(pick_with_modifier(None::<u32>, None, 3), (3, SettingSource::Profile));
}

#[test]
fn a_stroke_or_gradient_request_is_refused_with_its_requirement() {
    let err = check_feature_modes(StrokeMode::Auto, GradientMode::Off).unwrap_err();
    assert!(err.message().contains("PTE-STROKE-001"), "{}", err.message());
    let err = check_feature_modes(StrokeMode::Off, GradientMode::Standard).unwrap_err();
    assert!(err.message().contains("PTE-GRAD-001"), "{}", err.message());
    assert!(check_feature_modes(StrokeMode::Off, GradientMode::Off).is_ok());
    assert!(check_effective_palette(PaletteMode::Fixed, 0).is_err());
    assert!(check_effective_palette(PaletteMode::Fixed, 1).is_ok());
    assert!(check_effective_palette(PaletteMode::Automatic, 0).is_ok());
    assert_eq!(CONFIG_SCHEMA_VERSION, 1);
}

#[test]
fn entries_are_held_in_id_order_not_array_order() {
    let order = id_order(&[9, 2, 5]);
    assert_eq!(order, vec![1, 2, 0]);
    let tied = id_order(&[4, 1, 4, 1]);
    assert_eq!(tied, vec![1, 3, 0, 2]);
    assert!(id_order(&[]).is_empty());
}
