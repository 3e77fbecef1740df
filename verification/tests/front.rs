use palette_tracer_engine::cli::{
    check_outputs, check_svg, missing_value, out_of_range, palette_colors, read_arg, shallow_svg_problems, Arg,
};
use palette_tracer_engine::config::{BackgroundPolicy, Profile};
use palette_tracer_engine::error::{ConfigError, ResourceLimitError, TraceError, ValidationError};
use palette_tracer_engine::image::{AlphaMode, PixelFormat};
use palette_tracer_engine::limits::ResourceLimits;
use palette_tracer_engine::netpbm::{load, view, Decoded};

#[test]
fn validate_separates_a_good_svg_from_a_bad_one() {
    assert!(check_svg(b"  <svg viewBox=\"0 0 1 1\"><path d=\"M0 0\"/></svg>\n").is_ok());
    let bad = check_svg(b"<svg><script>x</script>NaN").unwrap_err();
    assert_eq!(
        bad,
        ValidationError::Svg {
            check: "shallow_svg_checks",
            detail: "does not end with </svg>; contains a non-finite number; contains a script element"
                .to_owned()
        }
    );
    assert_eq!(
        check_svg(b"\xff<svg></svg>").unwrap_err(),
        ValidationError::Svg { check: "utf8", detail: "the file is not UTF-8".to_owned() }
    );
}

#[test]
fn every_shallow_problem_is_listed_in_order() {
    let problems = shallow_svg_problems(b"<<g>NaN Infinity");
    assert_eq!(
        problems,
        vec![
            "does not start with an <svg> element",
            "does not end with </svg>",
            "angle brackets are unbalanced",
            "contains a non-finite number",
            "contains a non-finite number",
        ]
    );
    assert!(shallow_svg_problems("\u{3000}<svg></svg>\u{a0}".as_bytes()).is_empty());
}

#[test]
fn command_line_errors_name_the_flag_and_field() {
    assert_eq!(
        missing_value("--report".to_owned()),
        TraceError::Config(ConfigError::UnknownValue {
            field: "option",
            got: "--report needs a value".to_owned()
        })
    );
    assert_eq!(
        out_of_range("palette.maxColors", "many"),
        TraceError::Config(ConfigError::OutOfRange {
            field: "palette.maxColors",
            got: "many".to_owned(),
            expected: "a number"
        })
    );
}

#[test]
fn decoded_pixels_are_viewed_with_their_alpha_rule() {
    let rgb = Decoded { width: 1, height: 1, format: PixelFormat::Rgb8, data: vec![1, 2, 3] };
    assert_eq!(view(&rgb).unwrap().alpha_mode(), AlphaMode::Opaque);
    let rgba = Decoded { width: 1, height: 1, format: PixelFormat::Rgba8, data: vec![1, 2, 3, 4] };
    assert_eq!(view(&rgba).unwrap().alpha_mode(), AlphaMode::Straight);
    let short = Decoded { width: 2, height: 1, format: PixelFormat::Rgba8, data: vec![1, 2, 3, 4] };
    assert!(view(&short).is_err());
}

#[test]
fn the_input_size_limit_comes_before_decoding() {
    let mut limits = ResourceLimits::default();
    limits.max_input_bytes = 4;
    assert_eq!(
        load(b"P6\n1 1\n255\n\x01\x02\x03", &limits).unwrap_err(),
        TraceError::ResourceLimit(ResourceLimitError::Exceeded {
            limit: "max_input_bytes",
            allowed: 4,
            required: 14
        })
    );
    let decoded = load(b"P6\n1 1\n255\n\x01\x02\x03", &ResourceLimits::default()).unwrap();
    assert_eq!(decoded.data, vec![1, 2, 3]);
    assert_eq!(load(b"P5", &ResourceLimits::default()).unwrap_err().code(), "decode.unsupported_format");
}

fn args(v: &[&str]) -> Vec<String> {
    v.iter().map(|s| (*s).to_owned()).collect()
}

#[test]
fn flags_read_their_values() {
    let a = args(&[
        "--profile", "logo", "--max-colors", "+7", "--background", "transparent", "--palette",
        " #fff , ,#000,", "in.ppm", "--pretty", "--config", "c.json", "--report", "-",
        "--curve-tolerance", "0.5", "--exact-palette", "--print-effective-config",
    ]);
    assert_eq!(read_arg(&a, 0), Ok((Arg::Profile(Profile::Logo), 2)));
    assert_eq!(read_arg(&a, 2), Ok((Arg::MaxColors(7), 4)));
    assert_eq!(read_arg(&a, 4), Ok((Arg::Background(BackgroundPolicy::Transparent), 6)));
    assert_eq!(
        read_arg(&a, 6),
        Ok((Arg::Palette(vec!["#fff".to_owned(), "#000".to_owned()]), 8))
    );
    assert_eq!(read_arg(&a, 8), Ok((Arg::Positional("in.ppm".to_owned()), 9)));
    assert_eq!(read_arg(&a, 9), Ok((Arg::Pretty, 10)));
    assert_eq!(read_arg(&a, 10), Ok((Arg::Config("c.json".to_owned()), 12)));
    assert_eq!(read_arg(&a, 12), Ok((Arg::Report("-".to_owned()), 14)));
    assert_eq!(read_arg(&a, 14), Ok((Arg::CurveTolerance("0.5".to_owned()), 16)));
    assert_eq!(read_arg(&a, 16), Ok((Arg::ExactPalette, 17)));
    assert_eq!(read_arg(&a, 17), Ok((Arg::PrintEffectiveConfig, 18)));
    // A value flag takes the next argument whatever it looks like.
    assert_eq!(read_arg(&args(&["--report", "--pretty"]), 0), Ok((Arg::Report("--pretty".to_owned()), 2)));
    assert_eq!(read_arg(&args(&["-"]), 0), Ok((Arg::Positional("-".to_owned()), 1)));
}

#[test]
fn bad_flags_are_refused_by_name() {
    assert_eq!(
        read_arg(&args(&["in.ppm", "--max-colors"]), 1),
        Err(TraceError::Config(ConfigError::UnknownValue {
            field: "option",
            got: "--max-colors needs a value".to_owned()
        }))
    );
    assert_eq!(
        read_arg(&args(&["--profile", "nope"]), 0),
        Err(TraceError::Config(ConfigError::UnknownValue { field: "profile", got: "nope".to_owned() }))
    );
    assert_eq!(
        read_arg(&args(&["--palette", " , "]), 0),
        Err(TraceError::Config(ConfigError::Palette { reason: "`--palette` was given no colours" }))
    );
    for bad in ["4294967296", "-1", "", "+", "1 2", "seven"] {
        assert_eq!(
            read_arg(&args(&["--max-colors", bad]), 0),
            Err(TraceError::Config(ConfigError::OutOfRange {
                field: "palette.maxColors",
                got: bad.to_owned(),
                expected: "a number"
            }))
        );
    }
    assert_eq!(read_arg(&args(&["--max-colors", "4294967295"]), 0), Ok((Arg::MaxColors(u32::MAX), 2)));
    assert_eq!(
        read_arg(&args(&["--background", "none"]), 0),
        Err(TraceError::Config(ConfigError::UnknownValue {
            field: "color.background",
            got: "none".to_owned()
        }))
    );
    assert_eq!(
        read_arg(&args(&["--frobnicate"]), 0),
        Err(TraceError::Config(ConfigError::UnknownValue {
            field: "option",
            got: "--frobnicate".to_owned()
        }))
    );
}

#[test]
fn a_palette_list_is_split_on_commas_and_trimmed() {
    assert_eq!(palette_colors("\u{3000}#abc ,\t#def\n"), vec!["#abc".to_owned(), "#def".to_owned()]);
    assert_eq!(palette_colors("a,,b,"), vec!["a".to_owned(), "b".to_owned()]);
    assert!(palette_colors("").is_empty());
    assert!(palette_colors(" ,\u{a0}, ").is_empty());
    assert_eq!(palette_colors("x y"), vec!["x y".to_owned()]);
}

#[test]
fn the_svg_and_the_report_cannot_both_take_stdout() {
    assert_eq!(
        check_outputs("-", Some("-")),
        Err(TraceError::Config(ConfigError::UnknownValue {
            field: "report",
            got: "the SVG and the report cannot both go to stdout; send one of them to a file".to_owned()
        }))
    );
    assert_eq!(check_outputs("out.svg", Some("-")), Ok(()));
    assert_eq!(check_outputs("-", Some("report.json")), Ok(()));
    assert_eq!(check_outputs("-", None), Ok(()));
}
