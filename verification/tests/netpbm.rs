use palette_tracer_engine::image::PixelFormat;
use palette_tracer_engine::limits::ResourceLimits;
use palette_tracer_engine::netpbm::decode;
use palette_tracer_engine::error::DecodeError;

#[test]
fn a_binary_ppm_decodes() {
    let mut bytes = b"P6\n2 1\n255\n".to_vec();
    bytes.extend_from_slice(&[255, 0, 0, 0, 0, 255]);
    let decoded = decode(&bytes, &ResourceLimits::default()).unwrap();
    assert_eq!((decoded.width, decoded.height), (2, 1));
    assert_eq!(decoded.format, PixelFormat::Rgb8);
    assert_eq!(decoded.data, vec![255, 0, 0, 0, 0, 255]);
}

#[test]
fn comments_in_the_header_are_skipped() {
    let mut bytes = b"P6\n# made by a tool\n1 1\n255\n".to_vec();
    bytes.extend_from_slice(&[1, 2, 3]);
    let decoded = decode(&bytes, &ResourceLimits::default()).unwrap();
    assert_eq!(decoded.data, vec![1, 2, 3]);
}

#[test]
fn a_pam_with_alpha_decodes() {
    let mut bytes =
        b"P7\nWIDTH 1\nHEIGHT 1\nDEPTH 4\nMAXVAL 255\nTUPLTYPE RGB_ALPHA\nENDHDR\n".to_vec();
    bytes.extend_from_slice(&[9, 8, 7, 6]);
    let decoded = decode(&bytes, &ResourceLimits::default()).unwrap();
    assert_eq!(decoded.format, PixelFormat::Rgba8);
    assert_eq!(decoded.data, vec![9, 8, 7, 6]);
}

#[test]
fn a_png_is_refused_by_name() {
    let png = [0x89, b'P', b'N', b'G', 0x0d, 0x0a, 0x1a, 0x0a, 0, 0];
    let err = decode(&png, &ResourceLimits::default()).unwrap_err();
    assert_eq!(err.code(), "decode.unsupported_format");
    assert!(err.message().contains("PNG"), "{}", err.message());
    assert!(err.message().contains("png_to_ppm"), "{}", err.message());
}

#[test]
fn truncated_pixel_data_is_refused() {
    let mut bytes = b"P6\n4 4\n255\n".to_vec();
    bytes.extend_from_slice(&[0; 10]);
    let err = decode(&bytes, &ResourceLimits::default()).unwrap_err();
    assert_eq!(err.code(), "decode.buffer_too_short");
}

#[test]
fn an_oversized_header_is_refused_before_allocation() {
    let bytes = b"P6\n100000 100000\n255\n".to_vec();
    let err = decode(&bytes, &ResourceLimits::small()).unwrap_err();
    assert_eq!(err.code(), "decode.unsupported_format");
    assert!(err.message().contains("max_"), "{}", err.message());
}

#[test]
fn a_sixteen_bit_ppm_is_refused_rather_than_truncated() {
    let bytes = b"P6\n1 1\n65535\n".to_vec();
    let err = decode(&bytes, &ResourceLimits::default()).unwrap_err();
    assert_eq!(err.code(), "decode.unsupported_format");
}

#[test]
fn truncated_data_reports_what_it_got_and_needed() {
    let mut bytes = b"P6\n4 4\n255\n".to_vec();
    bytes.extend_from_slice(&[0; 10]);
    let err = decode(&bytes, &ResourceLimits::default()).unwrap_err();
    assert_eq!(err, DecodeError::BufferTooShort { got: 10, needed: 48 });
}

#[test]
fn a_header_with_nothing_after_it_needs_every_pixel() {
    let bytes = b"P6\n1 1\n255".to_vec();
    let err = decode(&bytes, &ResourceLimits::default()).unwrap_err();
    assert_eq!(err, DecodeError::BufferTooShort { got: 0, needed: 3 });
}

#[test]
fn other_netpbm_kinds_are_named_in_the_refusal() {
    let err = decode(b"P3\n1 1\n255\n0 0 0\n", &ResourceLimits::default()).unwrap_err();
    match err {
        DecodeError::UnsupportedFormat { detail } => {
            assert_eq!(detail, "Netpbm P3 is not supported; use P6 or P7");
        }
        other => panic!("unexpected {other:?}"),
    }
}

#[test]
fn empty_or_truncated_inputs_are_classified() {
    assert_eq!(
        decode(b"", &ResourceLimits::default()).unwrap_err().code(),
        "decode.unsupported_format"
    );
    assert_eq!(
        decode(b"GIF89a", &ResourceLimits::default()).unwrap_err().code(),
        "decode.unsupported_format"
    );
    assert_eq!(
        decode(b"P", &ResourceLimits::default()).unwrap_err(),
        DecodeError::Malformed { detail: "truncated header".to_owned() }
    );
}

#[test]
fn a_missing_header_number_is_malformed() {
    let err = decode(b"P6\n2 x\n255\n", &ResourceLimits::default()).unwrap_err();
    assert_eq!(
        err,
        DecodeError::Malformed { detail: "expected a number in the header".to_owned() }
    );
}

#[test]
fn a_header_number_beyond_u64_is_quoted_in_the_refusal() {
    let err = decode(b"P6\n99999999999999999999 1\n255\n", &ResourceLimits::default()).unwrap_err();
    assert_eq!(
        err,
        DecodeError::Malformed { detail: "`99999999999999999999` is not a number".to_owned() }
    );
}

#[test]
fn a_width_beyond_u32_overflows() {
    let err = decode(b"P6\n4294967296 1\n255\n", &ResourceLimits::default()).unwrap_err();
    assert_eq!(err, DecodeError::DimensionOverflow { width: u32::MAX, height: 0 });
}

#[test]
fn a_zero_width_is_an_empty_image() {
    let err = decode(b"P6\n0 1\n255\n", &ResourceLimits::default()).unwrap_err();
    assert_eq!(err, DecodeError::EmptyImage);
}

#[test]
fn a_grey_pam_without_maxval_decodes() {
    let mut bytes = b"P7\r\nWIDTH  2 \r\nHEIGHT +1\nDEPTH 1\nENDHDR\n".to_vec();
    bytes.extend_from_slice(&[5, 6]);
    let decoded = decode(&bytes, &ResourceLimits::default()).unwrap();
    assert_eq!(decoded.format, PixelFormat::Gray8);
    assert_eq!((decoded.width, decoded.height), (2, 1));
    assert_eq!(decoded.data, vec![5, 6]);
}

#[test]
fn pam_headers_are_checked_field_by_field() {
    let limits = ResourceLimits::default();
    let no_end = decode(b"P7\nWIDTH 1\n", &limits).unwrap_err();
    assert_eq!(no_end, DecodeError::Malformed { detail: "PAM header has no ENDHDR".to_owned() });
    let no_height = decode(b"P7\nWIDTH 1\nDEPTH 3\nENDHDR\n", &limits).unwrap_err();
    assert_eq!(no_height, DecodeError::Malformed { detail: "PAM header has no HEIGHT".to_owned() });
    let deep = decode(b"P7\nWIDTH 1\nHEIGHT 1\nDEPTH 5\nENDHDR\n", &limits).unwrap_err();
    assert_eq!(
        deep,
        DecodeError::UnsupportedFormat { detail: "PAM DEPTH 5 is not 1, 2, 3 or 4".to_owned() }
    );
    let wide = decode(b"P7\nWIDTH 1\nHEIGHT 1\nDEPTH 3\nMAXVAL 65535\nENDHDR\n", &limits)
        .unwrap_err();
    assert_eq!(
        wide,
        DecodeError::UnsupportedFormat {
            detail: "MAXVAL 65535 is not 255; only 8-bit is read".to_owned()
        }
    );
    let bad_utf8 = decode(b"P7\n\xff\nENDHDR\n", &limits).unwrap_err();
    assert_eq!(bad_utf8, DecodeError::Malformed { detail: "PAM header is not ASCII".to_owned() });
}

#[test]
fn a_limit_beyond_the_address_space_still_decodes_small_images() {
    let limits = ResourceLimits { max_pixels: u64::MAX, ..ResourceLimits::default() };
    let mut bytes = b"P6\n2 1\n255\n".to_vec();
    bytes.extend_from_slice(&[255, 0, 0, 0, 0, 255]);
    let decoded = decode(&bytes, &limits).unwrap();
    assert_eq!(decoded.data, vec![255, 0, 0, 0, 0, 255]);
}

#[test]
fn a_byte_count_beyond_the_address_space_is_an_overflow() {
    let limits = ResourceLimits {
        max_width: u32::MAX,
        max_height: u32::MAX,
        max_pixels: u64::MAX,
        ..ResourceLimits::default()
    };
    let bytes = b"P7\nWIDTH 4294967295\nHEIGHT 4294967295\nDEPTH 4\nENDHDR\n";
    assert_eq!(
        decode(bytes, &limits).unwrap_err(),
        DecodeError::DimensionOverflow { width: u32::MAX, height: u32::MAX }
    );
}
