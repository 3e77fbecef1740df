use palette_tracer_engine::error::{
    ConfigError, DecodeError, InternalError, NumericalError, ResourceLimitError, TraceError,
    ValidationError,
};

#[test]
fn exit_codes_match_the_spec_table() {
    let cases: [(TraceError, i32); 7] = [
        (TraceError::Config(ConfigError::NotFinite { field: "x" }), 2),
        (TraceError::Decode(DecodeError::EmptyImage), 3),
        (
            TraceError::ResourceLimit(ResourceLimitError::Exceeded {
                limit: "max_pixels",
                allowed: 1,
                required: 2,
            }),
            4,
        ),
        (TraceError::Numerical(NumericalError::NonFinite { context: "fit" }), 5),
        (TraceError::Validation(ValidationError::UnassignedPixels { count: 1 }), 6),
        (TraceError::Cancelled, 7),
        (
            TraceError::Internal(InternalError { invariant: "i", detail: String::new() }),
            8,
        ),
    ];
    for (err, expected) in cases {
        assert_eq!(err.exit_code(), expected, "for {}", err.message());
    }
}

#[test]
fn codes_are_category_prefixed_and_stable() {
    assert_eq!(TraceError::Decode(DecodeError::EmptyImage).code(), "decode.empty_image");
    assert_eq!(TraceError::Cancelled.code(), "cancelled");
    assert_eq!(
        TraceError::Config(ConfigError::UnsupportedInThisBuild {
            field: "strokes.prefer",
            requirement: "PTE-STROKE-001",
        })
        .code(),
        "config.unsupported_in_this_build"
    );
}

#[test]
fn messages_render_their_numbers_in_decimal() {
    assert_eq!(
        DecodeError::BufferTooShort { got: 15, needed: 16 }.message(),
        "buffer has 15 bytes, geometry needs 16"
    );
    assert_eq!(
        ResourceLimitError::Exceeded { limit: "max_width", allowed: 4096, required: 9999 }.message(),
        "max_width: needed 9999, limit is 4096"
    );
    assert_eq!(
        ConfigError::UnsupportedSchemaVersion { got: 99, supported: 1 }.message(),
        "config schema version 99, this build implements 1"
    );
    assert_eq!(
        DecodeError::DimensionOverflow { width: 0, height: 4294967295 }.message(),
        "0x4294967295 overflows address arithmetic"
    );
}
