use palette_tracer_engine::error::DecodeError;
use palette_tracer_engine::image::{
    AlphaMode, ColorEncoding, ImageView, Orientation, PixelFormat, StoredSample,
};

fn view(w: u32, h: u32, stride: usize, fmt: PixelFormat, data: &[u8]) -> Result<ImageView<'_>, DecodeError> {
    ImageView::new(
        w,
        h,
        stride,
        fmt,
        data,
        ColorEncoding::Srgb,
        AlphaMode::Straight,
        Orientation::Identity,
    )
}

#[test]
fn zero_dimensions_are_refused() {
    let data = [0u8; 16];
    assert_eq!(view(0, 4, 0, PixelFormat::Rgba8, &data).unwrap_err(), DecodeError::EmptyImage);
    assert_eq!(view(4, 0, 0, PixelFormat::Rgba8, &data).unwrap_err(), DecodeError::EmptyImage);
}

#[test]
fn a_short_buffer_is_refused_before_any_read() {
    let data = [0u8; 15];
    assert_eq!(
        view(2, 2, 0, PixelFormat::Rgba8, &data).unwrap_err(),
        DecodeError::BufferTooShort { got: 15, needed: 16 }
    );
}

#[test]
fn a_stride_below_one_row_is_refused() {
    let data = [0u8; 64];
    assert_eq!(
        view(4, 2, 8, PixelFormat::Rgba8, &data).unwrap_err(),
        DecodeError::StrideTooSmall { stride_bytes: 8, minimum: 16 }
    );
}

#[test]
fn a_stride_that_splits_a_pixel_is_refused() {
    let data = [0u8; 256];
    assert_eq!(
        view(4, 2, 17, PixelFormat::Rgba8, &data).unwrap_err(),
        DecodeError::StrideMisaligned { stride_bytes: 17, bytes_per_pixel: 4 }
    );
}

#[test]
fn the_last_row_does_not_need_a_full_trailing_stride() {
    let stride = 32;
    let data = vec![0u8; stride * 2 + 16];
    let v = view(4, 3, stride, PixelFormat::Rgba8, &data).unwrap();
    assert_eq!(v.pixel_count(), 12);
}

#[test]
fn padded_rows_are_read_from_the_right_offset() {
    let mut data = vec![0u8; 2 * (8 + 8)];
    data[0..4].copy_from_slice(&[255, 0, 0, 255]);
    data[4..8].copy_from_slice(&[0, 255, 0, 255]);
    data[16..20].copy_from_slice(&[0, 0, 255, 255]);
    let v = view(2, 2, 16, PixelFormat::Rgba8, &data).unwrap();
    assert_eq!(v.sample_stored(0, 0), StoredSample::Unorm8([255, 0, 0, 255]));
    assert_eq!(v.sample_stored(1, 0), StoredSample::Unorm8([0, 255, 0, 255]));
    assert_eq!(v.sample_stored(0, 1), StoredSample::Unorm8([0, 0, 255, 255]));
    assert_eq!(v.index(1, 1), 3);
}

#[test]
fn reading_outside_the_domain_is_total() {
    let data = [255u8; 16];
    let v = view(2, 2, 0, PixelFormat::Rgba8, &data).unwrap();
    assert_eq!(v.sample_stored(2, 0), StoredSample::Outside);
    assert_eq!(v.sample_stored(0, 99), StoredSample::Outside);
    assert!(!v.contains(2, 0));
}

#[test]
fn sixteen_bit_samples_are_little_endian() {
    let data = [0xFF, 0xFF, 0x00, 0x00, 0x00, 0x80, 0xFF, 0xFF];
    let v = view(1, 1, 0, PixelFormat::Rgba16, &data).unwrap();
    assert_eq!(v.sample_stored(0, 0), StoredSample::Unorm16([0xFFFF, 0, 0x8000, 0xFFFF]));
}

#[test]
fn grey_formats_replicate_the_luminance() {
    let data = [7u8, 9];
    let v = view(1, 1, 0, PixelFormat::GrayAlpha8, &data).unwrap();
    assert_eq!(v.sample_stored(0, 0), StoredSample::Unorm8([7, 7, 7, 9]));
    assert!(PixelFormat::GrayAlpha8.has_alpha());
    assert!(!PixelFormat::Rgb8.has_alpha());
    assert_eq!(PixelFormat::RgbaF32.bytes_per_pixel(), 16);
}

#[test]
fn an_rgba8_view_is_tightly_packed() {
    let data = [0u8; 8];
    let v = ImageView::rgba8(2, 1, &data).unwrap();
    assert_eq!(v.stride_bytes(), 8);
    assert_eq!((v.width(), v.height()), (2, 1));
    assert_eq!(v.format(), PixelFormat::Rgba8);
}
