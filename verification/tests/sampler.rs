use palette_tracer_engine::color::sampler::cache_key;
use palette_tracer_engine::image::{AlphaMode, ColorEncoding, ImageView, Orientation, PixelFormat};

fn view<'a>(data: &'a [u8], format: PixelFormat) -> ImageView<'a> {
    ImageView::new(1, 1, 0, format, data, ColorEncoding::Srgb, AlphaMode::Straight, Orientation::Identity)
        .unwrap()
}

#[test]
fn the_cache_key_is_offered_only_for_eight_bit_formats() {
    let data8 = [1u8, 2, 3, 4];
    let v8 = view(&data8, PixelFormat::Rgba8);
    assert_eq!(cache_key(&v8, 0, 0), Some(0x0102_0304));

    let data16 = [0u8; 8];
    let v16 = view(&data16, PixelFormat::Rgba16);
    assert_eq!(cache_key(&v16, 0, 0), None);
}

#[test]
fn grey_and_opaque_keys_fill_in_the_missing_channels() {
    let grey = [0x40u8];
    assert_eq!(cache_key(&view(&grey, PixelFormat::Gray8), 0, 0), Some(0x4040_40ff));
    let rgb = [1u8, 2, 3];
    assert_eq!(cache_key(&view(&rgb, PixelFormat::Rgb8), 0, 0), Some(0x0102_03ff));
    assert_eq!(cache_key(&view(&rgb, PixelFormat::Rgb8), 5, 5), Some(0));
}
