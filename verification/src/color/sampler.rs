//! Exact keys for repeated colours.

use vstd::prelude::*;
use crate::image::{ImageView, PixelFormat, StoredSample};

verus! {

/// Four bytes packed big-endian into a `u32`.
pub open spec fn pack(r: u8, g: u8, b: u8, a: u8) -> u32 {
    (r * 0x100_0000 + g * 0x1_0000 + b * 0x100 + a) as u32
}

/// The key of a stored sample of an eight-bit format; a pixel outside the
/// image reads as transparent black.
pub open spec fn key_of(s: StoredSample) -> u32 {
    match s {
        StoredSample::Unorm8(v) => pack(v[0], v[1], v[2], v[3]),
        _ => 0,
    }
}

/// Pack the stored bytes of pixel `(x, y)` into a cache key.
///
/// Exactness matters: a cache may only reuse a result for a pixel that is
/// identical, so the key is the stored sample at eight bits per channel, and
/// it is offered only for formats whose samples that represents exactly.
pub fn cache_key(view: &ImageView<'_>, x: u32, y: u32) -> (k: Option<u32>)
    ensures
        view.spec_format().is_eight_bit() ==> k == Some(key_of(view.stored(x, y))),
        !view.spec_format().is_eight_bit() ==> k is None,
{
    match view.format() {
        PixelFormat::Gray8 | PixelFormat::GrayAlpha8 | PixelFormat::Rgb8 | PixelFormat::Rgba8 => {},
        _ => {
            return None;
        },
    }
    match view.sample_stored(x, y) {
        StoredSample::Unorm8(v) => {
            let r = v[0] as u32;
            let g = v[1] as u32;
            let b = v[2] as u32;
            let a = v[3] as u32;
            Some(r * 0x100_0000 + g * 0x1_0000 + b * 0x100 + a)
        },
        _ => Some(0),
    }
}

} // verus!
