//! Validated pixel input.
//!
//! Every check on dimensions, stride, multiplication overflow, format
//! alignment and byte length happens in [`ImageView::new`], before any pixel
//! is read; afterwards reading any pixel inside the declared dimensions is in
//! bounds. Pixel `(x, y)` has its centre at `(x + 0.5, y + 0.5)`.

use vstd::prelude::*;
use crate::checked::{mul_bytes, pixel_count, u32_to_usize};
use crate::error::DecodeError;

verus! {

/// Layout of one pixel in the input buffer. Multi-byte samples are
/// little-endian.
#[derive(Debug, Clone, Copy, PartialEq, Eq, Hash, Structural)]
pub enum PixelFormat {
    /// One 8-bit luminance sample, fully opaque.
    Gray8,
    /// 8-bit luminance followed by 8-bit alpha.
    GrayAlpha8,
    /// Three 8-bit samples, red then green then blue, fully opaque.
    Rgb8,
    /// Four 8-bit samples, red green blue alpha.
    Rgba8,
    /// Four 16-bit little-endian samples, red green blue alpha.
    Rgba16,
    /// Four 32-bit little-endian IEEE floats, red green blue alpha.
    RgbaF32,
}

impl PixelFormat {
    /// Bytes one pixel occupies.
    pub open spec fn pixel_bytes(self) -> nat {
        match self {
            PixelFormat::Gray8 => 1,
            PixelFormat::GrayAlpha8 => 2,
            PixelFormat::Rgb8 => 3,
            PixelFormat::Rgba8 => 4,
            PixelFormat::Rgba16 => 8,
            PixelFormat::RgbaF32 => 16,
        }
    }

    /// Bytes one pixel occupies.
    pub fn bytes_per_pixel(self) -> (n: usize)
        ensures
            n == self.pixel_bytes(),
    {
        match self {
            PixelFormat::Gray8 => 1,
            PixelFormat::GrayAlpha8 => 2,
            PixelFormat::Rgb8 => 3,
            PixelFormat::Rgba8 => 4,
            PixelFormat::Rgba16 => 8,
            PixelFormat::RgbaF32 => 16,
        }
    }

    /// Whether the format carries an alpha channel.
    pub fn has_alpha(self) -> (b: bool)
        ensures
            b == (self == PixelFormat::GrayAlpha8 || self == PixelFormat::Rgba8
                || self == PixelFormat::Rgba16 || self == PixelFormat::RgbaF32),
    {
        match self {
            PixelFormat::GrayAlpha8 | PixelFormat::Rgba8 | PixelFormat::Rgba16
            | PixelFormat::RgbaF32 => true,
            _ => false,
        }
    }

    /// Whether one stored sample is exactly eight bits per channel.
    pub open spec fn is_eight_bit(self) -> bool {
        self == PixelFormat::Gray8 || self == PixelFormat::GrayAlpha8 || self == PixelFormat::Rgb8
            || self == PixelFormat::Rgba8
    }
}

/// How the numeric channel values are encoded.
#[derive(Debug, Clone, Copy, PartialEq, Eq, Hash, Structural)]
pub enum ColorEncoding {
    /// sRGB transfer function, sRGB primaries.
    Srgb,
    /// Already linear-light, sRGB primaries.
    LinearSrgb,
}

/// Whether colour channels are premultiplied by alpha.
#[derive(Debug, Clone, Copy, PartialEq, Eq, Hash, Structural)]
pub enum AlphaMode {
    /// Colour channels are independent of alpha.
    Straight,
    /// Colour channels are already multiplied by alpha.
    Premultiplied,
    /// The image has no meaningful alpha; every pixel is opaque.
    Opaque,
}

/// How orientation metadata was handled.
#[derive(Debug, Clone, Copy, PartialEq, Eq, Hash, Structural)]
pub enum Orientation {
    /// No orientation metadata existed, or it was the identity.
    Identity,
    /// Orientation metadata existed and the adapter has already applied it.
    AlreadyApplied,
}

/// One pixel's channels exactly as stored, widened to four channels.
///
/// Luminance is repeated into red, green and blue; a format without alpha
/// reports full alpha. Nothing is rescaled or linearised.
#[derive(Debug, Clone, Copy, PartialEq, Eq)]
pub enum StoredSample {
    /// The coordinate lies outside the image.
    Outside,
    /// Eight-bit channels, red green blue alpha.
    Unorm8([u8; 4]),
    /// Sixteen-bit channels, red green blue alpha.
    Unorm16([u16; 4]),
    /// The IEEE bit patterns of 32-bit float channels, red green blue alpha.
    Float32([u32; 4]),
}

/// The little-endian value of two bytes.
pub open spec fn le16(lo: u8, hi: u8) -> u16 {
    (lo as int + 256 * hi as int) as u16
}

/// The little-endian value of four bytes.
pub open spec fn le32(b0: u8, b1: u8, b2: u8, b3: u8) -> u32 {
    (b0 as int + 256 * b1 as int + 65536 * b2 as int + 16777216 * b3 as int) as u32
}

/// Why a buffer cannot be viewed as an image, in the order the checks run,
/// or the effective stride when every check passes.
pub open spec fn layout(
    width: u32,
    height: u32,
    stride_bytes: usize,
    format: PixelFormat,
    len: usize,
) -> Result<usize, DecodeError> {
    let bpp = format.pixel_bytes() as int;
    let row = width as int * bpp;
    let stride = if stride_bytes == 0 { row } else { stride_bytes as int };
    let full = stride * (height as int - 1);
    if width == 0 || height == 0 {
        Err(DecodeError::EmptyImage)
    } else if width as int * height as int > usize::MAX {
        Err(DecodeError::DimensionOverflow { width, height })
    } else if row > usize::MAX {
        Err(DecodeError::DimensionOverflow { width, height })
    } else if stride < row {
        Err(DecodeError::StrideTooSmall { stride_bytes: stride as usize, minimum: row as usize })
    } else if stride % bpp != 0 {
        Err(DecodeError::StrideMisaligned { stride_bytes: stride as usize, bytes_per_pixel: bpp as usize })
    } else if full > usize::MAX || full + row > usize::MAX {
        Err(DecodeError::DimensionOverflow { width, height })
    } else if (len as int) < full + row {
        Err(DecodeError::BufferTooShort { got: len, needed: (full + row) as usize })
    } else {
        Ok(stride as usize)
    }
}

/// A validated, borrowed view of decoded pixels.
#[derive(Debug, Clone, Copy)]
pub struct ImageView<'a> {
    width: u32,
    height: u32,
    stride_bytes: usize,
    format: PixelFormat,
    data: &'a [u8],
    color_encoding: ColorEncoding,
    alpha_mode: AlphaMode,
    orientation: Orientation,
}

impl<'a> ImageView<'a> {
    /// Width in pixels.
    pub closed spec fn spec_width(&self) -> u32 {
        self.width
    }

    /// Height in pixels.
    pub closed spec fn spec_height(&self) -> u32 {
        self.height
    }

    /// Distance between row starts, in bytes.
    pub closed spec fn spec_stride(&self) -> usize {
        self.stride_bytes
    }

    /// Pixel layout.
    pub closed spec fn spec_format(&self) -> PixelFormat {
        self.format
    }

    /// The borrowed bytes.
    pub closed spec fn spec_data(&self) -> Seq<u8> {
        self.data@
    }

    /// Declared encoding.
    pub closed spec fn spec_encoding(&self) -> ColorEncoding {
        self.color_encoding
    }

    /// Declared alpha association.
    pub closed spec fn spec_alpha_mode(&self) -> AlphaMode {
        self.alpha_mode
    }

    /// Declared orientation handling.
    pub closed spec fn spec_orientation(&self) -> Orientation {
        self.orientation
    }

    #[verifier::type_invariant]
    closed spec fn valid(&self) -> bool {
        layout(self.width, self.height, self.stride_bytes, self.format, self.data@.len() as usize)
            == Ok::<usize, DecodeError>(self.stride_bytes)
            && self.data@.len() <= usize::MAX
    }

    /// Byte offset of pixel `(x, y)`.
    pub open spec fn offset(&self, x: u32, y: u32) -> int {
        y as int * self.spec_stride() as int + x as int * self.spec_format().pixel_bytes() as int
    }

    /// Validate and wrap a decoded pixel buffer.
    ///
    /// A stride of zero means tightly packed rows. The last row needs only one
    /// row of bytes, not a full stride.
    pub fn new(
        width: u32,
        height: u32,
        stride_bytes: usize,
        format: PixelFormat,
        data: &'a [u8],
        color_encoding: ColorEncoding,
        alpha_mode: AlphaMode,
        orientation: Orientation,
    ) -> (r: Result<Self, DecodeError>)
        ensures
            match layout(width, height, stride_bytes, format, data@.len() as usize) {
                Ok(stride) => r matches Ok(v) && {
                    &&& v.spec_width() == width
                    &&& v.spec_height() == height
                    &&& v.spec_stride() == stride
                    &&& v.spec_format() == format
                    &&& v.spec_data() == data@
                    &&& v.spec_encoding() == color_encoding
                    &&& v.spec_alpha_mode() == alpha_mode
                    &&& v.spec_orientation() == orientation
                },
                Err(e) => r == Err::<Self, DecodeError>(e),
            },
    {
        let _ = pixel_count(width, height)?;
        let bpp = format.bytes_per_pixel();
        let row_bytes = mul_bytes(u32_to_usize(width), bpp, width, height)?;
        let stride = if stride_bytes == 0 {
            row_bytes
        } else {
            stride_bytes
        };
        if stride < row_bytes {
            return Err(DecodeError::StrideTooSmall { stride_bytes: stride, minimum: row_bytes });
        }
        if stride % bpp != 0 {
            return Err(DecodeError::StrideMisaligned { stride_bytes: stride, bytes_per_pixel: bpp });
        }
        let full_rows = mul_bytes(stride, u32_to_usize(height) - 1, width, height)?;
        let needed = match full_rows.checked_add(row_bytes) {
            Some(n) => n,
            None => {
                return Err(DecodeError::DimensionOverflow { width, height });
            },
        };
        if data.len() < needed {
            return Err(DecodeError::BufferTooShort { got: data.len(), needed });
        }
        Ok(ImageView {
            width,
            height,
            stride_bytes: stride,
            format,
            data,
            color_encoding,
            alpha_mode,
            orientation,
        })
    }

    /// Tightly packed 8-bit sRGB RGBA with straight alpha.
    pub fn rgba8(width: u32, height: u32, data: &'a [u8]) -> (r: Result<Self, DecodeError>)
        ensures
            match layout(width, height, 0, PixelFormat::Rgba8, data@.len() as usize) {
                Ok(stride) => r matches Ok(v) && {
                    &&& v.spec_width() == width
                    &&& v.spec_height() == height
                    &&& v.spec_stride() == stride
                    &&& v.spec_format() == PixelFormat::Rgba8
                    &&& v.spec_data() == data@
                    &&& v.spec_encoding() == ColorEncoding::Srgb
                    &&& v.spec_alpha_mode() == AlphaMode::Straight
                    &&& v.spec_orientation() == Orientation::Identity
                },
                Err(e) => r == Err::<Self, DecodeError>(e),
            },
    {
        Self::new(
            width,
            height,
            0,
            PixelFormat::Rgba8,
            data,
            ColorEncoding::Srgb,
            AlphaMode::Straight,
            Orientation::Identity,
        )
    }

    /// Image width in pixels.
    pub fn width(&self) -> (w: u32)
        ensures
            w == self.spec_width(),
    {
        self.width
    }

    /// Image height in pixels.
    pub fn height(&self) -> (h: u32)
        ensures
            h == self.spec_height(),
    {
        self.height
    }

    /// Distance between the starts of consecutive rows, in bytes.
    pub fn stride_bytes(&self) -> (s: usize)
        ensures
            s == self.spec_stride(),
    {
        self.stride_bytes
    }

    /// Layout of one pixel.
    pub fn format(&self) -> (f: PixelFormat)
        ensures
            f == self.spec_format(),
    {
        self.format
    }

    /// Declared transfer function of the channel values.
    pub fn color_encoding(&self) -> (e: ColorEncoding)
        ensures
            e == self.spec_encoding(),
    {
        self.color_encoding
    }

    /// Declared alpha association.
    pub fn alpha_mode(&self) -> (m: AlphaMode)
        ensures
            m == self.spec_alpha_mode(),
    {
        self.alpha_mode
    }

    /// How orientation metadata was handled.
    pub fn orientation(&self) -> (o: Orientation)
        ensures
            o == self.spec_orientation(),
    {
        self.orientation
    }

    /// Number of pixels, validated non-overflowing at construction.
    pub fn pixel_count(&self) -> (n: usize)
        ensures
            n == self.spec_width() * self.spec_height(),
    {
        proof {
            use_type_invariant(self);
        }
        u32_to_usize(self.width) * u32_to_usize(self.height)
    }

    /// Whether `(x, y)` is inside the image.
    pub fn contains(&self, x: u32, y: u32) -> (b: bool)
        ensures
            b == (x < self.spec_width() && y < self.spec_height()),
    {
        x < self.width && y < self.height
    }

    /// Row-major index of `(x, y)`, for indexing parallel planes.
    pub fn index(&self, x: u32, y: u32) -> (i: usize)
        requires
            x < self.spec_width(),
            y < self.spec_height(),
        ensures
            i == y * self.spec_width() + x,
            i < self.spec_width() * self.spec_height(),
    {
        proof {
            use_type_invariant(self);
            lemma_row_major(x as int, y as int, self.width as int, self.height as int);
        }
        u32_to_usize(y) * u32_to_usize(self.width) + u32_to_usize(x)
    }

    /// The stored sample at pixel `(x, y)`.
    pub open spec fn stored(&self, x: u32, y: u32) -> StoredSample {
        let d = self.spec_data();
        let b = self.offset(x, y);
        if !(x < self.spec_width() && y < self.spec_height()) {
            StoredSample::Outside
        } else {
            match self.spec_format() {
                PixelFormat::Gray8 => StoredSample::Unorm8([d[b], d[b], d[b], 255u8]),
                PixelFormat::GrayAlpha8 => StoredSample::Unorm8([d[b], d[b], d[b], d[b + 1]]),
                PixelFormat::Rgb8 => StoredSample::Unorm8([d[b], d[b + 1], d[b + 2], 255u8]),
                PixelFormat::Rgba8 => StoredSample::Unorm8([d[b], d[b + 1], d[b + 2], d[b + 3]]),
                PixelFormat::Rgba16 => StoredSample::Unorm16(
                    [
                        le16(d[b], d[b + 1]),
                        le16(d[b + 2], d[b + 3]),
                        le16(d[b + 4], d[b + 5]),
                        le16(d[b + 6], d[b + 7]),
                    ],
                ),
                PixelFormat::RgbaF32 => StoredSample::Float32(
                    [
                        le32(d[b], d[b + 1], d[b + 2], d[b + 3]),
                        le32(d[b + 4], d[b + 5], d[b + 6], d[b + 7]),
                        le32(d[b + 8], d[b + 9], d[b + 10], d[b + 11]),
                        le32(d[b + 12], d[b + 13], d[b + 14], d[b + 15]),
                    ],
                ),
            }
        }
    }

    /// Read pixel `(x, y)` exactly as stored: no transfer function and no
    /// change of alpha association. Outside the image the answer is
    /// [`StoredSample::Outside`], so reads at the border are total.
    pub fn sample_stored(&self, x: u32, y: u32) -> (s: StoredSample)
        ensures
            s == self.stored(x, y),
    {
        if !self.contains(x, y) {
            return StoredSample::Outside;
        }
        proof {
            use_type_invariant(self);
            lemma_pixel_in_bounds(x as int, y as int, self.width as int, self.height as int,
                self.stride_bytes as int, self.format.pixel_bytes() as int, self.data@.len() as int);
            lemma_offset_fits(x as int, y as int, self.stride_bytes as int,
                self.format.pixel_bytes() as int, self.data@.len() as int);
        }
        let base = u32_to_usize(y) * self.stride_bytes + u32_to_usize(x) * self.format.bytes_per_pixel();
        let d = self.data;
        match self.format {
            PixelFormat::Gray8 => StoredSample::Unorm8([d[base], d[base], d[base], 255u8]),
            PixelFormat::GrayAlpha8 => StoredSample::Unorm8([d[base], d[base], d[base], d[base + 1]]),
            PixelFormat::Rgb8 => StoredSample::Unorm8([d[base], d[base + 1], d[base + 2], 255u8]),
            PixelFormat::Rgba8 => StoredSample::Unorm8(
                [d[base], d[base + 1], d[base + 2], d[base + 3]],
            ),
            PixelFormat::Rgba16 => StoredSample::Unorm16(
                [
                    read_le16(d, base),
                    read_le16(d, base + 2),
                    read_le16(d, base + 4),
                    read_le16(d, base + 6),
                ],
            ),
            PixelFormat::RgbaF32 => StoredSample::Float32(
                [
                    read_le32(d, base),
                    read_le32(d, base + 4),
                    read_le32(d, base + 8),
                    read_le32(d, base + 12),
                ],
            ),
        }
    }
}

fn read_le16(d: &[u8], i: usize) -> (v: u16)
    requires
        i + 2 <= d@.len(),
    ensures
        v == le16(d@[i as int], d@[i + 1]),
{
    d[i] as u16 + 256 * (d[i + 1] as u16)
}

fn read_le32(d: &[u8], i: usize) -> (v: u32)
    requires
        i + 4 <= d@.len(),
    ensures
        v == le32(d@[i as int], d@[i + 1], d@[i + 2], d@[i + 3]),
{
    d[i] as u32 + 256 * (d[i + 1] as u32) + 65536 * (d[i + 2] as u32) + 16777216 * (d[i + 3] as u32)
}

/// Every byte of a pixel inside the image lies inside a buffer that passed
/// the layout checks.
proof fn lemma_pixel_in_bounds(x: int, y: int, w: int, h: int, s: int, bpp: int, len: int)
    requires
        0 <= x < w,
        0 <= y < h,
        bpp >= 1,
        s >= w * bpp,
        s * (h - 1) + w * bpp <= len,
    ensures
        0 <= y * s + x * bpp,
        y * s + x * bpp + bpp <= len,
{
    assert(x * bpp + bpp <= w * bpp) by (nonlinear_arith)
        requires
            0 <= x < w,
            bpp >= 1,
    ;
    assert(y * s <= s * (h - 1)) by (nonlinear_arith)
        requires
            0 <= y < h,
            s >= 0,
    ;
    assert(0 <= y * s + x * bpp) by (nonlinear_arith)
        requires
            0 <= y,
            0 <= x,
            s >= 0,
            bpp >= 0,
    ;
}

proof fn lemma_offset_fits(x: int, y: int, s: int, bpp: int, len: int)
    requires
        0 <= y * s + x * bpp,
        y * s + x * bpp + bpp <= len,
        len <= usize::MAX,
        0 <= x,
        0 <= y,
        0 <= s,
        0 <= bpp,
    ensures
        y * s <= usize::MAX,
        x * bpp <= usize::MAX,
{
    assert(0 <= x * bpp) by (nonlinear_arith)
        requires
            0 <= x,
            0 <= bpp,
    ;
    assert(0 <= y * s) by (nonlinear_arith)
        requires
            0 <= y,
            0 <= s,
    ;
}

proof fn lemma_row_major(x: int, y: int, w: int, h: int)
    requires
        0 <= x < w,
        0 <= y < h,
    ensures
        0 <= y * w + x < w * h,
{
    assert(y * w + x < w * h) by (nonlinear_arith)
        requires
            0 <= x < w,
            0 <= y < h,
    ;
    assert(0 <= y * w) by (nonlinear_arith)
        requires
            0 <= y,
            0 <= w,
    ;
}

} // verus!
