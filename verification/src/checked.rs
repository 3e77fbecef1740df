//! Audited numeric conversions for image-boundary arithmetic: every conversion
//! that can lose information names the failure it prevents.

use vstd::prelude::*;
use crate::error::DecodeError;

verus! {

/// Widen a `u32` pixel coordinate or dimension to `usize`.
pub fn u32_to_usize(value: u32) -> (r: usize)
    ensures
        r == value,
{
    value as usize
}

/// Compute `width * height` as a pixel count, rejecting overflow.
///
/// A zero dimension is refused before the product is formed.
pub fn pixel_count(width: u32, height: u32) -> (r: Result<usize, DecodeError>)
    ensures
        (width == 0 || height == 0) ==> r == Err::<usize, DecodeError>(DecodeError::EmptyImage),
        (width != 0 && height != 0 && width * height <= usize::MAX) ==> r == Ok::<
            usize,
            DecodeError,
        >((width * height) as usize),
        (width != 0 && height != 0 && width * height > usize::MAX) ==> r == Err::<
            usize,
            DecodeError,
        >(DecodeError::DimensionOverflow { width, height }),
{
    if width == 0 || height == 0 {
        return Err(DecodeError::EmptyImage);
    }
    match u32_to_usize(width).checked_mul(u32_to_usize(height)) {
        Some(n) => Ok(n),
        None => Err(DecodeError::DimensionOverflow { width, height }),
    }
}

/// Multiply two byte counts, rejecting overflow; the dimensions are carried for
/// context in the error.
pub fn mul_bytes(a: usize, b: usize, width: u32, height: u32) -> (r: Result<usize, DecodeError>)
    ensures
        a * b <= usize::MAX ==> r == Ok::<usize, DecodeError>((a * b) as usize),
        a * b > usize::MAX ==> r == Err::<usize, DecodeError>(
            DecodeError::DimensionOverflow { width, height },
        ),
{
    match a.checked_mul(b) {
        Some(n) => Ok(n),
        None => Err(DecodeError::DimensionOverflow { width, height }),
    }
}

/// Convert a `usize` count to `u64` for reporting and limit comparison.
pub fn usize_to_u64(value: usize) -> (r: u64)
    ensures
        r == value,
{
    value as u64
}

} // verus!
