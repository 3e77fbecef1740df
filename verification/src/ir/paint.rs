//! Paint: output colours as the caller's exact bytes.
//!
//! Exact palette mode emits the requested colour values; an internal
//! perceptual anchor is never substituted. [`Color`] therefore stores the
//! caller's 8-bit sRGB bytes verbatim.

use vstd::prelude::*;
use vstd::string::*;
use crate::render::{hex_byte, push_char, push_hex_byte};

verus! {

/// An output colour: straight (non-premultiplied) 8-bit sRGB with alpha.
///
/// Deliberately integral, so the bytes the caller supplied are the bytes that
/// come out.
#[derive(Debug, Clone, Copy, PartialEq, Eq, PartialOrd, Ord, Hash, Structural)]
pub struct Color {
    /// Red, 0-255.
    pub r: u8,
    /// Green, 0-255.
    pub g: u8,
    /// Blue, 0-255.
    pub b: u8,
    /// Alpha, 0-255, straight.
    pub a: u8,
}

impl Color {
    /// Fully transparent black.
    pub fn transparent() -> (c: Color)
        ensures
            c == (Color { r: 0, g: 0, b: 0, a: 0 }),
    {
        Color { r: 0, g: 0, b: 0, a: 0 }
    }

    /// Opaque black.
    pub fn black() -> (c: Color)
        ensures
            c == (Color { r: 0, g: 0, b: 0, a: 255 }),
    {
        Color { r: 0, g: 0, b: 0, a: 255 }
    }

    /// Opaque white.
    pub fn white() -> (c: Color)
        ensures
            c == (Color { r: 255, g: 255, b: 255, a: 255 }),
    {
        Color { r: 255, g: 255, b: 255, a: 255 }
    }

    /// An opaque colour.
    pub fn rgb(r: u8, g: u8, b: u8) -> (c: Color)
        ensures
            c == (Color { r, g, b, a: 255 }),
    {
        Color { r, g, b, a: 255 }
    }

    /// A colour with alpha.
    pub fn rgba(r: u8, g: u8, b: u8, a: u8) -> (c: Color)
        ensures
            c == (Color { r, g, b, a }),
    {
        Color { r, g, b, a }
    }

    /// From the `[r, g, b, a]` array a parsed palette entry carries.
    pub fn from_array(v: [u8; 4]) -> (c: Color)
        ensures
            c == (Color { r: v@[0], g: v@[1], b: v@[2], a: v@[3] }),
    {
        Color { r: v[0], g: v[1], b: v[2], a: v[3] }
    }

    /// Whether the colour is fully transparent, whatever its colour channels.
    pub fn is_transparent(self) -> (t: bool)
        ensures
            t == (self.a == 0),
    {
        self.a == 0
    }

    /// The `#rrggbb` text of the colour channels.
    pub open spec fn hex_rgb(self) -> Seq<char> {
        seq!['#'] + hex_byte(self.r) + hex_byte(self.g) + hex_byte(self.b)
    }

    /// The `#rrggbb` form, for the fill attribute.
    ///
    /// Alpha is not folded in: the serialiser emits it once, as a separate
    /// opacity, so encoding it here as well would apply it twice.
    pub fn to_hex_rgb(self) -> (s: String)
        ensures
            s@ == self.hex_rgb(),
    {
        let mut s = String::new();
        push_char(&mut s, '#');
        push_hex_byte(&mut s, self.r);
        push_hex_byte(&mut s, self.g);
        push_hex_byte(&mut s, self.b);
        proof {
            assert(s@ =~= self.hex_rgb());
        }
        s
    }
}

/// How a gradient extends beyond its stops.
#[derive(Debug, Clone, Copy, PartialEq, Eq, Structural)]
pub enum SpreadMethod {
    /// Clamp the end stops.
    Pad,
    /// Mirror.
    Reflect,
    /// Tile.
    Repeat,
}

} // verus!
