//! Policy blocks whose tunables are enumerations and integers, their ranges,
//! and the palette colour syntax.

use vstd::prelude::*;
use vstd::string::*;
use super::{Refused, Validate, check_u32_range, checked_as, u32_range};
use crate::error::ConfigError;
use crate::render::{decimal, hex_byte, hex_digit, push_decimal};
use crate::ir::paint::Color;
use vstd::utf8::{encode_utf8, is_ascii_chars, is_ascii_chars_encode_utf8};

verus! {

/// How the palette is obtained.
#[derive(Debug, Clone, Copy, PartialEq, Eq, Structural)]
pub enum PaletteMode {
    /// Use exactly the supplied entries.
    Fixed,
    /// Derive entries deterministically from the image.
    Automatic,
}

/// What a palette entry is for.
#[derive(Debug, Clone, Copy, PartialEq, Eq, Structural)]
pub enum PaletteRole {
    /// An ordinary fill colour.
    Fill,
    /// The background, subject to [`BackgroundPolicy`].
    Background,
    /// A named ink or tool. Distinct roles stay distinct even at equal colour.
    Ink,
    /// A line or outline colour.
    Line,
}

/// The role an entry has when it declares none.
pub fn default_role() -> (r: PaletteRole)
    ensures
        r == PaletteRole::Fill,
{
    PaletteRole::Fill
}

/// No two entries share an identifier.
pub open spec fn ids_distinct(ids: Seq<u32>) -> bool {
    forall|i: int, j: int| 0 <= i < j < ids.len() ==> ids[i] != ids[j]
}

/// The outcome of checking a palette's entry identifiers: two entries may
/// print the same colour, but never share an identifier; and a fixed palette
/// needs entries.
pub open spec fn entry_ids_check(mode: Option<PaletteMode>, ids: Seq<u32>) -> Result<(), Refused> {
    if !ids_distinct(ids) {
        Err(Refused::Exactly(
            ConfigError::Palette {
                reason: "two entries share an id; ids must be distinct (PTE-COLOR-013)",
            },
        ))
    } else if mode == Some(PaletteMode::Fixed) && ids.len() == 0 {
        Err(Refused::Exactly(
            ConfigError::Palette { reason: "palette.mode is `fixed` but no entries were supplied" },
        ))
    } else {
        Ok(())
    }
}

/// Refuse palette entries that share an identifier, and a fixed palette with
/// no entries. `ids` lists the entries' identifiers in declaration order.
pub fn check_entry_ids(mode: Option<PaletteMode>, ids: &[u32]) -> (r: Result<(), ConfigError>)
    ensures
        checked_as(r, entry_ids_check(mode, ids@)),
{
    let n = ids.len();
    let mut i: usize = 0;
    while i < n
        invariant
            n == ids@.len(),
            i <= n,
            forall|a: int, b: int| 0 <= a < b < n && a < i ==> ids@[a] != ids@[b],
        decreases n - i,
    {
        let mut j: usize = i + 1;
        while j < n
            invariant
                n == ids@.len(),
                i < n,
                i < j <= n,
                forall|a: int, b: int| 0 <= a < b < n && a < i ==> ids@[a] != ids@[b],
                forall|b: int| i < b < j ==> ids@[i as int] != ids@[b],
            decreases n - j,
        {
            if ids[i] == ids[j] {
                return Err(ConfigError::Palette {
                    reason: "two entries share an id; ids must be distinct (PTE-COLOR-013)",
                });
            }
            j += 1;
        }
        i += 1;
    }
    if matches!(mode, Some(PaletteMode::Fixed)) && n == 0 {
        return Err(ConfigError::Palette { reason: "palette.mode is `fixed` but no entries were supplied" });
    }
    Ok(())
}

/// The text of the one error every malformed colour produces.
pub open spec fn bad_colour() -> ConfigError {
    ConfigError::Palette { reason: "colour must be #rgb, #rrggbb, or #rrggbbaa" }
}

/// The value of one hexadecimal digit, in either case.
pub open spec fn nibble_value(c: u8) -> Option<u8> {
    if 48 <= c <= 57 {
        Some((c - 48) as u8)
    } else if 97 <= c <= 102 {
        Some((c - 87) as u8)
    } else if 65 <= c <= 70 {
        Some((c - 55) as u8)
    } else {
        None
    }
}

/// Every byte of `h` is a hexadecimal digit.
pub open spec fn all_hex(h: Seq<u8>) -> bool {
    forall|k: int| 0 <= k < h.len() ==> (#[trigger] nibble_value(h[k])) is Some
}

/// The digit at `k`, doubled into a byte as in `#rgb`.
pub open spec fn short_channel(h: Seq<u8>, k: int) -> u8 {
    (nibble_value(h[k])->0 * 17) as u8
}

/// The byte written by the two digits at `2 * k`.
pub open spec fn long_channel(h: Seq<u8>, k: int) -> u8 {
    (nibble_value(h[2 * k])->0 * 16 + nibble_value(h[2 * k + 1])->0) as u8
}

/// The straight 8-bit RGBA a colour text denotes, if it is `#rgb`,
/// `#rrggbb` or `#rrggbbaa`.
pub open spec fn hex_colour(text: Seq<u8>) -> Option<Seq<u8>> {
    if text.len() == 0 || text[0] != 35 {
        None
    } else {
        let h = text.skip(1);
        if !all_hex(h) {
            None
        } else if h.len() == 3 {
            Some(seq![short_channel(h, 0), short_channel(h, 1), short_channel(h, 2), 255u8])
        } else if h.len() == 6 {
            Some(seq![long_channel(h, 0), long_channel(h, 1), long_channel(h, 2), 255u8])
        } else if h.len() == 8 {
            Some(seq![long_channel(h, 0), long_channel(h, 1), long_channel(h, 2), long_channel(h, 3)])
        } else {
            None
        }
    }
}

/// The channels of a colour text stand in text order: in `#rgb` channel `k`
/// is the digit at `k + 1`, doubled; in `#rrggbb` and `#rrggbbaa` it is the
/// two digits at `2k + 1` and `2k + 2`, high digit first, so red comes
/// before green, green before blue, and blue before alpha. Without an alpha
/// digit pair the colour is opaque.
pub proof fn law_colour_channels_follow_text_order(text: Seq<u8>, k: int)
    requires
        hex_colour(text) is Some,
        0 <= k < 4,
    ensures
        text.len() == 4 || text.len() == 7 || text.len() == 9,
        text.len() == 4 && k < 3 ==> nibble_value(text[k + 1]) is Some && hex_colour(text)->0[k]
            == nibble_value(text[k + 1])->0 * 17,
        text.len() != 4 && (k < 3 || text.len() == 9) ==> nibble_value(text[2 * k + 1]) is Some
            && nibble_value(text[2 * k + 2]) is Some && hex_colour(text)->0[k] == nibble_value(
            text[2 * k + 1],
        )->0 * 16 + nibble_value(text[2 * k + 2])->0,
        text.len() != 9 ==> hex_colour(text)->0[3] == 255,
{
    let h = text.skip(1);
    if text.len() == 4 {
        if k < 3 {
            assert(nibble_value(h[k]) is Some);
            assert(h[k] == text[k + 1]);
            assert(nibble_value(h[k])->0 < 16);
        }
    } else if k < 3 || text.len() == 9 {
        assert(nibble_value(h[2 * k]) is Some);
        assert(nibble_value(h[2 * k + 1]) is Some);
        assert(h[2 * k] == text[2 * k + 1]);
        assert(h[2 * k + 1] == text[2 * k + 2]);
        assert(nibble_value(h[2 * k])->0 < 16 && nibble_value(h[2 * k + 1])->0 < 16);
    }
}

/// Hexadecimal digits read the same in either case: `0`-`9` are 0 to 9,
/// and `a`-`f` and `A`-`F` are both 10 to 15; no other byte is a digit.
pub proof fn law_hex_digits_ignore_case(c: u8)
    ensures
        48 <= c <= 57 ==> nibble_value(c) == Some((c - 48) as u8),
        97 <= c <= 102 ==> nibble_value(c) == Some((c - 97 + 10) as u8),
        65 <= c <= 70 ==> nibble_value(c) == nibble_value((c + 32) as u8),
        nibble_value(c) is Some <==> (48 <= c <= 57 || 97 <= c <= 102 || 65 <= c <= 70),
{
}

/// A digit `hex_digit` writes reads back as its value, and is ASCII.
proof fn lemma_digit_reads_back(d: nat)
    requires
        d < 16,
    ensures
        '\0' <= hex_digit(d) <= '\u{7f}',
        nibble_value(hex_digit(d) as u8) == Some(d as u8),
{
}

/// A colour's `#rrggbb` text reads back as that colour, opaque: parsing what
/// `Color::to_hex_rgb` writes gives the red, green and blue it was written
/// from, in that order, with alpha 255.
pub proof fn law_hex_rgb_reads_back(c: Color)
    ensures
        hex_colour(encode_utf8(c.hex_rgb())) == Some(seq![c.r, c.g, c.b, 255u8]),
{
    let t = c.hex_rgb();
    let ds = seq![
        (c.r / 16) as nat,
        (c.r % 16) as nat,
        (c.g / 16) as nat,
        (c.g % 16) as nat,
        (c.b / 16) as nat,
        (c.b % 16) as nat,
    ];
    assert(t.len() == 7);
    assert forall|k: int| 0 <= k < 6 implies t[k + 1] == hex_digit(#[trigger] ds[k]) by {
        assert(t[k + 1] == (hex_byte(c.r) + hex_byte(c.g) + hex_byte(c.b))[k]);
    }
    assert forall|k: int| 0 <= k < 6 implies '\0' <= t[k + 1] <= '\u{7f}' && nibble_value(
        t[k + 1] as u8,
    ) == Some(#[trigger] ds[k] as u8) by {
        lemma_digit_reads_back(ds[k]);
        assert(t[k + 1] == hex_digit(ds[k]));
    }
    assert(is_ascii_chars(t)) by {
        assert forall|i: int| 0 <= i < t.len() implies '\0' <= #[trigger] t[i] <= '\u{7f}' by {
            if i > 0 {
                assert(ds[i - 1] == ds[i - 1]);
            }
        }
    }
    is_ascii_chars_encode_utf8(t);
    let e = encode_utf8(t);
    let h = e.skip(1);
    assert(e.len() == 7);
    assert(e[0] == 35u8) by {
        assert(t[0] == '#');
    }
    assert forall|k: int| 0 <= k < 6 implies nibble_value(#[trigger] h[k]) == Some(ds[k] as u8) by {
        assert(h[k] == e[k + 1]);
        assert(e[k + 1] == t[k + 1] as u8);
    }
    assert(all_hex(h)) by {
        assert forall|k: int| 0 <= k < h.len() implies (#[trigger] nibble_value(h[k])) is Some by {
            assert(nibble_value(h[k]) == Some(ds[k] as u8));
        }
    }
    assert(nibble_value(h[0]) == Some(ds[0] as u8));
    assert(nibble_value(h[1]) == Some(ds[1] as u8));
    assert(nibble_value(h[2]) == Some(ds[2] as u8));
    assert(nibble_value(h[3]) == Some(ds[3] as u8));
    assert(nibble_value(h[4]) == Some(ds[4] as u8));
    assert(nibble_value(h[5]) == Some(ds[5] as u8));
    assert(long_channel(h, 0) == c.r);
    assert(long_channel(h, 1) == c.g);
    assert(long_channel(h, 2) == c.b);
}

fn nibble(c: u8) -> (r: Option<u8>)
    ensures
        r == nibble_value(c),
        r matches Some(v) ==> v < 16,
{
    if 48 <= c && c <= 57 {
        Some(c - 48)
    } else if 97 <= c && c <= 102 {
        Some(c - 87)
    } else if 65 <= c && c <= 70 {
        Some(c - 55)
    } else {
        None
    }
}

/// Parse `#rgb`, `#rrggbb`, or `#rrggbbaa` into straight 8-bit RGBA.
///
/// Named colours are not accepted: a palette is an exact instruction, and
/// resolving names would put a colour table between the caller and their own
/// inks. Every other shape is refused with one palette error.
pub fn parse_hex_color(text: &str) -> (r: Result<[u8; 4], ConfigError>)
    ensures
        match hex_colour(text.spec_bytes()) {
            Some(c) => r matches Ok(a) && a@ == c,
            None => r == Err::<[u8; 4], ConfigError>(bad_colour()),
        },
{
    let b = text.as_bytes();
    let n = b.len();
    if n == 0 || b[0] != 35 {
        return Err(ConfigError::Palette { reason: "colour must be #rgb, #rrggbb, or #rrggbbaa" });
    }
    let ghost h = b@.skip(1);
    if n != 4 && n != 7 && n != 9 {
        proof {
            assert(h.len() != 3 && h.len() != 6 && h.len() != 8);
        }
        return Err(ConfigError::Palette { reason: "colour must be #rgb, #rrggbb, or #rrggbbaa" });
    }
    let mut digits: Vec<u8> = Vec::new();
    let mut k: usize = 1;
    while k < n
        invariant
            1 <= k <= n,
            n == b@.len(),
            b@ == text.spec_bytes(),
            h == b@.skip(1),
            digits@.len() == k - 1,
            forall|j: int| 0 <= j < k - 1 ==> nibble_value(h[j]) == Some(#[trigger] digits@[j]),
            forall|j: int| 0 <= j < k - 1 ==> #[trigger] digits@[j] < 16,
        decreases n - k,
    {
        match nibble(b[k]) {
            Some(v) => {
                digits.push(v);
            },
            None => {
                proof {
                    assert(nibble_value(h[k - 1]) is None);
                }
                return Err(
                    ConfigError::Palette { reason: "colour must be #rgb, #rrggbb, or #rrggbbaa" },
                );
            },
        }
        k += 1;
    }
    proof {
        assert forall|j: int| 0 <= j < h.len() implies (#[trigger] nibble_value(h[j])) is Some by {
            assert(nibble_value(h[j]) == Some(digits@[j]));
        }
        assert(all_hex(h));
    }
    if n == 4 {
        let out = [digits[0] * 17, digits[1] * 17, digits[2] * 17, 255u8];
        proof {
            assert(out@ =~= seq![short_channel(h, 0), short_channel(h, 1), short_channel(h, 2), 255u8]);
        }
        Ok(out)
    } else {
        let alpha = if n == 9 {
            digits[6] * 16 + digits[7]
        } else {
            255u8
        };
        let out = [
            digits[0] * 16 + digits[1],
            digits[2] * 16 + digits[3],
            digits[4] * 16 + digits[5],
            alpha,
        ];
        proof {
            if n == 9 {
                assert(out@ =~= seq![long_channel(h, 0), long_channel(h, 1), long_channel(h, 2), long_channel(h, 3)]);
            } else {
                assert(out@ =~= seq![long_channel(h, 0), long_channel(h, 1), long_channel(h, 2), 255u8]);
            }
        }
        Ok(out)
    }
}

/// Which numeric convention colour differences are reported in.
#[derive(Debug, Clone, Copy, PartialEq, Eq, Structural)]
pub enum DeltaEScale {
    /// Native OKLab units, where lightness spans `[0, 1]`.
    Native,
    /// Multiplied by 100, the convention some tools display.
    Scaled100,
}

/// What happens to the background.
#[derive(Debug, Clone, Copy, PartialEq, Eq, Structural)]
pub enum BackgroundPolicy {
    /// Retain the background as an ordinary face.
    Keep,
    /// Make it transparent while retaining foreground holes.
    Transparent,
    /// Treat the entry with this identifier as the removable background.
    PaletteEntry(u32),
    /// Choose from image evidence and report the choice.
    Auto,
}

/// Which filled-region semantics apply. A stacked trace can look seam-free
/// without being a partition, and the two are never conflated.
#[derive(Debug, Clone, Copy, PartialEq, Eq, Structural)]
pub enum GeometryMode {
    /// Exclusive faces tile the domain and share interfaces.
    SharedMosaic,
    /// Larger shapes may continue behind foreground shapes.
    Stacked,
    /// Shapes grouped by ink, tool, or operation, possibly overlapping.
    SeparateOperations,
}

/// Where boundary positions come from.
#[derive(Debug, Clone, Copy, PartialEq, Eq, Structural)]
pub enum BoundarySource {
    /// Invert antialias coverage to a subpixel position.
    CoverageReconstructed,
    /// Place boundaries on the pixel-cell interface.
    CrispGrid,
    /// Choose per edge from the available evidence.
    Auto,
}

/// Pixel-art rendering mode.
#[derive(Debug, Clone, Copy, PartialEq, Eq, Structural)]
pub enum PixelArtMode {
    /// Exact orthogonal logical-pixel outlines.
    Blocky,
    /// Topology-preserving curve fitting.
    Smoothed,
    /// Preserve intentional corners while smoothing long staircases.
    Hybrid,
}

/// Whether stroke reconstruction is attempted.
#[derive(Debug, Clone, Copy, PartialEq, Eq, Structural)]
pub enum StrokeMode {
    /// Never; filled outlines only.
    Off,
    /// Where the medial model passes its gates.
    Auto,
    /// Wherever a stroke is representable.
    On,
}

/// Stroke policy.
#[derive(Debug, Clone, Copy, Default, PartialEq, Eq)]
pub struct StrokePolicy {
    /// Stroke inference mode.
    pub prefer: Option<StrokeMode>,
}

impl Validate for StrokePolicy {
    /// Every stroke policy is in range.
    fn validate(&self) -> (r: Result<(), ConfigError>)
        ensures
            r is Ok,
    {
        Ok(())
    }
}

/// Whether gradients are reconstructed.
#[derive(Debug, Clone, Copy, PartialEq, Eq, Structural)]
pub enum GradientMode {
    /// Solid fills only.
    Off,
    /// Portable linear and radial gradients.
    Standard,
    /// Non-portable shading, under experimental conformance.
    Experimental,
}

/// Gradient policy.
#[derive(Debug, Clone, Copy, Default, PartialEq, Eq)]
pub struct GradientPolicy {
    /// Gradient mode.
    pub mode: Option<GradientMode>,
    /// Largest number of stops in one gradient.
    pub max_stops: Option<u32>,
}

impl Validate for GradientPolicy {
    /// The stop count, where given, lies between 2 and 256.
    fn validate(&self) -> (r: Result<(), ConfigError>)
        ensures
            checked_as(r, u32_range("gradients.maxStops", self.max_stops, 2, 256, "between 2 and 256")),
    {
        check_u32_range("gradients.maxStops", self.max_stops, 2, 256, "between 2 and 256")
    }
}

/// Coordinate precision policy.
#[derive(Debug, Clone, Copy, PartialEq, Eq, Structural)]
pub enum Precision {
    /// Search for the fewest decimals that preserve topology and stay inside
    /// the boundary-error budget; no fixed rule.
    Auto,
    /// Use exactly this many decimals, accepting whatever error results.
    Fixed(u8),
}

/// Output and serialisation policy.
#[derive(Debug, Clone, Copy, Default, PartialEq, Eq)]
pub struct OutputPolicy {
    /// Coordinate precision.
    pub precision: Option<Precision>,
    /// Emit metadata naming the engine and digest; never paths, usernames,
    /// or timestamps.
    pub metadata: Option<bool>,
    /// Indent the output for reading. Semantics are identical either way.
    pub pretty: Option<bool>,
    /// Run the output gates before returning.
    pub validate_output: Option<bool>,
}

impl OutputPolicy {
    /// The outcome of validating an output policy: a fixed precision of more
    /// than twelve decimals is out of range.
    pub open spec fn precision_check(&self) -> Result<(), Refused> {
        match self.precision {
            Some(Precision::Fixed(d)) => if d > 12 {
                Err(Refused::OutOfRange {
                    field: "output.precision",
                    got: decimal(d as nat),
                    expected: "at most 12 decimals",
                })
            } else {
                Ok(())
            },
            _ => Ok(()),
        }
    }
}

impl Validate for OutputPolicy {
    /// A fixed precision of more than twelve decimals is refused.
    fn validate(&self) -> (r: Result<(), ConfigError>)
        ensures
            checked_as(r, self.precision_check()),
    {
        if let Some(Precision::Fixed(d)) = self.precision {
            if d > 12 {
                let mut got = String::new();
                push_decimal(&mut got, d as u64);
                proof {
                    assert(got@ =~= decimal(d as nat));
                }
                return Err(ConfigError::OutOfRange {
                    field: "output.precision",
                    got,
                    expected: "at most 12 decimals",
                });
            }
        }
        Ok(())
    }
}

/// Determinism level.
#[derive(Debug, Clone, Copy, PartialEq, Eq, Structural)]
pub enum DeterminismMode {
    /// Identical semantic digest across repeats, thread counts, legal tile
    /// sizes, and targets.
    Strict,
    /// Identical within one target and build feature set.
    Target,
    /// Approximations permitted where they are reported.
    Fast,
}

/// Determinism policy.
#[derive(Debug, Clone, Copy, Default, PartialEq, Eq)]
pub struct DeterminismPolicy {
    /// Determinism level.
    pub mode: Option<DeterminismMode>,
}

impl Validate for DeterminismPolicy {
    /// Every determinism policy is in range.
    fn validate(&self) -> (r: Result<(), ConfigError>)
        ensures
            r is Ok,
    {
        Ok(())
    }
}

} // verus!
