//! A minimal Netpbm reader: binary PPM (`P6`) and PAM (`P7`) at eight bits per
//! sample. Every other input is refused by name, and the same resource limits
//! that bound the raw-pixel API bound the header, before any allocation.

use vstd::prelude::*;
use vstd::string::*;
use vstd::slice::{slice_subrange, slice_to_vec};
use vstd::utf8::valid_utf8;
use crate::checked::{mul_bytes, pixel_count};
use crate::checked::usize_to_u64;
use crate::error::{DecodeError, ResourceLimitError, TraceError};
use crate::image::{AlphaMode, ColorEncoding, ImageView, Orientation, PixelFormat, layout};
use crate::limits::ResourceLimits;
use crate::render::{decimal, push_char, push_decimal};
use crate::text::{
    bytes_at, is_ascii_space, is_digit, is_digit_byte, is_space_byte, is_utf8, trim_end,
    trim_end_at, trim_start, trim_start_at,
};

verus! {

/// Decoded pixels and their geometry.
#[derive(Debug, Clone)]
pub struct Decoded {
    /// Image width.
    pub width: u32,
    /// Image height.
    pub height: u32,
    /// Pixel layout.
    pub format: PixelFormat,
    /// Tightly packed pixel data.
    pub data: Vec<u8>,
}

/// What a decode produces, as plain values.
pub struct Picture {
    /// Image width.
    pub width: u32,
    /// Image height.
    pub height: u32,
    /// Pixel layout.
    pub format: PixelFormat,
    /// Tightly packed pixel data.
    pub data: Seq<u8>,
}

/// Why a decode fails: the error itself, or the kind and text of one that
/// carries a message.
pub enum Refusal {
    /// Exactly this error.
    Exact(DecodeError),
    /// An unsupported format, with this detail.
    Unsupported(Seq<char>),
    /// A malformed input, with this detail.
    Malformed(Seq<char>),
}

/// `e` is the error `f` describes.
pub open spec fn refused_as(e: DecodeError, f: Refusal) -> bool {
    match f {
        Refusal::Exact(x) => e == x,
        Refusal::Unsupported(d) => e matches DecodeError::UnsupportedFormat { detail } && detail@ == d,
        Refusal::Malformed(d) => e matches DecodeError::Malformed { detail } && detail@ == d,
    }
}

/// `r` is the outcome `spec` describes.
pub open spec fn decoded_as(r: Result<Decoded, DecodeError>, spec: Result<Picture, Refusal>) -> bool {
    match spec {
        Ok(p) => r matches Ok(d) && d.width == p.width && d.height == p.height && d.format
            == p.format && d.data@ == p.data,
        Err(f) => r matches Err(e) && refused_as(e, f),
    }
}

/// Bytes read as ASCII characters.
pub open spec fn ascii_chars(b: Seq<u8>) -> Seq<char> {
    Seq::new(b.len(), |i: int| b[i] as char)
}

/// The value of a run of decimal digits.
pub open spec fn digits_value(d: Seq<u8>) -> nat
    decreases d.len(),
{
    if d.len() == 0 {
        0
    } else {
        digits_value(d.drop_last()) * 10 + (d.last() - 48) as nat
    }
}

/// First index at or after `i` that is not ASCII white space.
pub open spec fn skip_space(b: Seq<u8>, i: int) -> int
    decreases b.len() - i,
{
    if 0 <= i < b.len() && is_ascii_space(b[i]) {
        skip_space(b, i + 1)
    } else {
        i
    }
}

/// First index at or after `i` that holds a newline, or the end.
pub open spec fn skip_comment(b: Seq<u8>, i: int) -> int
    decreases b.len() - i,
{
    if 0 <= i < b.len() && b[i] != 10 {
        skip_comment(b, i + 1)
    } else {
        i
    }
}

/// First index at or after `i` that is not a digit.
pub open spec fn skip_digits(b: Seq<u8>, i: int) -> int
    decreases b.len() - i,
{
    if 0 <= i < b.len() && is_digit(b[i]) {
        skip_digits(b, i + 1)
    } else {
        i
    }
}

pub proof fn lemma_skip_space(b: Seq<u8>, i: int)
    requires
        0 <= i,
    ensures
        i <= skip_space(b, i),
        i <= b.len() ==> skip_space(b, i) <= b.len(),
    decreases b.len() - i,
{
    if 0 <= i < b.len() && is_ascii_space(b[i]) {
        lemma_skip_space(b, i + 1);
    }
}

pub proof fn lemma_skip_comment(b: Seq<u8>, i: int)
    requires
        0 <= i,
    ensures
        i <= skip_comment(b, i),
        i <= b.len() ==> skip_comment(b, i) <= b.len(),
        i < b.len() && b[i] != 10 ==> i < skip_comment(b, i),
    decreases b.len() - i,
{
    if 0 <= i < b.len() && b[i] != 10 {
        lemma_skip_comment(b, i + 1);
    }
}

proof fn lemma_skip_digits(b: Seq<u8>, i: int)
    requires
        0 <= i,
    ensures
        i <= skip_digits(b, i),
        i <= b.len() ==> skip_digits(b, i) <= b.len(),
        forall|k: int| i <= k < skip_digits(b, i) ==> is_digit(#[trigger] b[k]),
    decreases b.len() - i,
{
    if 0 <= i < b.len() && is_digit(b[i]) {
        lemma_skip_digits(b, i + 1);
    }
}

/// Where the next header number starts: white space and `#` comments that
/// run to the end of their line are skipped.
pub open spec fn number_start(b: Seq<u8>, i: int) -> int
    decreases b.len() - i,
{
    if 0 <= i <= b.len() {
        let j = skip_space(b, i);
        proof {
            lemma_skip_space(b, i);
        }
        if j < b.len() && b[j] == 35 {
            proof {
                lemma_skip_comment(b, j);
            }
            number_start(b, skip_comment(b, j))
        } else {
            j
        }
    } else {
        i
    }
}

proof fn lemma_number_start(b: Seq<u8>, i: int)
    requires
        0 <= i <= b.len(),
    ensures
        i <= number_start(b, i) <= b.len(),
    decreases b.len() - i,
{
    let j = skip_space(b, i);
    lemma_skip_space(b, i);
    if j < b.len() && b[j] == 35 {
        lemma_skip_comment(b, j);
        lemma_number_start(b, skip_comment(b, j));
    }
}

/// Read `count` whitespace-separated header numbers starting at `i`, with the
/// index just past the last one.
pub open spec fn header_numbers(b: Seq<u8>, i: int, count: nat) -> Result<(Seq<u64>, int), Refusal>
    decreases count,
{
    if count == 0 {
        Ok((Seq::empty(), i))
    } else {
        let s = number_start(b, i);
        let e = skip_digits(b, s);
        if e == s {
            Err(Refusal::Malformed("expected a number in the header"@))
        } else if digits_value(b.subrange(s, e)) > u64::MAX {
            Err(Refusal::Malformed("`"@ + ascii_chars(b.subrange(s, e)) + "` is not a number"@))
        } else {
            match header_numbers(b, e, (count - 1) as nat) {
                Ok((vs, k)) => Ok((seq![digits_value(b.subrange(s, e)) as u64] + vs, k)),
                Err(f) => Err(f),
            }
        }
    }
}

/// The eight-byte PNG signature.
pub open spec fn png_signature() -> Seq<u8> {
    seq![0x89u8, 80u8, 78u8, 71u8, 0x0du8, 0x0au8, 0x1au8, 0x0au8]
}

/// The text that refuses a PNG.
pub open spec fn png_refusal() -> Seq<char> {
    "PNG: no codec adapter is built into this front end (§5.1 palette-tracer-codecs). Convert with `tools/png_to_ppm.py` or supply pixels through the library API"@
}

/// Check decoded dimensions against the limits, before any allocation.
pub open spec fn geometry(width: u64, height: u64, limits: ResourceLimits) -> Result<(u32, u32), Refusal> {
    if width > u32::MAX {
        Err(Refusal::Exact(DecodeError::DimensionOverflow { width: u32::MAX, height: 0 }))
    } else if height > u32::MAX {
        Err(Refusal::Exact(DecodeError::DimensionOverflow { width: width as u32, height: u32::MAX }))
    } else {
        match limits.dimension_check(width as u32, height as u32) {
            Ok(()) => Ok((width as u32, height as u32)),
            Err(e) => Err(Refusal::Unsupported(e.message_text())),
        }
    }
}

/// Take `bpp` bytes per pixel starting at `offset`, or refuse a short input.
pub open spec fn pixels(
    b: Seq<u8>,
    offset: int,
    width: u32,
    height: u32,
    format: PixelFormat,
) -> Result<Picture, Refusal> {
    if width == 0 || height == 0 {
        Err(Refusal::Exact(DecodeError::EmptyImage))
    } else if width * height * format.pixel_bytes() > usize::MAX {
        Err(Refusal::Exact(DecodeError::DimensionOverflow { width, height }))
    } else {
        let needed = width * height * format.pixel_bytes();
        if offset + needed <= b.len() {
            Ok(Picture { width, height, format, data: b.subrange(offset, offset + needed) })
        } else {
            Err(Refusal::Exact(DecodeError::BufferTooShort {
                got: if offset <= b.len() { (b.len() - offset) as usize } else { 0 },
                needed: needed as usize,
            }))
        }
    }
}

/// The outcome of reading a binary PPM.
pub open spec fn ppm(b: Seq<u8>, limits: ResourceLimits) -> Result<Picture, Refusal> {
    match header_numbers(b, 2, 3) {
        Err(f) => Err(f),
        Ok((h, end)) => match geometry(h[0], h[1], limits) {
            Err(f) => Err(f),
            Ok((w, ht)) => if h[2] != 255 {
                Err(Refusal::Unsupported("maximum value "@ + decimal(h[2] as nat)
                    + " is not 255; only 8-bit is read"@))
            } else {
                pixels(b, end + 1, w, ht, PixelFormat::Rgb8)
            },
        },
    }
}

/// The bytes that end a PAM header.
pub open spec fn endhdr() -> Seq<u8> {
    seq![69u8, 78u8, 68u8, 72u8, 68u8, 82u8, 10u8]
}

/// The first position at or after `i` where the PAM header terminator starts.
pub open spec fn find_endhdr(b: Seq<u8>, i: int) -> Option<int>
    decreases b.len() - i,
{
    if i < 0 || i + 7 > b.len() {
        None
    } else if b.subrange(i, i + 7) == endhdr() {
        Some(i)
    } else {
        find_endhdr(b, i + 1)
    }
}

/// Every byte of `d` is a decimal digit.
pub open spec fn all_digit_bytes(d: Seq<u8>) -> bool {
    forall|k: int| 0 <= k < d.len() ==> is_digit(#[trigger] d[k])
}

/// `t` without one leading `+`, if it has one.
pub open spec fn without_plus(t: Seq<u8>) -> Seq<u8> {
    if t.len() > 0 && t[0] == 43 {
        t.skip(1)
    } else {
        t
    }
}

/// A nonempty run of decimal digits that fits a `u64`.
pub open spec fn parse_digits(d: Seq<u8>) -> Option<u64> {
    if d.len() > 0 && all_digit_bytes(d) && digits_value(d) <= u64::MAX {
        Some(digits_value(d) as u64)
    } else {
        None
    }
}

/// An unsigned decimal number with an optional leading `+`, as Rust parses a
/// `u64`.
pub open spec fn parse_u64(t: Seq<u8>) -> Option<u64> {
    parse_digits(without_plus(t))
}

/// The value a header line gives the field `name`, if it is that field's line
/// and the rest of it is a number.
pub open spec fn line_value(line: Seq<u8>, name: Seq<u8>) -> Option<u64> {
    if name.len() <= line.len() && line.take(name.len() as int) == name {
        parse_u64(trim_end(trim_start(line.skip(name.len() as int))))
    } else {
        None
    }
}

/// Index of the first newline at or after `i`, or the end.
pub open spec fn line_end(h: Seq<u8>, i: int) -> int
    decreases h.len() - i,
{
    if 0 <= i < h.len() && h[i] != 10 {
        line_end(h, i + 1)
    } else {
        i
    }
}

/// The value of the first line at or after `i` that gives `name` a number.
pub open spec fn field_from(h: Seq<u8>, i: int, name: Seq<u8>) -> Option<u64>
    decreases h.len() - i,
{
    if 0 <= i <= h.len() {
        let e = line_end(h, i);
        proof {
            lemma_line_end(h, i);
        }
        match line_value(h.subrange(i, e), name) {
            Some(v) => Some(v),
            None => if e < h.len() {
                field_from(h, e + 1, name)
            } else {
                None
            },
        }
    } else {
        None
    }
}

pub proof fn lemma_line_end(h: Seq<u8>, i: int)
    requires
        0 <= i <= h.len(),
    ensures
        i <= line_end(h, i) <= h.len(),
        line_end(h, i) < h.len() ==> h[line_end(h, i)] == 10,
        forall|k: int| i <= k < line_end(h, i) ==> #[trigger] h[k] != 10,
    decreases h.len() - i,
{
    if 0 <= i < h.len() && h[i] != 10 {
        lemma_line_end(h, i + 1);
    }
}

/// The bytes of `WIDTH`.
pub open spec fn key_width() -> Seq<u8> {
    seq![87u8, 73u8, 68u8, 84u8, 72u8]
}

/// The bytes of `HEIGHT`.
pub open spec fn key_height() -> Seq<u8> {
    seq![72u8, 69u8, 73u8, 71u8, 72u8, 84u8]
}

/// The bytes of `DEPTH`.
pub open spec fn key_depth() -> Seq<u8> {
    seq![68u8, 69u8, 80u8, 84u8, 72u8]
}

/// The bytes of `MAXVAL`.
pub open spec fn key_maxval() -> Seq<u8> {
    seq![77u8, 65u8, 88u8, 86u8, 65u8, 76u8]
}

/// The outcome of reading a PAM.
pub open spec fn pam(b: Seq<u8>, limits: ResourceLimits) -> Result<Picture, Refusal> {
    match find_endhdr(b, 0) {
        None => Err(Refusal::Malformed("PAM header has no ENDHDR"@)),
        Some(end) => {
            let h = b.take(end);
            if !valid_utf8(h) {
                Err(Refusal::Malformed("PAM header is not ASCII"@))
            } else {
                match (
                    field_from(h, 0, key_width()),
                    field_from(h, 0, key_height()),
                    field_from(h, 0, key_depth()),
                ) {
                    (None, _, _) => Err(Refusal::Malformed("PAM header has no WIDTH"@)),
                    (Some(_), None, _) => Err(Refusal::Malformed("PAM header has no HEIGHT"@)),
                    (Some(_), Some(_), None) => Err(Refusal::Malformed("PAM header has no DEPTH"@)),
                    (Some(w), Some(ht), Some(depth)) => {
                        let maxval = match field_from(h, 0, key_maxval()) {
                            Some(m) => m,
                            None => 255u64,
                        };
                        if maxval != 255 {
                            Err(Refusal::Unsupported("MAXVAL "@ + decimal(maxval as nat)
                                + " is not 255; only 8-bit is read"@))
                        } else if depth < 1 || depth > 4 {
                            Err(Refusal::Unsupported("PAM DEPTH "@ + decimal(depth as nat)
                                + " is not 1, 2, 3 or 4"@))
                        } else {
                            let format = if depth == 1 {
                                PixelFormat::Gray8
                            } else if depth == 2 {
                                PixelFormat::GrayAlpha8
                            } else if depth == 3 {
                                PixelFormat::Rgb8
                            } else {
                                PixelFormat::Rgba8
                            };
                            match geometry(w, ht, limits) {
                                Err(f) => Err(f),
                                Ok((wd, hd)) => pixels(b, end + 7, wd, hd, format),
                            }
                        }
                    },
                }
            }
        },
    }
}

/// The outcome of decoding `b` as a Netpbm image.
pub open spec fn netpbm(b: Seq<u8>, limits: ResourceLimits) -> Result<Picture, Refusal> {
    if b.len() >= 8 && b.take(8) == png_signature() {
        Err(Refusal::Unsupported(png_refusal()))
    } else if b.len() == 0 || b[0] != 80 {
        Err(Refusal::Unsupported("not a Netpbm image; this front end reads P6 and P7 only"@))
    } else if b.len() == 1 {
        Err(Refusal::Malformed("truncated header"@))
    } else if b[1] == 54 {
        ppm(b, limits)
    } else if b[1] == 55 {
        pam(b, limits)
    } else {
        Err(Refusal::Unsupported("Netpbm P"@ + seq![b[1] as char] + " is not supported; use P6 or P7"@))
    }
}


fn skip_space_from(b: &[u8], i: usize) -> (j: usize)
    requires
        i <= b@.len(),
    ensures
        j == skip_space(b@, i as int),
        i <= j <= b@.len(),
{
    let mut j = i;
    while j < b.len() && is_space_byte(b[j])
        invariant
            i <= j <= b@.len(),
            skip_space(b@, j as int) == skip_space(b@, i as int),
        decreases b@.len() - j,
    {
        j += 1;
    }
    j
}

fn skip_comment_from(b: &[u8], i: usize) -> (j: usize)
    requires
        i <= b@.len(),
    ensures
        j == skip_comment(b@, i as int),
        i <= j <= b@.len(),
{
    let mut j = i;
    while j < b.len() && b[j] != 10
        invariant
            i <= j <= b@.len(),
            skip_comment(b@, j as int) == skip_comment(b@, i as int),
        decreases b@.len() - j,
    {
        j += 1;
    }
    j
}

fn skip_digits_from(b: &[u8], i: usize) -> (j: usize)
    requires
        i <= b@.len(),
    ensures
        j == skip_digits(b@, i as int),
        i <= j <= b@.len(),
        forall|k: int| i <= k < j ==> is_digit(#[trigger] b@[k]),
{
    let mut j = i;
    while j < b.len() && is_digit_byte(b[j])
        invariant
            i <= j <= b@.len(),
            skip_digits(b@, j as int) == skip_digits(b@, i as int),
            forall|k: int| i <= k < j ==> is_digit(#[trigger] b@[k]),
        decreases b@.len() - j,
    {
        j += 1;
    }
    j
}

/// Where the next header number starts.
fn next_number(b: &[u8], i: usize) -> (j: usize)
    requires
        i <= b@.len(),
    ensures
        j == number_start(b@, i as int),
        i <= j <= b@.len(),
{
    let mut j = i;
    loop
        invariant
            i <= j <= b@.len(),
            number_start(b@, j as int) == number_start(b@, i as int),
        decreases b@.len() - j,
    {
        let k = skip_space_from(b, j);
        if k < b.len() && b[k] == 35 {
            proof {
                lemma_skip_comment(b@, k as int);
            }
            j = skip_comment_from(b, k);
        } else {
            return k;
        }
    }
}

proof fn lemma_digits_step(b: Seq<u8>, s: int, k: int)
    requires
        0 <= s <= k < b.len(),
    ensures
        digits_value(b.subrange(s, k + 1)) == digits_value(b.subrange(s, k)) * 10 + (b[k] - 48) as nat,
{
    assert(b.subrange(s, k + 1).drop_last() =~= b.subrange(s, k));
}

/// The value of the digits `b[s..e]`, or `None` where it exceeds `u64`.
fn digits_u64(b: &[u8], s: usize, e: usize) -> (r: Option<u64>)
    requires
        s <= e <= b@.len(),
        forall|k: int| s <= k < e ==> is_digit(#[trigger] b@[k]),
    ensures
        match r {
            Some(v) => v == digits_value(b@.subrange(s as int, e as int)),
            None => digits_value(b@.subrange(s as int, e as int)) > u64::MAX,
        },
{
    let mut v: u64 = 0;
    let mut over = false;
    let mut k = s;
    while k < e
        invariant
            s <= k <= e <= b@.len(),
            forall|k: int| s <= k < e ==> is_digit(#[trigger] b@[k]),
            over ==> digits_value(b@.subrange(s as int, k as int)) > u64::MAX,
            !over ==> v == digits_value(b@.subrange(s as int, k as int)),
        decreases e - k,
    {
        proof {
            lemma_digits_step(b@, s as int, k as int);
            assert(is_digit(b@[k as int]));
        }
        let d = (b[k] - 48) as u64;
        if !over {
            match v.checked_mul(10) {
                Some(m) => match m.checked_add(d) {
                    Some(n) => {
                        v = n;
                    },
                    None => {
                        over = true;
                    },
                },
                None => {
                    over = true;
                },
            }
        }
        k += 1;
    }
    if over {
        None
    } else {
        Some(v)
    }
}

proof fn lemma_header_numbers(b: Seq<u8>, i: int, count: nat)
    requires
        0 <= i <= b.len(),
    ensures
        header_numbers(b, i, count) matches Ok((vs, k)) ==> vs.len() == count && i <= k <= b.len(),
    decreases count,
{
    if count > 0 {
        let s = number_start(b, i);
        lemma_number_start(b, i);
        let e = skip_digits(b, s);
        lemma_skip_digits(b, s);
        lemma_header_numbers(b, e, (count - 1) as nat);
    }
}

/// Read `count` whitespace-separated header numbers starting at `i`, with the
/// index just past the last one.
fn tokens(b: &[u8], i: usize, count: usize) -> (r: Result<(Vec<u64>, usize), DecodeError>)
    requires
        i <= b@.len(),
    ensures
        match header_numbers(b@, i as int, count as nat) {
            Ok((vs, k)) => r matches Ok((v, e)) && v@ == vs && e == k,
            Err(f) => r matches Err(x) && refused_as(x, f),
        },
    decreases count,
{
    if count == 0 {
        return Ok((Vec::new(), i));
    }
    let s = next_number(b, i);
    let e = skip_digits_from(b, s);
    if e == s {
        return Err(DecodeError::Malformed { detail: "expected a number in the header".to_owned() });
    }
    match digits_u64(b, s, e) {
        None => {
            let mut detail = String::new();
            detail.append("`");
            let mut k = s;
            while k < e
                invariant
                    s <= k <= e <= b@.len(),
                    detail@ == "`"@ + ascii_chars(b@.subrange(s as int, k as int)),
                decreases e - k,
            {
                push_char(&mut detail, b[k] as char);
                proof {
                    assert(ascii_chars(b@.subrange(s as int, k + 1)) =~= ascii_chars(
                        b@.subrange(s as int, k as int),
                    ).push(b@[k as int] as char));
                }
                k += 1;
            }
            detail.append("` is not a number");
            Err(DecodeError::Malformed { detail })
        },
        Some(v) => match tokens(b, e, count - 1) {
            Ok((rest, k)) => {
                let mut out = Vec::new();
                out.push(v);
                let mut j: usize = 0;
                while j < rest.len()
                    invariant
                        j <= rest@.len(),
                        out@ == seq![v] + rest@.take(j as int),
                    decreases rest@.len() - j,
                {
                    out.push(rest[j]);
                    proof {
                        assert(rest@.take(j + 1) =~= rest@.take(j as int).push(rest@[j as int]));
                    }
                    j += 1;
                }
                proof {
                    assert(rest@.take(rest@.len() as int) =~= rest@);
                }
                Ok((out, k))
            },
            Err(x) => Err(x),
        },
    }
}

/// Check decoded dimensions against the limits, before any allocation.
fn check_geometry(width: u64, height: u64, limits: &ResourceLimits) -> (r: Result<(u32, u32), DecodeError>)
    ensures
        match geometry(width, height, *limits) {
            Ok(g) => r == Ok::<(u32, u32), DecodeError>(g),
            Err(f) => r matches Err(x) && refused_as(x, f),
        },
{
    if width > u32::MAX as u64 {
        return Err(DecodeError::DimensionOverflow { width: u32::MAX, height: 0 });
    }
    let width = width as u32;
    if height > u32::MAX as u64 {
        return Err(DecodeError::DimensionOverflow { width, height: u32::MAX });
    }
    let height = height as u32;
    match limits.check_dimensions(width, height) {
        Ok(()) => Ok((width, height)),
        Err(e) => Err(DecodeError::UnsupportedFormat { detail: e.message() }),
    }
}

proof fn lemma_wide_bytes(width: u32, height: u32, bpp: nat)
    requires
        bpp >= 1,
        width * height > usize::MAX,
    ensures
        width * height * bpp > usize::MAX,
{
    assert(width * height * bpp >= width * height) by (nonlinear_arith)
        requires
            bpp >= 1,
            width * height >= 0,
    ;
}

/// Take the pixel bytes that follow a header, or refuse a short input.
fn take_pixels(
    b: &[u8],
    start: usize,
    gap: usize,
    width: u32,
    height: u32,
    format: PixelFormat,
) -> (r: Result<Decoded, DecodeError>)
    requires
        start <= b@.len(),
    ensures
        decoded_as(r, pixels(b@, start + gap, width, height, format)),
{
    let count = match pixel_count(width, height) {
        Ok(n) => n,
        Err(e) => {
            proof {
                if width != 0 && height != 0 {
                    lemma_wide_bytes(width, height, format.pixel_bytes());
                }
            }
            return Err(e);
        },
    };
    let needed = match mul_bytes(count, format.bytes_per_pixel(), width, height) {
        Ok(n) => n,
        Err(e) => return Err(e),
    };
    let len = b.len();
    if gap <= len - start && needed <= len - start - gap {
        let offset = start + gap;
        let data = slice_to_vec(slice_subrange(b, offset, offset + needed));
        Ok(Decoded { width, height, format, data })
    } else {
        let got = if gap <= len - start {
            len - start - gap
        } else {
            0
        };
        Err(DecodeError::BufferTooShort { got, needed })
    }
}

/// Read a binary PPM.
fn decode_ppm(bytes: &[u8], limits: &ResourceLimits) -> (r: Result<Decoded, DecodeError>)
    requires
        bytes@.len() >= 2,
    ensures
        decoded_as(r, ppm(bytes@, *limits)),
{
    proof {
        lemma_header_numbers(bytes@, 2, 3);
    }
    let (header, end) = match tokens(bytes, 2, 3) {
        Ok(t) => t,
        Err(e) => return Err(e),
    };
    let (width, height) = match check_geometry(header[0], header[1], limits) {
        Ok(g) => g,
        Err(e) => return Err(e),
    };
    if header[2] != 255 {
        let mut detail = String::new();
        detail.append("maximum value ");
        push_decimal(&mut detail, header[2]);
        detail.append(" is not 255; only 8-bit is read");
        proof {
            assert(detail@ =~= "maximum value "@ + decimal(header@[2] as nat)
                + " is not 255; only 8-bit is read"@);
        }
        return Err(DecodeError::UnsupportedFormat { detail });
    }
    take_pixels(bytes, end, 1, width, height, PixelFormat::Rgb8)
}


/// The position of the PAM header terminator, if there is one.
fn find_header_end(b: &[u8]) -> (r: Option<usize>)
    ensures
        match r {
            Some(k) => find_endhdr(b@, 0) == Some(k as int),
            None => find_endhdr(b@, 0) is None,
        },
{
    let key: [u8; 7] = [69, 78, 68, 72, 68, 82, 10];
    proof {
        assert(key@ =~= endhdr());
    }
    let n = b.len();
    let mut i: usize = 0;
    while i <= n && 7 <= n - i
        invariant
            n == b@.len(),
            i <= n,
            key@ == endhdr(),
            find_endhdr(b@, i as int) == find_endhdr(b@, 0),
        decreases n - i,
    {
        if bytes_at(b, i, &key) {
            return Some(i);
        }
        i += 1;
    }
    None
}

/// Index of the first newline at or after `i`, or the end.
fn line_end_from(h: &[u8], i: usize) -> (j: usize)
    requires
        i <= h@.len(),
    ensures
        j == line_end(h@, i as int),
        i <= j <= h@.len(),
{
    let mut j = i;
    while j < h.len() && h[j] != 10
        invariant
            i <= j <= h@.len(),
            line_end(h@, j as int) == line_end(h@, i as int),
        decreases h@.len() - j,
    {
        j += 1;
    }
    j
}

/// The bounds of `h[lo..hi]` with surrounding white space trimmed.
fn trimmed(h: &[u8], lo: usize, hi: usize) -> (r: (usize, usize))
    requires
        lo <= hi <= h@.len(),
    ensures
        lo <= r.0 <= r.1 <= hi,
        h@.subrange(r.0 as int, r.1 as int) == trim_end(
            trim_start(h@.subrange(lo as int, hi as int)),
        ),
{
    let a = trim_start_at(h, lo, hi);
    let z = trim_end_at(h, a, hi);
    (a, z)
}

/// Whether every byte of `h[lo..hi]` is a digit.
fn all_digits(h: &[u8], lo: usize, hi: usize) -> (r: bool)
    requires
        lo <= hi <= h@.len(),
    ensures
        r == (forall|k: int|
            0 <= k < h@.subrange(lo as int, hi as int).len() ==> is_digit(
                #[trigger] h@.subrange(lo as int, hi as int)[k],
            )),
{
    let ghost s = h@.subrange(lo as int, hi as int);
    let mut k = lo;
    while k < hi
        invariant
            lo <= k <= hi <= h@.len(),
            s == h@.subrange(lo as int, hi as int),
            forall|j: int| 0 <= j < k - lo ==> is_digit(#[trigger] s[j]),
        decreases hi - k,
    {
        assert(s[k - lo] == h@[k as int]);
        if !is_digit_byte(h[k]) {
            return false;
        }
        k += 1;
    }
    true
}

/// `h[lo..hi]` parsed as a `u64`.
pub(crate) fn parse_range(h: &[u8], lo: usize, hi: usize) -> (r: Option<u64>)
    requires
        lo <= hi <= h@.len(),
    ensures
        r == parse_u64(h@.subrange(lo as int, hi as int)),
{
    let ghost t = h@.subrange(lo as int, hi as int);
    let a = if lo < hi && h[lo] == 43 {
        lo + 1
    } else {
        lo
    };
    proof {
        if lo < hi {
            assert(t[0] == h@[lo as int]);
        }
        assert(without_plus(t) =~= h@.subrange(a as int, hi as int));
    }
    if a < hi && all_digits(h, a, hi) {
        proof {
            let d = h@.subrange(a as int, hi as int);
            assert forall|k: int| a <= k < hi implies is_digit(#[trigger] h@[k]) by {
                assert(d[k - a] == h@[k]);
            }
        }
        digits_u64(h, a, hi)
    } else {
        None
    }
}

/// The value line `h[lo..hi]` gives the field `name`, if any.
fn line_value_at(h: &[u8], lo: usize, hi: usize, name: &[u8]) -> (r: Option<u64>)
    requires
        lo <= hi <= h@.len(),
    ensures
        r == line_value(h@.subrange(lo as int, hi as int), name@),
{
    let ghost line = h@.subrange(lo as int, hi as int);
    if name.len() <= hi - lo && bytes_at(h, lo, name) {
        proof {
            assert(line.take(name@.len() as int) =~= h@.subrange(lo as int, lo + name@.len()));
            assert(line.skip(name@.len() as int) =~= h@.subrange(lo + name@.len(), hi as int));
        }
        let (a, z) = trimmed(h, lo + name.len(), hi);
        parse_range(h, a, z)
    } else {
        proof {
            if name@.len() <= line.len() {
                assert(line.take(name@.len() as int) =~= h@.subrange(
                    lo as int,
                    lo + name@.len(),
                ));
            }
        }
        None
    }
}

/// The value of the first header line that gives `name` a number.
fn field(h: &[u8], name: &[u8]) -> (r: Option<u64>)
    ensures
        r == field_from(h@, 0, name@),
{
    let mut i: usize = 0;
    loop
        invariant
            i <= h@.len(),
            field_from(h@, i as int, name@) == field_from(h@, 0, name@),
        decreases h@.len() - i,
    {
        let e = line_end_from(h, i);
        match line_value_at(h, i, e, name) {
            Some(v) => {
                return Some(v);
            },
            None => {
                if e < h.len() {
                    i = e + 1;
                } else {
                    return None;
                }
            },
        }
    }
}

/// Read a PAM.
fn decode_pam(bytes: &[u8], limits: &ResourceLimits) -> (r: Result<Decoded, DecodeError>)
    ensures
        decoded_as(r, pam(bytes@, *limits)),
{
    let end = match find_header_end(bytes) {
        Some(k) => k,
        None => {
            return Err(DecodeError::Malformed { detail: "PAM header has no ENDHDR".to_owned() });
        },
    };
    proof {
        lemma_find_endhdr(bytes@, 0);
    }
    let header = slice_subrange(bytes, 0, end);
    proof {
        assert(header@ =~= bytes@.take(end as int));
    }
    if !is_utf8(header) {
        return Err(DecodeError::Malformed { detail: "PAM header is not ASCII".to_owned() });
    }
    let k_width: [u8; 5] = [87, 73, 68, 84, 72];
    let k_height: [u8; 6] = [72, 69, 73, 71, 72, 84];
    let k_depth: [u8; 5] = [68, 69, 80, 84, 72];
    let k_maxval: [u8; 6] = [77, 65, 88, 86, 65, 76];
    proof {
        assert(k_width@ =~= key_width());
        assert(k_height@ =~= key_height());
        assert(k_depth@ =~= key_depth());
        assert(k_maxval@ =~= key_maxval());
    }
    let width = match field(header, &k_width) {
        Some(v) => v,
        None => {
            return Err(DecodeError::Malformed { detail: "PAM header has no WIDTH".to_owned() });
        },
    };
    let height = match field(header, &k_height) {
        Some(v) => v,
        None => {
            return Err(DecodeError::Malformed { detail: "PAM header has no HEIGHT".to_owned() });
        },
    };
    let depth = match field(header, &k_depth) {
        Some(v) => v,
        None => {
            return Err(DecodeError::Malformed { detail: "PAM header has no DEPTH".to_owned() });
        },
    };
    let maxval = match field(header, &k_maxval) {
        Some(v) => v,
        None => 255,
    };
    if maxval != 255 {
        let mut detail = String::new();
        detail.append("MAXVAL ");
        push_decimal(&mut detail, maxval);
        detail.append(" is not 255; only 8-bit is read");
        return Err(DecodeError::UnsupportedFormat { detail });
    }
    let format = if depth == 1 {
        PixelFormat::Gray8
    } else if depth == 2 {
        PixelFormat::GrayAlpha8
    } else if depth == 3 {
        PixelFormat::Rgb8
    } else if depth == 4 {
        PixelFormat::Rgba8
    } else {
        let mut detail = String::new();
        detail.append("PAM DEPTH ");
        push_decimal(&mut detail, depth);
        detail.append(" is not 1, 2, 3 or 4");
        return Err(DecodeError::UnsupportedFormat { detail });
    };
    let (w, h) = match check_geometry(width, height, limits) {
        Ok(g) => g,
        Err(e) => return Err(e),
    };
    take_pixels(bytes, end, 7, w, h, format)
}

proof fn lemma_find_endhdr(b: Seq<u8>, i: int)
    requires
        0 <= i,
    ensures
        find_endhdr(b, i) matches Some(k) ==> i <= k && k + 7 <= b.len(),
    decreases b.len() - i,
{
    if i + 7 <= b.len() && b.subrange(i, i + 7) != endhdr() {
        lemma_find_endhdr(b, i + 1);
    }
}

/// Decode a Netpbm image: binary PPM (`P6`) or PAM (`P7`) at eight bits per
/// sample.
///
/// A PNG is refused by name, anything else that is not `P6` or `P7` as an
/// unsupported format, a header that does not parse as malformed, and
/// truncated pixel data as too short. Dimension limits are enforced before
/// any allocation.
pub fn decode(bytes: &[u8], limits: &ResourceLimits) -> (r: Result<Decoded, DecodeError>)
    ensures
        decoded_as(r, netpbm(bytes@, *limits)),
{
    let sig: [u8; 8] = [0x89, 80, 78, 71, 0x0d, 0x0a, 0x1a, 0x0a];
    proof {
        assert(sig@ =~= png_signature());
    }
    if bytes.len() >= 8 && bytes_at(bytes, 0, &sig) {
        proof {
            assert(bytes@.take(8) =~= bytes@.subrange(0, 8));
        }
        return Err(DecodeError::UnsupportedFormat {
            detail: "PNG: no codec adapter is built into this front end (§5.1 palette-tracer-codecs). Convert with `tools/png_to_ppm.py` or supply pixels through the library API".to_owned(),
        });
    }
    proof {
        if bytes@.len() >= 8 {
            assert(bytes@.take(8) =~= bytes@.subrange(0, 8));
        }
    }
    if bytes.len() == 0 || bytes[0] != 80 {
        return Err(DecodeError::UnsupportedFormat {
            detail: "not a Netpbm image; this front end reads P6 and P7 only".to_owned(),
        });
    }
    if bytes.len() == 1 {
        return Err(DecodeError::Malformed { detail: "truncated header".to_owned() });
    }
    if bytes[1] == 54 {
        decode_ppm(bytes, limits)
    } else if bytes[1] == 55 {
        decode_pam(bytes, limits)
    } else {
        let mut detail = String::new();
        detail.append("Netpbm P");
        push_char(&mut detail, bytes[1] as char);
        detail.append(" is not supported; use P6 or P7");
        proof {
            assert(detail@ =~= "Netpbm P"@ + seq![bytes@[1] as char]
                + " is not supported; use P6 or P7"@);
        }
        Err(DecodeError::UnsupportedFormat { detail })
    }
}

/// How a decoded format's alpha is read: formats without an alpha channel
/// are opaque.
pub open spec fn alpha_of(format: PixelFormat) -> AlphaMode {
    if format == PixelFormat::Rgb8 || format == PixelFormat::Gray8 {
        AlphaMode::Opaque
    } else {
        AlphaMode::Straight
    }
}

/// A view of decoded pixels: sRGB, tightly packed, and in identity
/// orientation, which is a statement of fact because Netpbm carries no
/// orientation metadata.
pub fn view(decoded: &Decoded) -> (r: Result<ImageView<'_>, DecodeError>)
    ensures
        match layout(decoded.width, decoded.height, 0, decoded.format, decoded.data@.len() as usize) {
            Ok(stride) => r matches Ok(v) && {
                &&& v.spec_width() == decoded.width
                &&& v.spec_height() == decoded.height
                &&& v.spec_stride() == stride
                &&& v.spec_format() == decoded.format
                &&& v.spec_data() == decoded.data@
                &&& v.spec_encoding() == ColorEncoding::Srgb
                &&& v.spec_alpha_mode() == alpha_of(decoded.format)
                &&& v.spec_orientation() == Orientation::Identity
            },
            Err(e) => r == Err::<ImageView<'_>, DecodeError>(e),
        },
{
    let alpha = if decoded.format == PixelFormat::Rgb8 || decoded.format == PixelFormat::Gray8 {
        AlphaMode::Opaque
    } else {
        AlphaMode::Straight
    };
    ImageView::new(
        decoded.width,
        decoded.height,
        0,
        decoded.format,
        decoded.data.as_slice(),
        ColorEncoding::Srgb,
        alpha,
        Orientation::Identity,
    )
}

/// Decode the bytes of an input file or stream: the input size limit is
/// checked first, then the image is decoded under the same limits.
pub fn load(bytes: &[u8], limits: &ResourceLimits) -> (r: Result<Decoded, TraceError>)
    ensures
        bytes@.len() > limits.max_input_bytes ==> r == Err::<Decoded, TraceError>(
            TraceError::ResourceLimit(
                ResourceLimitError::Exceeded {
                    limit: "max_input_bytes",
                    allowed: limits.max_input_bytes,
                    required: bytes@.len() as u64,
                },
            ),
        ),
        bytes@.len() <= limits.max_input_bytes ==> match netpbm(bytes@, *limits) {
            Ok(p) => r matches Ok(d) && d.width == p.width && d.height == p.height && d.format
                == p.format && d.data@ == p.data,
            Err(f) => r matches Err(TraceError::Decode(e)) && refused_as(e, f),
        },
{
    if let Err(e) = ResourceLimits::check_count(
        "max_input_bytes",
        usize_to_u64(bytes.len()),
        limits.max_input_bytes,
    ) {
        return Err(TraceError::ResourceLimit(e));
    }
    match decode(bytes, limits) {
        Ok(d) => Ok(d),
        Err(e) => Err(TraceError::Decode(e)),
    }
}

/// A PAM holds as many bytes per pixel as its header's `DEPTH` says: when
/// `P7` bytes decode, `DEPTH` is 1 to 4 and `MAXVAL`, if given, is 255, the
/// format's pixel size is that `DEPTH`, the geometry
/// is the header's `WIDTH` and `HEIGHT`, and the pixels are the
/// `WIDTH * HEIGHT * DEPTH` bytes that follow `ENDHDR`.
pub proof fn law_pam_pixels_are_depth_bytes_wide(b: Seq<u8>, limits: ResourceLimits)
    requires
        b.len() >= 2,
        b[0] == 80,
        b[1] == 55,
        netpbm(b, limits) is Ok,
    ensures
        ({
            let p = netpbm(b, limits)->Ok_0;
            let end = find_endhdr(b, 0)->0;
            let h = b.take(end);
            let w = field_from(h, 0, key_width())->0;
            let ht = field_from(h, 0, key_height())->0;
            let depth = field_from(h, 0, key_depth())->0;
            &&& find_endhdr(b, 0) is Some
            &&& field_from(h, 0, key_width()) is Some
            &&& field_from(h, 0, key_height()) is Some
            &&& field_from(h, 0, key_depth()) is Some
            &&& 1 <= depth <= 4
            &&& field_from(h, 0, key_maxval()) is None || field_from(h, 0, key_maxval()) == Some(
                255u64,
            )
            &&& p.format.pixel_bytes() == depth
            &&& p.width == w
            &&& p.height == ht
            &&& p.data == b.subrange(end + 7, end + 7 + w * ht * depth)
        }),
{
    assert(b.take(8) != png_signature() || b.len() < 8) by {
        if b.len() >= 8 {
            assert(b.take(8)[0] != png_signature()[0]);
        }
    }
}

/// A PAM whose header is whole and within the limits, and whose body holds
/// `WIDTH * HEIGHT * DEPTH` bytes after `ENDHDR`, decodes to exactly those
/// bytes, `DEPTH` bytes to a pixel.
pub proof fn law_pam_with_whole_body_decodes(
    b: Seq<u8>,
    limits: ResourceLimits,
    end: int,
    w: u64,
    ht: u64,
    depth: u64,
)
    requires
        b.len() >= 2,
        b[0] == 80,
        b[1] == 55,
        find_endhdr(b, 0) == Some(end),
        valid_utf8(b.take(end)),
        field_from(b.take(end), 0, key_width()) == Some(w),
        field_from(b.take(end), 0, key_height()) == Some(ht),
        field_from(b.take(end), 0, key_depth()) == Some(depth),
        field_from(b.take(end), 0, key_maxval()) is None || field_from(b.take(end), 0, key_maxval())
            == Some(255u64),
        1 <= depth <= 4,
        0 < w <= limits.max_width,
        0 < ht <= limits.max_height,
        w * ht <= limits.max_pixels,
        w * ht * depth <= usize::MAX,
        end + 7 + w * ht * depth <= b.len(),
    ensures
        netpbm(b, limits) matches Ok(p) && p.width == w && p.height == ht
            && p.format.pixel_bytes() == depth && p.data == b.subrange(
            end + 7,
            end + 7 + w * ht * depth,
        ),
{
    assert(b.take(8) != png_signature() || b.len() < 8) by {
        if b.len() >= 8 {
            assert(b.take(8)[0] != png_signature()[0]);
        }
    }
    assert(w <= u32::MAX && ht <= u32::MAX);
    assert((w as u32) * (ht as u32) == w * ht);
}

} // verus!
