//! The parts of the command-line front end that compute rather than read or
//! write: its error values and the shallow checks `validate` makes on an SVG.

use vstd::prelude::*;
use vstd::string::*;
use vstd::utf8::valid_utf8;
use crate::error::{ConfigError, TraceError, ValidationError};
use vstd::utf8::encode_utf8;
use crate::text::{bytes_at, chars_of, contains_bytes, count_byte, find_bytes, is_utf8, occurrences, same_text, trim_end, trim_end_at, trim_start, trim_start_at};
use crate::render::push_char;
use crate::config::{BackgroundPolicy, Profile};
use crate::netpbm::{parse_range, parse_u64};

verus! {

/// The error for a flag given without its value.
pub fn missing_value(flag: String) -> (e: TraceError)
    ensures
        e matches TraceError::Config(ConfigError::UnknownValue { field, got }) && field == "option"
            && got@ == flag@ + " needs a value"@,
{
    let mut got = flag;
    got.append(" needs a value");
    TraceError::Config(ConfigError::UnknownValue { field: "option", got })
}

/// The error for a flag whose value is not a number.
pub fn out_of_range(field: &'static str, got: &str) -> (e: TraceError)
    ensures
        e matches TraceError::Config(ConfigError::OutOfRange { field: f, got: g, expected })
            && f == field && g@ == got@ && expected == "a number",
{
    TraceError::Config(ConfigError::OutOfRange { field, got: got.to_owned(), expected: "a number" })
}

/// `s` begins with `key`.
pub open spec fn starts_with(s: Seq<u8>, key: Seq<u8>) -> bool {
    key.len() <= s.len() && s.take(key.len() as int) == key
}

/// `s` ends with `key`.
pub open spec fn ends_with(s: Seq<u8>, key: Seq<u8>) -> bool {
    key.len() <= s.len() && s.skip(s.len() - key.len()) == key
}

/// The bytes of `<svg`.
pub open spec fn svg_open() -> Seq<u8> {
    seq![60u8, 115u8, 118u8, 103u8]
}

/// The bytes of `</svg>`.
pub open spec fn svg_close() -> Seq<u8> {
    seq![60u8, 47u8, 115u8, 118u8, 103u8, 62u8]
}

/// The bytes of `NaN`.
pub open spec fn nan_text() -> Seq<u8> {
    seq![78u8, 97u8, 78u8]
}

/// The bytes of `Infinity`.
pub open spec fn infinity_text() -> Seq<u8> {
    seq![73u8, 110u8, 102u8, 105u8, 110u8, 105u8, 116u8, 121u8]
}

/// The bytes of `<script`.
pub open spec fn script_open() -> Seq<u8> {
    seq![60u8, 115u8, 99u8, 114u8, 105u8, 112u8, 116u8]
}

/// `problem` once if `bad` holds, else nothing.
pub open spec fn when(bad: bool, problem: &'static str) -> Seq<&'static str> {
    if bad {
        seq![problem]
    } else {
        Seq::empty()
    }
}

/// The problems the shallow checks find in an SVG text, in the order they
/// are checked. A non-finite number is reported once for `NaN` and once for
/// `Infinity`.
pub open spec fn svg_problems(t: Seq<u8>) -> Seq<&'static str> {
    when(!starts_with(trim_start(t), svg_open()), "does not start with an <svg> element")
        + when(!ends_with(trim_end(t), svg_close()), "does not end with </svg>")
        + when(occurrences(t, 60) != occurrences(t, 62), "angle brackets are unbalanced")
        + when(contains_bytes(t, nan_text()), "contains a non-finite number")
        + when(contains_bytes(t, infinity_text()), "contains a non-finite number")
        + when(contains_bytes(t, script_open()), "contains a script element")
}

/// What a front end can check of an SVG without an XML parser: that it
/// starts with `<svg` and ends with `</svg>` once white space is trimmed,
/// that its angle brackets balance, and that it holds no non-finite number
/// and no script. Deliberately shallow; not a conformance check.
pub fn shallow_svg_problems(text: &[u8]) -> (problems: Vec<&'static str>)
    ensures
        problems@ == svg_problems(text@),
{
    let n = text.len();
    let k_open: [u8; 4] = [60, 115, 118, 103];
    let k_close: [u8; 6] = [60, 47, 115, 118, 103, 62];
    let k_nan: [u8; 3] = [78, 97, 78];
    let k_inf: [u8; 8] = [73, 110, 102, 105, 110, 105, 116, 121];
    let k_script: [u8; 7] = [60, 115, 99, 114, 105, 112, 116];
    proof {
        assert(k_open@ =~= svg_open());
        assert(k_close@ =~= svg_close());
        assert(k_nan@ =~= nan_text());
        assert(k_inf@ =~= infinity_text());
        assert(k_script@ =~= script_open());
        assert(text@.subrange(0, n as int) =~= text@);
    }
    let ghost t = text@;
    let mut problems: Vec<&'static str> = Vec::new();

    let a = trim_start_at(text, 0, n);
    let opens = n - a >= 4 && bytes_at(text, a, &k_open);
    proof {
        let s = t.subrange(a as int, n as int);
        if n - a >= 4 {
            assert(s.take(4) =~= t.subrange(a as int, a + 4));
        }
    }
    if !opens {
        problems.push("does not start with an <svg> element");
    }
    let ghost p1 = problems@;

    let z = trim_end_at(text, 0, n);
    let closes = z >= 6 && bytes_at(text, z - 6, &k_close);
    proof {
        let s = t.subrange(0, z as int);
        if z >= 6 {
            assert(s.skip(s.len() - 6) =~= t.subrange(z - 6, z as int));
        }
    }
    if !closes {
        problems.push("does not end with </svg>");
    }
    let ghost p2 = problems@;

    if count_byte(text, 60) != count_byte(text, 62) {
        problems.push("angle brackets are unbalanced");
    }
    let ghost p3 = problems@;
    if find_bytes(text, &k_nan) {
        problems.push("contains a non-finite number");
    }
    let ghost p4 = problems@;
    if find_bytes(text, &k_inf) {
        problems.push("contains a non-finite number");
    }
    let ghost p5 = problems@;
    if find_bytes(text, &k_script) {
        problems.push("contains a script element");
    }
    proof {
        assert(p1 =~= when(!starts_with(trim_start(t), svg_open()), "does not start with an <svg> element"));
        assert(p2 =~= p1 + when(!ends_with(trim_end(t), svg_close()), "does not end with </svg>"));
        assert(p3 =~= p2 + when(occurrences(t, 60) != occurrences(t, 62), "angle brackets are unbalanced"));
        assert(p4 =~= p3 + when(contains_bytes(t, nan_text()), "contains a non-finite number"));
        assert(p5 =~= p4 + when(contains_bytes(t, infinity_text()), "contains a non-finite number"));
        assert(problems@ =~= p5 + when(contains_bytes(t, script_open()), "contains a script element"));
    }
    problems
}

/// The problems joined by `"; "`.
pub open spec fn joined(problems: Seq<&'static str>) -> Seq<char>
    decreases problems.len(),
{
    if problems.len() == 0 {
        Seq::empty()
    } else if problems.len() == 1 {
        problems[0]@
    } else {
        joined(problems.drop_last()) + "; "@ + problems.last()@
    }
}

/// The outcome of the shallow checks on a file's bytes.
pub open spec fn svg_verdict(bytes: Seq<u8>) -> Option<(&'static str, Seq<char>)> {
    if !valid_utf8(bytes) {
        Some(("utf8", "the file is not UTF-8"@))
    } else if svg_problems(bytes).len() > 0 {
        Some(("shallow_svg_checks", joined(svg_problems(bytes))))
    } else {
        None
    }
}

/// Check a produced SVG file's bytes: UTF-8 first, then the shallow checks,
/// refusing with every problem found, joined by `"; "`.
pub fn check_svg(bytes: &[u8]) -> (r: Result<(), ValidationError>)
    ensures
        match svg_verdict(bytes@) {
            None => r is Ok,
            Some((check, detail)) => r matches Err(ValidationError::Svg { check: c, detail: d })
                && c == check && d@ == detail,
        },
{
    if !is_utf8(bytes) {
        return Err(ValidationError::Svg { check: "utf8", detail: "the file is not UTF-8".to_owned() });
    }
    let problems = shallow_svg_problems(bytes);
    if problems.len() == 0 {
        return Ok(());
    }
    let mut detail = String::new();
    detail.append(problems[0]);
    let mut i: usize = 1;
    proof {
        assert(problems@.take(1).drop_last() =~= Seq::<&'static str>::empty());
        assert(detail@ =~= joined(problems@.take(1)));
    }
    while i < problems.len()
        invariant
            1 <= i <= problems@.len(),
            detail@ == joined(problems@.take(i as int)),
        decreases problems@.len() - i,
    {
        detail.append("; ");
        detail.append(problems[i]);
        proof {
            assert(problems@.take(i + 1).drop_last() =~= problems@.take(i as int));
        }
        i = i + 1;
    }
    proof {
        assert(problems@.take(problems@.len() as int) =~= problems@);
    }
    Err(ValidationError::Svg { check: "shallow_svg_checks", detail })
}

/// Unicode white space, the characters `char::is_whitespace` recognises.
pub open spec fn is_white(c: char) -> bool {
    let n = c as u32;
    ||| 9 <= n <= 13
    ||| n == 32 || n == 0x85 || n == 0xA0 || n == 0x1680
    ||| 0x2000 <= n <= 0x200A
    ||| n == 0x2028 || n == 0x2029 || n == 0x202F || n == 0x205F || n == 0x3000
}

fn is_white_char(c: char) -> (r: bool)
    ensures
        r == is_white(c),
{
    let n = c as u32;
    (9 <= n && n <= 13) || n == 32 || n == 0x85 || n == 0xA0 || n == 0x1680 || (0x2000 <= n && n
        <= 0x200A) || n == 0x2028 || n == 0x2029 || n == 0x202F || n == 0x205F || n == 0x3000
}

/// `p` without leading white space.
pub open spec fn trim_front(p: Seq<char>) -> Seq<char>
    decreases p.len(),
{
    if p.len() > 0 && is_white(p[0]) {
        trim_front(p.skip(1))
    } else {
        p
    }
}

/// `p` without trailing white space.
pub open spec fn trim_back(p: Seq<char>) -> Seq<char>
    decreases p.len(),
{
    if p.len() > 0 && is_white(p.last()) {
        trim_back(p.drop_last())
    } else {
        p
    }
}

/// `p` without leading or trailing white space, as `str::trim` gives it.
pub open spec fn trim_chars(p: Seq<char>) -> Seq<char> {
    trim_back(trim_front(p))
}

/// The comma-separated parts of `cs`, as `str::split(',')` gives them: one
/// more part than there are commas.
pub open spec fn pieces(cs: Seq<char>) -> Seq<Seq<char>>
    decreases cs.len(),
{
    if cs.len() == 0 {
        seq![Seq::empty()]
    } else {
        let p = pieces(cs.drop_last());
        if cs.last() == ',' {
            p.push(Seq::empty())
        } else {
            p.update(p.len() - 1, p.last().push(cs.last()))
        }
    }
}

/// The parts, trimmed, without those that were only white space.
pub open spec fn kept(parts: Seq<Seq<char>>) -> Seq<Seq<char>>
    decreases parts.len(),
{
    if parts.len() == 0 {
        Seq::empty()
    } else if trim_chars(parts.last()).len() > 0 {
        kept(parts.drop_last()).push(trim_chars(parts.last()))
    } else {
        kept(parts.drop_last())
    }
}

/// The colours a `--palette` value lists, in order.
pub open spec fn palette_list(v: Seq<char>) -> Seq<Seq<char>> {
    kept(pieces(v))
}

proof fn lemma_pieces_nonempty(cs: Seq<char>)
    ensures
        pieces(cs).len() >= 1,
    decreases cs.len(),
{
    if cs.len() > 0 {
        lemma_pieces_nonempty(cs.drop_last());
    }
}

proof fn lemma_trim_front(p: Seq<char>, lo: int)
    requires
        0 <= lo <= p.len(),
        forall|k: int| 0 <= k < lo ==> is_white(#[trigger] p[k]),
        lo == p.len() || !is_white(p[lo]),
    ensures
        trim_front(p) == p.skip(lo),
    decreases lo,
{
    if lo > 0 {
        let q = p.skip(1);
        assert forall|k: int| 0 <= k < lo - 1 implies is_white(#[trigger] q[k]) by {
            assert(q[k] == p[k + 1]);
        }
        if lo - 1 < q.len() {
            assert(q[lo - 1] == p[lo]);
        }
        lemma_trim_front(q, lo - 1);
        assert(q.skip(lo - 1) =~= p.skip(lo));
    } else {
        assert(p.skip(0) =~= p);
    }
}

proof fn lemma_trim_back(p: Seq<char>, hi: int)
    requires
        0 <= hi <= p.len(),
        forall|k: int| hi <= k < p.len() ==> is_white(#[trigger] p[k]),
        hi == 0 || !is_white(p[hi - 1]),
    ensures
        trim_back(p) == p.take(hi),
    decreases p.len() - hi,
{
    if hi < p.len() {
        let q = p.drop_last();
        assert forall|k: int| hi <= k < q.len() implies is_white(#[trigger] q[k]) by {
            assert(q[k] == p[k]);
        }
        if hi > 0 {
            assert(q[hi - 1] == p[hi - 1]);
        }
        lemma_trim_back(q, hi);
        assert(q.take(hi) =~= p.take(hi));
    } else {
        assert(p.take(hi) =~= p);
    }
}

/// `chars` trimmed, as a new string, and whether anything is left.
fn trimmed(chars: &Vec<char>) -> (r: (String, bool))
    ensures
        r.0@ == trim_chars(chars@),
        r.1 == (r.0@.len() > 0),
{
    let n = chars.len();
    let mut lo: usize = 0;
    while lo < n && is_white_char(chars[lo])
        invariant
            n == chars@.len(),
            lo <= n,
            forall|k: int| 0 <= k < lo ==> is_white(#[trigger] chars@[k]),
        decreases n - lo,
    {
        lo += 1;
    }
    let mut hi: usize = n;
    while hi > lo && is_white_char(chars[hi - 1])
        invariant
            n == chars@.len(),
            lo <= hi <= n,
            forall|k: int| hi <= k < n ==> is_white(#[trigger] chars@[k]),
        decreases hi,
    {
        hi -= 1;
    }
    proof {
        lemma_trim_front(chars@, lo as int);
        let f = chars@.skip(lo as int);
        assert forall|k: int| hi - lo <= k < f.len() implies is_white(#[trigger] f[k]) by {
            assert(f[k] == chars@[k + lo]);
        }
        if hi > lo {
            assert(f[hi - lo - 1] == chars@[hi - 1]);
        }
        lemma_trim_back(f, hi - lo);
        assert(f.take(hi - lo) =~= chars@.subrange(lo as int, hi as int));
    }
    let mut s = String::new();
    let mut i = lo;
    while i < hi
        invariant
            lo <= i <= hi <= chars@.len(),
            s@ == chars@.subrange(lo as int, i as int),
        decreases hi - i,
    {
        push_char(&mut s, chars[i]);
        proof {
            assert(s@ =~= chars@.subrange(lo as int, i + 1));
        }
        i += 1;
    }
    (s, hi > lo)
}

/// The colours a `--palette` value lists: its comma-separated parts,
/// trimmed, leaving out those that are only white space.
pub fn palette_colors(list: &str) -> (colors: Vec<String>)
    ensures
        colors@.len() == palette_list(list@).len(),
        forall|i: int| 0 <= i < colors@.len() ==> (#[trigger] colors@[i])@ == palette_list(list@)[i],
{
    let cs = chars_of(list);
    let ghost v = list@;
    let mut colors: Vec<String> = Vec::new();
    let mut current: Vec<char> = Vec::new();
    let mut i: usize = 0;
    proof {
        assert(v.take(0) =~= Seq::<char>::empty());
    }
    while i < cs.len()
        invariant
            cs@ == v,
            i <= v.len(),
            pieces(v.take(i as int)).len() >= 1,
            current@ == pieces(v.take(i as int)).last(),
            colors@.len() == kept(pieces(v.take(i as int)).drop_last()).len(),
            forall|k: int|
                0 <= k < colors@.len() ==> (#[trigger] colors@[k])@ == kept(
                    pieces(v.take(i as int)).drop_last(),
                )[k],
        decreases v.len() - i,
    {
        let c = cs[i];
        let ghost before = pieces(v.take(i as int));
        proof {
            assert(v.take(i + 1).drop_last() =~= v.take(i as int));
            assert(v.take(i + 1).last() == c);
            lemma_pieces_nonempty(v.take(i as int));
        }
        if c == ',' {
            let (t, some) = trimmed(&current);
            proof {
                assert(before.push(Seq::empty()).drop_last() =~= before);
                assert(before.drop_last().push(before.last()) =~= before);
            }
            if some {
                colors.push(t);
            }
            current = Vec::new();
            proof {
                assert(current@ =~= Seq::<char>::empty());
            }
        } else {
            current.push(c);
            proof {
                let after = before.update(before.len() - 1, before.last().push(c));
                assert(after.drop_last() =~= before.drop_last());
            }
        }
        i += 1;
    }
    let (t, some) = trimmed(&current);
    proof {
        let all = pieces(v.take(i as int));
        assert(v.take(i as int) =~= v);
        assert(all.drop_last().push(all.last()) =~= all);
    }
    if some {
        colors.push(t);
    }
    colors
}

/// One command-line argument, read.
#[derive(Debug, PartialEq, Eq)]
pub enum Arg {
    /// `--config <FILE>`: a configuration file to read now.
    Config(String),
    /// `--profile <NAME>`.
    Profile(Profile),
    /// `--palette <#rrggbb,...>`: an exact palette's colours, in order.
    Palette(Vec<String>),
    /// `--max-colors <N>`.
    MaxColors(u32),
    /// `--background <keep|transparent|auto>`.
    Background(BackgroundPolicy),
    /// `--curve-tolerance <PX>`: the number as written.
    CurveTolerance(String),
    /// `--report <FILE|->`.
    Report(String),
    /// `--print-effective-config`.
    PrintEffectiveConfig,
    /// `--pretty`.
    Pretty,
    /// `--exact-palette`.
    ExactPalette,
    /// An input or output path.
    Positional(String),
}

/// The flags that take the next argument as their value.
pub open spec fn value_flag(a: Seq<char>) -> bool {
    ||| a == "--config"@
    ||| a == "--profile"@
    ||| a == "--palette"@
    ||| a == "--max-colors"@
    ||| a == "--background"@
    ||| a == "--curve-tolerance"@
    ||| a == "--report"@
}

/// An unsigned decimal number that fits a `u32`, as Rust parses one.
pub open spec fn parse_u32(t: Seq<u8>) -> Option<u32> {
    match parse_u64(t) {
        Some(v) => if v <= u32::MAX {
            Some(v as u32)
        } else {
            None
        },
        None => None,
    }
}

/// The background policy a `--background` value names.
pub open spec fn background_named(v: Seq<char>) -> Option<BackgroundPolicy> {
    if v == "keep"@ {
        Some(BackgroundPolicy::Keep)
    } else if v == "transparent"@ {
        Some(BackgroundPolicy::Transparent)
    } else if v == "auto"@ {
        Some(BackgroundPolicy::Auto)
    } else {
        None
    }
}

/// What the flag `a` with the value `v` reads as, ending at `n`.
pub open spec fn reads_value(a: Seq<char>, v: Seq<char>, n: int, r: Result<(Arg, usize), TraceError>) -> bool {
    if a == "--config"@ {
        r matches Ok((Arg::Config(p), k)) && p@ == v && k == n
    } else if a == "--profile"@ {
        if exists|p: Profile| p.name()@ == v {
            r matches Ok((Arg::Profile(p), k)) && p.name()@ == v && k == n
        } else {
            r matches Err(TraceError::Config(ConfigError::UnknownValue { field, got }))
                && field == "profile" && got@ == v
        }
    } else if a == "--palette"@ {
        if palette_list(v).len() > 0 {
            r matches Ok((Arg::Palette(colors), k)) && k == n && colors@.len() == palette_list(
                v,
            ).len() && forall|i: int|
                0 <= i < colors@.len() ==> (#[trigger] colors@[i])@ == palette_list(v)[i]
        } else {
            r == Err::<(Arg, usize), TraceError>(
                TraceError::Config(ConfigError::Palette { reason: "`--palette` was given no colours" }),
            )
        }
    } else if a == "--max-colors"@ {
        match parse_u32(encode_utf8(v)) {
            Some(m) => r == Ok::<(Arg, usize), TraceError>((Arg::MaxColors(m), n as usize)),
            None => r matches Err(
                TraceError::Config(ConfigError::OutOfRange { field, got, expected }),
            ) && field == "palette.maxColors" && got@ == v && expected == "a number",
        }
    } else if a == "--background"@ {
        match background_named(v) {
            Some(b) => r == Ok::<(Arg, usize), TraceError>((Arg::Background(b), n as usize)),
            None => r matches Err(TraceError::Config(ConfigError::UnknownValue { field, got }))
                && field == "color.background" && got@ == v,
        }
    } else if a == "--curve-tolerance"@ {
        r matches Ok((Arg::CurveTolerance(t), k)) && t@ == v && k == n
    } else {
        r matches Ok((Arg::Report(t), k)) && t@ == v && k == n
    }
}

/// What the argument at `i` reads as, and where the next one starts. A flag
/// that takes a value takes the next argument whatever it is; an unknown
/// argument that starts with `--` is refused; any other is a path.
pub open spec fn reads_as(args: Seq<String>, i: int, r: Result<(Arg, usize), TraceError>) -> bool {
    let a = args[i]@;
    if value_flag(a) {
        if i + 1 < args.len() {
            reads_value(a, args[i + 1]@, i + 2, r)
        } else {
            r matches Err(TraceError::Config(ConfigError::UnknownValue { field, got }))
                && field == "option" && got@ == a + " needs a value"@
        }
    } else if a == "--print-effective-config"@ {
        r == Ok::<(Arg, usize), TraceError>((Arg::PrintEffectiveConfig, (i + 1) as usize))
    } else if a == "--pretty"@ {
        r == Ok::<(Arg, usize), TraceError>((Arg::Pretty, (i + 1) as usize))
    } else if a == "--exact-palette"@ {
        r == Ok::<(Arg, usize), TraceError>((Arg::ExactPalette, (i + 1) as usize))
    } else if a.len() >= 2 && a[0] == '-' && a[1] == '-' {
        r matches Err(TraceError::Config(ConfigError::UnknownValue { field, got }))
            && field == "option" && got@ == a
    } else {
        r matches Ok((Arg::Positional(p), k)) && p@ == a && k == i + 1
    }
}

fn profile_named(name: &str) -> (r: Option<Profile>)
    ensures
        match r {
            Some(p) => p.name()@ == name@,
            None => forall|p: Profile| p.name()@ != name@,
        },
{
    let all = [
        Profile::Logo,
        Profile::FlatIllustration,
        Profile::VinylCut,
        Profile::Laser,
        Profile::ColoringBook,
        Profile::LineArt,
        Profile::Lettering,
        Profile::ScreenPrint,
        Profile::GradientIllustration,
        Profile::PixelArt,
        Profile::Poster,
    ];
    let mut i: usize = 0;
    while i < 11
        invariant
            i <= 11,
            all@.len() == 11,
            all@ == seq![
                Profile::Logo,
                Profile::FlatIllustration,
                Profile::VinylCut,
                Profile::Laser,
                Profile::ColoringBook,
                Profile::LineArt,
                Profile::Lettering,
                Profile::ScreenPrint,
                Profile::GradientIllustration,
                Profile::PixelArt,
                Profile::Poster,
            ],
            forall|k: int| 0 <= k < i ==> (#[trigger] all@[k]).name()@ != name@,
        decreases 11 - i,
    {
        if same_text(all[i].as_str(), name) {
            return Some(all[i]);
        }
        i += 1;
    }
    proof {
        assert forall|p: Profile| p.name()@ != name@ by {
            match p {
                Profile::Logo => assert(all@[0] == p),
                Profile::FlatIllustration => assert(all@[1] == p),
                Profile::VinylCut => assert(all@[2] == p),
                Profile::Laser => assert(all@[3] == p),
                Profile::ColoringBook => assert(all@[4] == p),
                Profile::LineArt => assert(all@[5] == p),
                Profile::Lettering => assert(all@[6] == p),
                Profile::ScreenPrint => assert(all@[7] == p),
                Profile::GradientIllustration => assert(all@[8] == p),
                Profile::PixelArt => assert(all@[9] == p),
                Profile::Poster => assert(all@[10] == p),
            }
        }
    }
    None
}

fn read_value(flag: &str, value: &String, next: usize) -> (r: Result<(Arg, usize), TraceError>)
    requires
        value_flag(flag@),
    ensures
        reads_value(flag@, value@, next as int, r),
{
    if same_text(flag, "--config") {
        Ok((Arg::Config(value.clone()), next))
    } else if same_text(flag, "--profile") {
        match profile_named(value.as_str()) {
            Some(p) => Ok((Arg::Profile(p), next)),
            None => Err(TraceError::Config(ConfigError::UnknownValue { field: "profile", got: value.clone() })),
        }
    } else if same_text(flag, "--palette") {
        let colors = palette_colors(value.as_str());
        if colors.len() == 0 {
            Err(TraceError::Config(ConfigError::Palette { reason: "`--palette` was given no colours" }))
        } else {
            Ok((Arg::Palette(colors), next))
        }
    } else if same_text(flag, "--max-colors") {
        let b = value.as_str().as_bytes();
        proof {
            assert(b@.subrange(0, b@.len() as int) =~= b@);
        }
        match parse_range(b, 0, b.len()) {
            Some(m) => if m <= 4294967295 {
                Ok((Arg::MaxColors(m as u32), next))
            } else {
                Err(out_of_range("palette.maxColors", value.as_str()))
            },
            None => Err(out_of_range("palette.maxColors", value.as_str())),
        }
    } else if same_text(flag, "--background") {
        if same_text(value.as_str(), "keep") {
            Ok((Arg::Background(BackgroundPolicy::Keep), next))
        } else if same_text(value.as_str(), "transparent") {
            Ok((Arg::Background(BackgroundPolicy::Transparent), next))
        } else if same_text(value.as_str(), "auto") {
            Ok((Arg::Background(BackgroundPolicy::Auto), next))
        } else {
            Err(TraceError::Config(ConfigError::UnknownValue { field: "color.background", got: value.clone() }))
        }
    } else if same_text(flag, "--curve-tolerance") {
        Ok((Arg::CurveTolerance(value.clone()), next))
    } else {
        Ok((Arg::Report(value.clone()), next))
    }
}

/// Read the argument at `index`: what it means and where the next argument
/// starts. A flag that takes a value reads the argument after it; a flag at
/// the end without its value is refused, as is an unknown flag.
pub fn read_arg(args: &[String], index: usize) -> (r: Result<(Arg, usize), TraceError>)
    requires
        index < args@.len(),
    ensures
        reads_as(args@, index as int, r),
{
    let arg = args[index].as_str();
    let takes = same_text(arg, "--config") || same_text(arg, "--profile") || same_text(arg, "--palette")
        || same_text(arg, "--max-colors") || same_text(arg, "--background") || same_text(
        arg,
        "--curve-tolerance",
    ) || same_text(arg, "--report");
    if takes {
        if index + 1 >= args.len() {
            return Err(missing_value(args[index].clone()));
        }
        return read_value(arg, &args[index + 1], index + 2);
    }
    if same_text(arg, "--print-effective-config") {
        return Ok((Arg::PrintEffectiveConfig, index + 1));
    }
    if same_text(arg, "--pretty") {
        return Ok((Arg::Pretty, index + 1));
    }
    if same_text(arg, "--exact-palette") {
        return Ok((Arg::ExactPalette, index + 1));
    }
    let cs = chars_of(arg);
    if cs.len() >= 2 && cs[0] == '-' && cs[1] == '-' {
        Err(TraceError::Config(ConfigError::UnknownValue { field: "option", got: args[index].clone() }))
    } else {
        Ok((Arg::Positional(args[index].clone()), index + 1))
    }
}

/// Whether the SVG and the report would both go to standard output, which is
/// `-`: two machine-readable artefacts cannot share one stream.
pub open spec fn both_to_stdout(output: &str, report: Option<&str>) -> bool {
    output@ == "-"@ && (report matches Some(t) && t@ == "-"@)
}

/// Refuse an SVG and a report that would both go to standard output.
pub fn check_outputs(output: &str, report: Option<&str>) -> (r: Result<(), TraceError>)
    ensures
        !both_to_stdout(output, report) ==> r is Ok,
        both_to_stdout(output, report) ==> (r matches Err(
            TraceError::Config(ConfigError::UnknownValue { field, got }),
        ) && field == "report"
            && got@ == "the SVG and the report cannot both go to stdout; send one of them to a file"@),
{
    let clash = match report {
        Some(t) => same_text(output, "-") && same_text(t, "-"),
        None => false,
    };
    if clash {
        Err(
            TraceError::Config(
                ConfigError::UnknownValue {
                    field: "report",
                    got: "the SVG and the report cannot both go to stdout; send one of them to a file".to_owned(),
                },
            ),
        )
    } else {
        Ok(())
    }
}

/// `--background` takes the name of a policy and nothing else: `keep` names
/// keeping the background, `transparent` removing it, `auto` choosing from the
/// image, and no two of these names read as the same policy.
pub proof fn law_background_names_read_as_their_policy(v: Seq<char>)
    ensures
        background_named("keep"@) == Some(BackgroundPolicy::Keep),
        background_named("transparent"@) == Some(BackgroundPolicy::Transparent),
        background_named("auto"@) == Some(BackgroundPolicy::Auto),
        background_named(v) == Some(BackgroundPolicy::Keep) <==> v == "keep"@,
        background_named(v) == Some(BackgroundPolicy::Transparent) <==> v == "transparent"@,
        background_named(v) == Some(BackgroundPolicy::Auto) <==> v == "auto"@,
        background_named(v) is None <==> (v != "keep"@ && v != "transparent"@ && v != "auto"@),
{
    reveal_strlit("keep");
    reveal_strlit("transparent");
    reveal_strlit("auto");
    assert("keep"@ != "transparent"@ && "keep"@ != "auto"@ && "transparent"@ != "auto"@) by {
        assert("keep"@.len() != "transparent"@.len());
        assert("keep"@[0] != "auto"@[0]);
        assert("transparent"@.len() != "auto"@.len());
    }
}

/// `--background v` reads as the policy named `v`, and a value that names
/// none is refused as an unknown value of `color.background`.
pub proof fn law_background_flag_reads_the_named_policy(v: Seq<char>, n: int, r: Result<(Arg, usize), TraceError>)
    requires
        reads_value("--background"@, v, n, r),
    ensures
        v == "keep"@ ==> r == Ok::<(Arg, usize), TraceError>((Arg::Background(BackgroundPolicy::Keep), n as usize)),
        v == "transparent"@ ==> r == Ok::<(Arg, usize), TraceError>((Arg::Background(BackgroundPolicy::Transparent), n as usize)),
        v == "auto"@ ==> r == Ok::<(Arg, usize), TraceError>((Arg::Background(BackgroundPolicy::Auto), n as usize)),
        r matches Ok((Arg::Background(b), _)) ==> background_named(v) == Some(b),
        (v != "keep"@ && v != "transparent"@ && v != "auto"@) ==> (r matches Err(
            TraceError::Config(ConfigError::UnknownValue { field, got }),
        ) && field == "color.background" && got@ == v),
{
    reveal_strlit("--background");
    reveal_strlit("--config");
    reveal_strlit("--profile");
    reveal_strlit("--palette");
    reveal_strlit("--max-colors");
    assert("--background"@ != "--config"@) by {
        assert("--background"@[2] != "--config"@[2]);
    }
    assert("--background"@ != "--profile"@) by {
        assert("--background"@[2] != "--profile"@[2]);
    }
    assert("--background"@ != "--palette"@) by {
        assert("--background"@[2] != "--palette"@[2]);
    }
    assert("--background"@ != "--max-colors"@) by {
        assert("--background"@[2] != "--max-colors"@[2]);
    }
    law_background_names_read_as_their_policy(v);
}

} // verus!
