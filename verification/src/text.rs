//! Byte-level text scanning: ASCII and Unicode white space, digits, and
//! substring tests over UTF-8 bytes.
//!
//! White space is trimmed byte by byte. On well-formed UTF-8 this trims the
//! same characters as Rust's `str::trim_start` and `str::trim_end`: each
//! Unicode white-space character is recognised by its whole encoding, and a
//! continuation byte never starts one.

use vstd::prelude::*;
use vstd::utf8::{decode_utf8, encode_utf8, valid_utf8};
use vstd::string::*;

verus! {

/// ASCII white space as the header grammar uses it.
pub open spec fn is_ascii_space(b: u8) -> bool {
    b == 9 || b == 10 || b == 12 || b == 13 || b == 32
}

/// An ASCII decimal digit.
pub open spec fn is_digit(b: u8) -> bool {
    48 <= b <= 57
}

/// A three-byte Unicode white-space encoding.
pub open spec fn is_space3(a: u8, b: u8, c: u8) -> bool {
    ||| a == 0xE1 && b == 0x9A && c == 0x80
    ||| a == 0xE2 && b == 0x80 && ((0x80 <= c <= 0x8A) || c == 0xA8 || c == 0xA9 || c == 0xAF)
    ||| a == 0xE2 && b == 0x81 && c == 0x9F
    ||| a == 0xE3 && b == 0x80 && c == 0x80
}

/// Bytes of the Unicode white-space character at the front of `s`, or zero.
pub open spec fn space_front(s: Seq<u8>) -> nat {
    if s.len() >= 1 && ((9 <= s[0] <= 13) || s[0] == 32) {
        1
    } else if s.len() >= 2 && s[0] == 0xC2 && (s[1] == 0x85 || s[1] == 0xA0) {
        2
    } else if s.len() >= 3 && is_space3(s[0], s[1], s[2]) {
        3
    } else {
        0
    }
}

/// Bytes of the Unicode white-space character at the back of `s`, or zero.
pub open spec fn space_back(s: Seq<u8>) -> nat {
    let n = s.len() as int;
    if n >= 1 && ((9 <= s[n - 1] <= 13) || s[n - 1] == 32) {
        1
    } else if n >= 2 && s[n - 2] == 0xC2 && (s[n - 1] == 0x85 || s[n - 1] == 0xA0) {
        2
    } else if n >= 3 && is_space3(s[n - 3], s[n - 2], s[n - 1]) {
        3
    } else {
        0
    }
}

/// `s` without leading Unicode white space.
pub open spec fn trim_start(s: Seq<u8>) -> Seq<u8>
    decreases s.len(),
{
    if space_front(s) > 0 {
        trim_start(s.skip(space_front(s) as int))
    } else {
        s
    }
}

/// `s` without trailing Unicode white space.
pub open spec fn trim_end(s: Seq<u8>) -> Seq<u8>
    decreases s.len(),
{
    if space_back(s) > 0 {
        trim_end(s.take(s.len() - space_back(s)))
    } else {
        s
    }
}

/// Calls `core::str::from_utf8`, which accepts exactly the well-formed UTF-8
/// byte strings.
#[verifier::external_body]
pub(crate) fn is_utf8(bytes: &[u8]) -> (b: bool)
    ensures
        b == valid_utf8(bytes@),
{
    core::str::from_utf8(bytes).is_ok()
}

/// Whether `key` occurs in `b` at `i`.
pub(crate) fn bytes_at(b: &[u8], i: usize, key: &[u8]) -> (r: bool)
    requires
        i + key@.len() <= b@.len(),
    ensures
        r == (b@.subrange(i as int, i + key@.len()) == key@),
{
    let n = b.len();
    let mut j: usize = 0;
    while j < key.len()
        invariant
            n == b@.len(),
            i + key@.len() <= b@.len(),
            j <= key@.len(),
            forall|k: int| 0 <= k < j ==> b@[i + k] == key@[k],
        decreases key@.len() - j,
    {
        if b[i + j] != key[j] {
            proof {
                if b@.subrange(i as int, i + key@.len()) == key@ {
                    assert(b@.subrange(i as int, i + key@.len())[j as int] == b@[i + j]);
                }
            }
            return false;
        }
        j += 1;
    }
    proof {
        assert(b@.subrange(i as int, i + key@.len()) =~= key@);
    }
    true
}

pub(crate) fn is_space_byte(c: u8) -> (r: bool)
    ensures
        r == is_ascii_space(c),
{
    c == 9 || c == 10 || c == 12 || c == 13 || c == 32
}

pub(crate) fn is_digit_byte(c: u8) -> (r: bool)
    ensures
        r == is_digit(c),
{
    48 <= c && c <= 57
}

pub(crate) fn is_space3_bytes(a: u8, b: u8, c: u8) -> (r: bool)
    ensures
        r == is_space3(a, b, c),
{
    (a == 0xE1 && b == 0x9A && c == 0x80) || (a == 0xE2 && b == 0x80 && ((0x80 <= c && c <= 0x8A)
        || c == 0xA8 || c == 0xA9 || c == 0xAF)) || (a == 0xE2 && b == 0x81 && c == 0x9F) || (a
        == 0xE3 && b == 0x80 && c == 0x80)
}

/// Bytes of the white-space character that starts `h[lo..hi]`, or zero.
pub(crate) fn space_front_at(h: &[u8], lo: usize, hi: usize) -> (n: usize)
    requires
        lo <= hi <= h@.len(),
    ensures
        n == space_front(h@.subrange(lo as int, hi as int)),
        n <= hi - lo,
{
    let ghost s = h@.subrange(lo as int, hi as int);
    let len = hi - lo;
    if len >= 1 && ((9 <= h[lo] && h[lo] <= 13) || h[lo] == 32) {
        assert(s[0] == h@[lo as int]);
        1
    } else if len >= 2 && h[lo] == 0xC2 && (h[lo + 1] == 0x85 || h[lo + 1] == 0xA0) {
        assert(s[0] == h@[lo as int] && s[1] == h@[lo + 1]);
        2
    } else if len >= 3 && is_space3_bytes(h[lo], h[lo + 1], h[lo + 2]) {
        assert(s[0] == h@[lo as int] && s[1] == h@[lo + 1] && s[2] == h@[lo + 2]);
        3
    } else {
        proof {
            if len >= 1 {
                assert(s[0] == h@[lo as int]);
            }
            if len >= 2 {
                assert(s[1] == h@[lo + 1]);
            }
            if len >= 3 {
                assert(s[2] == h@[lo + 2]);
            }
        }
        0
    }
}

/// Bytes of the white-space character that ends `h[lo..hi]`, or zero.
pub(crate) fn space_back_at(h: &[u8], lo: usize, hi: usize) -> (n: usize)
    requires
        lo <= hi <= h@.len(),
    ensures
        n == space_back(h@.subrange(lo as int, hi as int)),
        n <= hi - lo,
{
    let ghost s = h@.subrange(lo as int, hi as int);
    let len = hi - lo;
    proof {
        if len >= 1 {
            assert(s[len - 1] == h@[hi - 1]);
        }
        if len >= 2 {
            assert(s[len - 2] == h@[hi - 2]);
        }
        if len >= 3 {
            assert(s[len - 3] == h@[hi - 3]);
        }
    }
    if len >= 1 && ((9 <= h[hi - 1] && h[hi - 1] <= 13) || h[hi - 1] == 32) {
        1
    } else if len >= 2 && h[hi - 2] == 0xC2 && (h[hi - 1] == 0x85 || h[hi - 1] == 0xA0) {
        2
    } else if len >= 3 && is_space3_bytes(h[hi - 3], h[hi - 2], h[hi - 1]) {
        3
    } else {
        0
    }
}

/// Where `h[lo..hi]` starts once leading white space is skipped.
pub(crate) fn trim_start_at(h: &[u8], lo: usize, hi: usize) -> (a: usize)
    requires
        lo <= hi <= h@.len(),
    ensures
        lo <= a <= hi,
        h@.subrange(a as int, hi as int) == trim_start(h@.subrange(lo as int, hi as int)),
{
    let mut a = lo;
    loop
        invariant
            lo <= a <= hi <= h@.len(),
            trim_start(h@.subrange(a as int, hi as int)) == trim_start(
                h@.subrange(lo as int, hi as int),
            ),
        ensures
            lo <= a <= hi,
            h@.subrange(a as int, hi as int) == trim_start(h@.subrange(lo as int, hi as int)),
        decreases hi - a,
    {
        let n = space_front_at(h, a, hi);
        if n == 0 {
            break;
        }
        proof {
            assert(h@.subrange(a as int, hi as int).skip(n as int) =~= h@.subrange(
                a + n,
                hi as int,
            ));
        }
        a = a + n;
    }
    a
}

/// Where `h[lo..hi]` ends once trailing white space is dropped.
pub(crate) fn trim_end_at(h: &[u8], lo: usize, hi: usize) -> (z: usize)
    requires
        lo <= hi <= h@.len(),
    ensures
        lo <= z <= hi,
        h@.subrange(lo as int, z as int) == trim_end(h@.subrange(lo as int, hi as int)),
{
    let mut z = hi;
    loop
        invariant
            lo <= z <= hi <= h@.len(),
            trim_end(h@.subrange(lo as int, z as int)) == trim_end(
                h@.subrange(lo as int, hi as int),
            ),
        ensures
            lo <= z <= hi,
            h@.subrange(lo as int, z as int) == trim_end(h@.subrange(lo as int, hi as int)),
        decreases z - lo,
    {
        let n = space_back_at(h, lo, z);
        if n == 0 {
            break;
        }
        proof {
            assert(h@.subrange(lo as int, z as int).take(z - lo - n) =~= h@.subrange(
                lo as int,
                z - n,
            ));
        }
        z = z - n;
    }
    z
}

/// How many bytes of `s` equal `c`.
pub open spec fn occurrences(s: Seq<u8>, c: u8) -> nat
    decreases s.len(),
{
    if s.len() == 0 {
        0
    } else {
        occurrences(s.drop_last(), c) + if s.last() == c { 1nat } else { 0nat }
    }
}

/// How many bytes of `b` equal `c`.
pub(crate) fn count_byte(b: &[u8], c: u8) -> (n: usize)
    ensures
        n == occurrences(b@, c),
{
    let mut n: usize = 0;
    let mut i: usize = 0;
    while i < b.len()
        invariant
            i <= b@.len(),
            n == occurrences(b@.take(i as int), c),
            n <= i,
        decreases b@.len() - i,
    {
        proof {
            assert(b@.take(i + 1).drop_last() =~= b@.take(i as int));
        }
        if b[i] == c {
            n = n + 1;
        }
        i = i + 1;
    }
    proof {
        assert(b@.take(b@.len() as int) =~= b@);
    }
    n
}

/// `key` occurs somewhere in `s`.
pub open spec fn contains_bytes(s: Seq<u8>, key: Seq<u8>) -> bool {
    exists|i: int| 0 <= i && i + key.len() <= s.len() && #[trigger] s.subrange(i, i + key.len()) == key
}

/// Whether `key` occurs somewhere in `b`.
pub(crate) fn find_bytes(b: &[u8], key: &[u8]) -> (r: bool)
    ensures
        r == contains_bytes(b@, key@),
{
    let n = b.len();
    let m = key.len();
    if m > n {
        return false;
    }
    let mut i: usize = 0;
    loop
        invariant
            n == b@.len(),
            m == key@.len(),
            m <= n,
            i <= n - m,
            forall|j: int| 0 <= j < i ==> #[trigger] b@.subrange(j, j + m) != key@,
        decreases n - m - i,
    {
        if bytes_at(b, i, key) {
            return true;
        }
        if i == n - m {
            return false;
        }
        i = i + 1;
    }
}

/// The characters of `s`, in order.
pub(crate) fn chars_of(s: &str) -> (v: Vec<char>)
    ensures
        v@ == s@,
{
    broadcast use vstd::string::axiom_spec_iter;

    let mut v: Vec<char> = Vec::new();
    for c in it: s.chars()
        invariant
            v@ == it.seq().take(it.index() as int),
    {
        v.push(c);
    }
    proof {
        assert(v@ =~= s@);
    }
    v
}

/// Whether `a` and `b` are the same text.
pub(crate) fn same_text(a: &str, b: &str) -> (r: bool)
    ensures
        r == (a@ == b@),
{
    broadcast use vstd::utf8::encode_utf8_decode_utf8;

    let x = a.as_bytes();
    let y = b.as_bytes();
    if x.len() != y.len() {
        proof {
            if a@ == b@ {
                assert(x@ == y@);
            }
        }
        return false;
    }
    let mut i: usize = 0;
    while i < x.len()
        invariant
            x@ == a.spec_bytes(),
            y@ == b.spec_bytes(),
            x@.len() == y@.len(),
            i <= x@.len(),
            forall|k: int| 0 <= k < i ==> x@[k] == y@[k],
        decreases x@.len() - i,
    {
        if x[i] != y[i] {
            proof {
                if a@ == b@ {
                    assert(x@ == y@);
                }
            }
            return false;
        }
        i += 1;
    }
    proof {
        assert(x@ =~= y@);
        assert(decode_utf8(encode_utf8(a@)) == a@);
        assert(decode_utf8(encode_utf8(b@)) == b@);
    }
    true
}

} // verus!
