//! Chains in the digest: a closed chain is read from its canonical start.
//!
//! Cyclic face paths rotate to their lexicographically least start vertex
//! while keeping their winding, so two walks of one closed boundary that
//! began at different vertices write the same, and a walk in the other
//! direction does not.

use vstd::prelude::*;
use vstd::string::*;
use crate::digest::{DigestWriter, Step, Token};
use crate::ir::geom::{CurveChain, PathSegment, chain_end, vertex};

verus! {

/// A point as its two quantised coordinates.
pub type QuantPoint = (Option<i64>, Option<i64>);

/// A segment with quantised coordinates; an arc's rotation is quantised as a
/// real value, not as a coordinate.
pub type QuantSegment = PathSegment<QuantPoint, QuantPoint, Option<i64>>;

/// A chain with quantised coordinates.
pub type QuantChain = CurveChain<QuantPoint, QuantPoint, Option<i64>>;

/// `a` sorts before `b`: by first coordinate, then by second.
pub open spec fn key_less(a: (i64, i64), b: (i64, i64)) -> bool {
    a.0 < b.0 || (a.0 == b.0 && a.1 < b.1)
}

/// `s` read cyclically from position `r`.
pub open spec fn rotate<T>(s: Seq<T>, r: int) -> Seq<T> {
    Seq::new(s.len(), |k: int| s[(r + k) % (s.len() as int)])
}

/// The key of a point, when both of its coordinates are finite.
pub open spec fn point_key(p: QuantPoint) -> Option<(i64, i64)> {
    match p {
        (Some(x), Some(y)) => Some((x, y)),
        _ => None,
    }
}

fn point_key_of(p: QuantPoint) -> (k: Option<(i64, i64)>)
    ensures
        k == point_key(p),
{
    match p {
        (Some(x), Some(y)) => Some((x, y)),
        _ => None,
    }
}

/// The keys of a chain's vertices: its start, then each segment's end.
pub open spec fn chain_keys(start: QuantPoint, segments: Seq<QuantSegment>) -> Seq<Option<(i64, i64)>> {
    Seq::new(segments.len() + 1, |i: int| point_key(vertex(start, segments, i)))
}

/// A chain is closed when its last vertex has the key of its first.
pub open spec fn is_closed(keys: Seq<Option<(i64, i64)>>) -> bool {
    keys.last() is Some && keys.last() == keys[0]
}

/// `i` is the first position, among the first `n`, of the least finite key.
pub open spec fn least_at(keys: Seq<Option<(i64, i64)>>, n: int, i: int) -> bool {
    &&& 0 <= i < n
    &&& keys[i] is Some
    &&& forall|j: int|
        0 <= j < n && (#[trigger] keys[j]) is Some ==> !key_less(keys[j]->0, keys[i]->0)
    &&& forall|j: int|
        0 <= j < i && (#[trigger] keys[j]) is Some ==> key_less(keys[i]->0, keys[j]->0)
}

/// The first position of the least finite key among the first `n`.
pub open spec fn least_start(keys: Seq<Option<(i64, i64)>>, n: int) -> int {
    choose|i: int| least_at(keys, n, i)
}

proof fn lemma_least_at_unique(keys: Seq<Option<(i64, i64)>>, n: int, i: int, j: int)
    requires
        least_at(keys, n, i),
        least_at(keys, n, j),
    ensures
        i == j,
{
    if i < j {
        assert(key_less(keys[j]->0, keys[i]->0));
    } else if j < i {
        assert(key_less(keys[i]->0, keys[j]->0));
    }
}

/// Where the digest starts reading a chain: a closed chain with segments is
/// read from the first of its least vertices, keeping its direction; any
/// other chain from its start.
pub open spec fn start_of(start: QuantPoint, segments: Seq<QuantSegment>) -> int {
    let keys = chain_keys(start, segments);
    if is_closed(keys) && segments.len() > 0 {
        least_start(keys, segments.len() as int)
    } else {
        0
    }
}

/// The order in which the digest reads a chain's segments.
pub open spec fn read_order(start: QuantPoint, segments: Seq<QuantSegment>) -> Seq<QuantSegment> {
    if is_closed(chain_keys(start, segments)) {
        rotate(segments, start_of(start, segments))
    } else {
        segments
    }
}

/// Whether the chain is closed, and where its reading starts.
fn chain_start(chain: &QuantChain) -> (r: (bool, usize))
    ensures
        r.0 == is_closed(chain_keys(chain.start, chain.segments@)),
        r.1 == start_of(chain.start, chain.segments@),
        r.1 == 0 || r.1 < chain.segments@.len(),
{
    let ghost keys = chain_keys(chain.start, chain.segments@);
    let n = chain.segments.len();
    let first = point_key_of(chain.start);
    let last = if n == 0 {
        first
    } else {
        point_key_of(chain.segments[n - 1].end())
    };
    assert(keys[0] == first);
    assert(keys.last() == last);
    let closed = match (last, first) {
        (Some(a), Some(b)) => a.0 == b.0 && a.1 == b.1,
        _ => false,
    };
    if !closed || n == 0 {
        return (closed, 0);
    }
    let mut best: usize = 0;
    let mut best_key: (i64, i64) = match first {
        Some(k) => k,
        None => (0, 0),
    };
    let mut i: usize = 1;
    while i < n
        invariant
            n == chain.segments@.len(),
            keys == chain_keys(chain.start, chain.segments@),
            1 <= i <= n,
            best < i,
            keys[best as int] == Some(best_key),
            least_at(keys, i as int, best as int),
        decreases n - i,
    {
        let key = point_key_of(chain.segments[i - 1].end());
        assert(keys[i as int] == key);
        match key {
            Some(k) => {
                if k.0 < best_key.0 || (k.0 == best_key.0 && k.1 < best_key.1) {
                    best = i;
                    best_key = k;
                }
            },
            None => {},
        }
        i = i + 1;
    }
    proof {
        lemma_least_at_unique(keys, n as int, best as int, least_start(keys, n as int));
    }
    (true, best)
}

/// The writes for one segment: its kind, then its numbers.
pub open spec fn segment_steps(s: QuantSegment) -> Seq<Step> {
    match s {
        PathSegment::Line { to } => seq![
            Step::Put(Token::Tag("L".spec_bytes())),
            Step::Coord(to.0),
            Step::Coord(to.1),
        ],
        PathSegment::Cubic { c1, c2, to } => seq![
            Step::Put(Token::Tag("C".spec_bytes())),
            Step::Coord(c1.0),
            Step::Coord(c1.1),
            Step::Coord(c2.0),
            Step::Coord(c2.1),
            Step::Coord(to.0),
            Step::Coord(to.1),
        ],
        PathSegment::Arc { radii, rotation, large, sweep, to } => seq![
            Step::Put(Token::Tag("A".spec_bytes())),
            Step::Coord(radii.0),
            Step::Coord(radii.1),
            Step::Scalar(rotation),
            Step::Put(Token::Bool(large)),
            Step::Put(Token::Bool(sweep)),
            Step::Coord(to.0),
            Step::Coord(to.1),
        ],
    }
}

/// The writes for segments in the order given.
pub open spec fn segments_steps(segments: Seq<QuantSegment>) -> Seq<Step>
    decreases segments.len(),
{
    if segments.len() == 0 {
        Seq::empty()
    } else {
        segments_steps(segments.drop_last()) + segment_steps(segments.last())
    }
}

/// The writes for a chain: whether it is closed, how many segments it has,
/// the vertex its reading starts from, then its segments in reading order.
pub open spec fn chain_steps_of(start: QuantPoint, segments: Seq<QuantSegment>) -> Seq<Step> {
    let first = vertex(start, segments, start_of(start, segments));
    seq![
        Step::Put(Token::Tag("chain".spec_bytes())),
        Step::Put(Token::Bool(is_closed(chain_keys(start, segments)))),
        Step::Put(Token::U64(segments.len() as u64)),
        Step::Coord(first.0),
        Step::Coord(first.1),
    ] + segments_steps(read_order(start, segments))
}

/// The writes for a chain.
pub open spec fn chain_steps(c: QuantChain) -> Seq<Step> {
    chain_steps_of(c.start, c.segments@)
}

fn write_segment(w: &mut DigestWriter, segment: &QuantSegment)
    requires
        old(w).wf(),
    ensures
        final(w).wf(),
        final(w)@ == old(w)@ + segment_steps(*segment),
{
    match segment {
        PathSegment::Line { to } => {
            w.tag("L");
            w.put_coord(to.0);
            w.put_coord(to.1);
        },
        PathSegment::Cubic { c1, c2, to } => {
            w.tag("C");
            w.put_coord(c1.0);
            w.put_coord(c1.1);
            w.put_coord(c2.0);
            w.put_coord(c2.1);
            w.put_coord(to.0);
            w.put_coord(to.1);
        },
        PathSegment::Arc { radii, rotation, large, sweep, to } => {
            w.tag("A");
            w.put_coord(radii.0);
            w.put_coord(radii.1);
            w.put_scalar(*rotation);
            w.bool(*large);
            w.bool(*sweep);
            w.put_coord(to.0);
            w.put_coord(to.1);
        },
    }
    assert(w@ =~= old(w)@ + segment_steps(*segment));
}

/// Write a chain, a closed one from its canonical start.
///
/// Two walks of one closed boundary that began at different vertices are
/// read from the same vertex, in the same direction, so they write the same;
/// a walk in the other direction writes its segments in the other order.
pub fn write_chain(w: &mut DigestWriter, chain: &QuantChain)
    requires
        old(w).wf(),
    ensures
        final(w).wf(),
        final(w)@ == old(w)@ + chain_steps(*chain),
{
    let (closed, rotation) = chain_start(chain);
    let n = chain.segments.len();
    w.tag("chain");
    w.bool(closed);
    w.u64(n as u64);
    let first = if rotation == 0 {
        chain.start
    } else {
        chain.segments[rotation - 1].end()
    };
    w.put_coord(first.0);
    w.put_coord(first.1);
    let ghost base = w@;
    let ghost order = read_order(chain.start, chain.segments@);
    proof {
        assert(base =~= old(w)@ + chain_steps(*chain).take(5));
        assert(order.len() == n);
    }
    let mut k: usize = 0;
    while k < n
        invariant
            n == chain.segments@.len(),
            closed == is_closed(chain_keys(chain.start, chain.segments@)),
            rotation == start_of(chain.start, chain.segments@),
            rotation == 0 || rotation < n,
            order == read_order(chain.start, chain.segments@),
            order.len() == n,
            k <= n,
            w.wf(),
            w@ == base + segments_steps(order.take(k as int)),
        decreases n - k,
    {
        let i = if closed {
            if k < n - rotation {
                rotation + k
            } else {
                k - (n - rotation)
            }
        } else {
            k
        };
        proof {
            if closed {
                let x = rotation + k;
                if k < n - rotation {
                    vstd::arithmetic::div_mod::lemma_small_mod(x as nat, n as nat);
                } else {
                    vstd::arithmetic::div_mod::lemma_mod_add_multiples_vanish(x - n, n as int);
                    vstd::arithmetic::div_mod::lemma_small_mod((x - n) as nat, n as nat);
                }
                assert(order[k as int] == chain.segments@[(rotation + k) % (n as int)]);
            }
            assert(order[k as int] == chain.segments@[i as int]);
            assert(order.take(k + 1).drop_last() =~= order.take(k as int));
        }
        write_segment(w, &chain.segments[i]);
        k = k + 1;
    }
    proof {
        assert(order.take(n as int) =~= order);
        assert(w@ =~= old(w)@ + chain_steps(*chain));
    }
}


proof fn lemma_least_exists(keys: Seq<Option<(i64, i64)>>, n: int)
    requires
        1 <= n <= keys.len(),
        keys[0] is Some,
    ensures
        least_at(keys, n, least_start(keys, n)),
    decreases n,
{
    if n == 1 {
        assert(least_at(keys, 1, 0));
    } else {
        lemma_least_exists(keys, n - 1);
        let i = least_start(keys, n - 1);
        if keys[n - 1] is Some && key_less(keys[n - 1]->0, keys[i]->0) {
            assert(least_at(keys, n, n - 1)) by {
                assert forall|j: int|
                    0 <= j < n && (#[trigger] keys[j]) is Some implies !key_less(
                    keys[j]->0,
                    keys[n - 1]->0,
                ) by {
                    if j < n - 1 {
                        assert(!key_less(keys[j]->0, keys[i]->0));
                    }
                }
                assert forall|j: int|
                    0 <= j < n - 1 && (#[trigger] keys[j]) is Some implies key_less(
                    keys[n - 1]->0,
                    keys[j]->0,
                ) by {
                    assert(!key_less(keys[j]->0, keys[i]->0));
                }
            }
        } else {
            assert(least_at(keys, n, i));
        }
    }
}

proof fn lemma_keys_fix_points(p: QuantPoint, q: QuantPoint)
    requires
        point_key(p) is Some,
        point_key(p) == point_key(q),
    ensures
        p == q,
{
}

/// `(k + t) % n` for `0 <= k < n` and `0 <= t <= n`, written out.
proof fn lemma_shift_mod(k: int, t: int, n: int)
    requires
        0 <= k < n,
        0 <= t <= n,
    ensures
        0 <= (k + t) % n < n,
        k + t < n ==> (k + t) % n == k + t,
        k + t >= n ==> (k + t) % n == k + t - n,
{
    if k + t < n {
        vstd::arithmetic::div_mod::lemma_small_mod((k + t) as nat, n as nat);
    } else {
        vstd::arithmetic::div_mod::lemma_mod_add_multiples_vanish(k + t - n, n);
        vstd::arithmetic::div_mod::lemma_small_mod((k + t - n) as nat, n as nat);
    }
}

proof fn lemma_rotated_vertex(start: QuantPoint, segments: Seq<QuantSegment>, k: int, t: int)
    requires
        0 <= k < segments.len(),
        0 <= t <= segments.len(),
        chain_end(start, segments) == start,
    ensures
        vertex(vertex(start, segments, k), rotate(segments, k), t) == vertex(
            start,
            segments,
            (k + t) % (segments.len() as int),
        ),
{
    let n = segments.len() as int;
    lemma_shift_mod(k, t, n);
    if t > 0 {
        lemma_shift_mod(k, t - 1, n);
        assert(rotate(segments, k)[t - 1] == segments[(k + t - 1) % n]);
    }
}

proof fn lemma_rotate_twice<T>(s: Seq<T>, k: int, j: int)
    requires
        0 <= k < s.len(),
        0 <= j < s.len(),
    ensures
        rotate(rotate(s, k), j) == rotate(s, (k + j) % (s.len() as int)),
{
    let n = s.len() as int;
    lemma_shift_mod(k, j, n);
    assert forall|t: int| 0 <= t < n implies #[trigger] rotate(rotate(s, k), j)[t] == rotate(
        s,
        (k + j) % n,
    )[t] by {
        lemma_shift_mod(j, t, n);
        lemma_shift_mod(k, (j + t) % n, n);
        lemma_shift_mod((k + j) % n, t, n);
        vstd::arithmetic::div_mod::lemma_add_mod_noop_right(k, j + t, n);
        vstd::arithmetic::div_mod::lemma_add_mod_noop(k + j, t, n);
        vstd::arithmetic::div_mod::lemma_small_mod(t as nat, n as nat);
        assert((k + (j + t) % n) % n == ((k + j) % n + t) % n);
    }
    assert(rotate(rotate(s, k), j) =~= rotate(s, (k + j) % n));
}

/// Walking a closed boundary from another of its vertices does not change
/// what the digest writes: when a closed chain's vertices are finite and
/// distinct, the same chain walked in the same direction from its `k`-th
/// vertex writes exactly what the chain writes.
pub proof fn law_a_rotated_closed_chain_writes_the_same(
    start: QuantPoint,
    segments: Seq<QuantSegment>,
    k: int,
)
    requires
        0 <= k < segments.len(),
        point_key(chain_end(start, segments)) == point_key(start),
        forall|i: int|
            0 <= i <= segments.len() ==> (#[trigger] point_key(vertex(start, segments, i))) is Some,
        forall|a: int, b: int|
            0 <= a < b < segments.len() ==> point_key(vertex(start, segments, a)) != point_key(
                vertex(start, segments, b),
            ),
    ensures
        chain_steps_of(vertex(start, segments, k), rotate(segments, k)) == chain_steps_of(
            start,
            segments,
        ),
{
    let n = segments.len() as int;
    let keys = chain_keys(start, segments);
    let s2 = vertex(start, segments, k);
    let g2 = rotate(segments, k);
    let keys2 = chain_keys(s2, g2);
    assert(point_key(vertex(start, segments, 0)) is Some);
    lemma_keys_fix_points(start, chain_end(start, segments));
    assert forall|t: int| 0 <= t <= n implies #[trigger] keys2[t] == keys[(k + t) % n] by {
        lemma_rotated_vertex(start, segments, k, t);
        lemma_shift_mod(k, t, n);
    }
    lemma_shift_mod(k, 0, n);
    lemma_shift_mod(k, n, n);
    assert(keys2[0] == keys[k]);
    assert(keys2[n] == keys[k]);
    assert(keys[k] is Some);
    assert(is_closed(keys2));
    assert(is_closed(keys));
    lemma_least_exists(keys, n);
    lemma_least_exists(keys2, n);
    let i = least_start(keys, n);
    let j = least_start(keys2, n);
    let m = (k + j) % n;
    lemma_shift_mod(k, j, n);
    assert(keys2[j] == keys[m]);
    assert forall|x: int| 0 <= x < n && (#[trigger] keys[x]) is Some implies !key_less(
        keys[x]->0,
        keys[m]->0,
    ) by {
        let t = if x >= k { x - k } else { x - k + n };
        lemma_shift_mod(k, t, n);
        assert(keys2[t] == keys[x]);
        assert(!key_less(keys2[t]->0, keys2[j]->0));
    }
    assert forall|x: int| 0 <= x < m && (#[trigger] keys[x]) is Some implies key_less(
        keys[m]->0,
        keys[x]->0,
    ) by {
        assert(keys[x] != keys[m]);
        assert(!key_less(keys[x]->0, keys[m]->0));
    }
    assert(least_at(keys, n, m));
    lemma_least_at_unique(keys, n, i, m);
    lemma_rotated_vertex(start, segments, k, j);
    lemma_rotate_twice(segments, k, j);
    assert(start_of(s2, g2) == j);
    assert(start_of(start, segments) == i);
    assert(read_order(s2, g2) == read_order(start, segments));
    assert(chain_steps_of(s2, g2) =~= chain_steps_of(start, segments));
}

/// The step three from the end of a segment's writes tells its kind: a
/// line's tag, an arc's sweep flag, or a cubic's coordinate.
proof fn lemma_segment_steps_shape(s: QuantSegment)
    ensures
        segment_steps(s).len() >= 3,
        ({
            let t = segment_steps(s);
            match s {
                PathSegment::Line { .. } => t.len() == 3 && t[t.len() - 3] matches Step::Put(
                    Token::Tag(_),
                ),
                PathSegment::Cubic { .. } => t.len() == 7 && t[t.len() - 3] is Coord,
                PathSegment::Arc { .. } => t.len() == 8 && t[t.len() - 3] matches Step::Put(
                    Token::Bool(_),
                ),
            }
        }),
{
}

/// Nothing of a segment is lost in what the digest writes for it: two
/// segments that write the same steps are the same segment, so every
/// coordinate of a line, of both control points and the end of a cubic, and
/// of an arc reaches the digest, each in its own place.
pub proof fn law_segment_writes_are_faithful(s: QuantSegment, t: QuantSegment)
    requires
        segment_steps(s) == segment_steps(t),
    ensures
        s == t,
{
    lemma_segment_steps_shape(s);
    lemma_segment_steps_shape(t);
    let a = segment_steps(s);
    let b = segment_steps(t);
    assert(a.len() == b.len());
    match s {
        PathSegment::Line { to } => {
            assert(a[1] == b[1] && a[2] == b[2]);
        },
        PathSegment::Cubic { c1, c2, to } => {
            assert(a[1] == b[1] && a[2] == b[2] && a[3] == b[3] && a[4] == b[4]);
            assert(a[5] == b[5] && a[6] == b[6]);
        },
        PathSegment::Arc { radii, rotation, large, sweep, to } => {
            assert(a[1] == b[1] && a[2] == b[2] && a[3] == b[3] && a[4] == b[4]);
            assert(a[5] == b[5] && a[6] == b[6] && a[7] == b[7]);
        },
    }
}

/// Segments in order write steps from which they can be read back: two
/// sequences of segments that write the same steps are the same sequence.
pub proof fn law_segments_writes_are_faithful(a: Seq<QuantSegment>, b: Seq<QuantSegment>)
    requires
        segments_steps(a) == segments_steps(b),
    ensures
        a == b,
    decreases a.len(),
{
    if a.len() == 0 {
        if b.len() > 0 {
            lemma_segment_steps_shape(b.last());
            assert(segments_steps(b) == segments_steps(b.drop_last()) + segment_steps(b.last()));
            assert(segments_steps(a).len() == 0);
        }
        assert(b.len() == 0);
        assert(a =~= b);
    } else {
        lemma_segment_steps_shape(a.last());
        assert(segments_steps(a) == segments_steps(a.drop_last()) + segment_steps(a.last()));
        assert(b.len() > 0);
        lemma_segment_steps_shape(b.last());
        let whole = segments_steps(a);
        let pa = segments_steps(a.drop_last());
        let pb = segments_steps(b.drop_last());
        let sa = segment_steps(a.last());
        let sb = segment_steps(b.last());
        let n = whole.len();
        assert(whole == pa + sa);
        assert(whole == pb + sb);
        assert(whole[n - 3] == sa[sa.len() - 3]);
        assert(whole[n - 3] == sb[sb.len() - 3]);
        assert(sa.len() == sb.len());
        assert(sa =~= whole.subrange(n - sa.len(), n as int));
        assert(sb =~= whole.subrange(n - sb.len(), n as int));
        assert(pa =~= whole.subrange(0, n - sa.len()));
        assert(pb =~= whole.subrange(0, n - sb.len()));
        law_segment_writes_are_faithful(a.last(), b.last());
        law_segments_writes_are_faithful(a.drop_last(), b.drop_last());
        assert(a =~= a.drop_last().push(a.last()));
        assert(b =~= b.drop_last().push(b.last()));
    }
}

/// Two chains that write the same steps agree on all the digest reads of
/// them: whether they are closed, how many segments they have, the vertex
/// their reading starts from, and every segment in reading order.
pub proof fn law_chain_writes_are_faithful(c: QuantChain, d: QuantChain)
    requires
        chain_steps(c) == chain_steps(d),
    ensures
        is_closed(chain_keys(c.start, c.segments@)) == is_closed(chain_keys(d.start, d.segments@)),
        c.segments@.len() == d.segments@.len(),
        vertex(c.start, c.segments@, start_of(c.start, c.segments@)) == vertex(
            d.start,
            d.segments@,
            start_of(d.start, d.segments@),
        ),
        read_order(c.start, c.segments@) == read_order(d.start, d.segments@),
{
    let x = chain_steps(c);
    let y = chain_steps(d);
    let fc = vertex(c.start, c.segments@, start_of(c.start, c.segments@));
    let fd = vertex(d.start, d.segments@, start_of(d.start, d.segments@));
    assert(x[1] == Step::Put(Token::Bool(is_closed(chain_keys(c.start, c.segments@)))));
    assert(y[1] == Step::Put(Token::Bool(is_closed(chain_keys(d.start, d.segments@)))));
    assert(x[3] == Step::Coord(fc.0) && x[4] == Step::Coord(fc.1));
    assert(y[3] == Step::Coord(fd.0) && y[4] == Step::Coord(fd.1));
    assert(segments_steps(read_order(c.start, c.segments@)) =~= x.skip(5));
    assert(segments_steps(read_order(d.start, d.segments@)) =~= y.skip(5));
    law_segments_writes_are_faithful(
        read_order(c.start, c.segments@),
        read_order(d.start, d.segments@),
    );
    assert(read_order(c.start, c.segments@).len() == c.segments@.len());
    assert(read_order(d.start, d.segments@).len() == d.segments@.len());
}

} // verus!
