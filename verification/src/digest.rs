//! The semantic digest's canonical stream.
//!
//! The stream is a sequence of tagged, length-prefixed tokens, so two
//! different token sequences never produce the same bytes; the digest is the
//! BLAKE3 hash of those bytes, rendered as `pte-semantic-v1-blake3:<hex>`.
//! It is a reproducibility tool, not a security signature.
//!
//! A real value enters the stream as its quantised key; one that was NaN or
//! infinite is refused, and the first refusal is the digest's error.
//! [`chain`] reads closed chains from their canonical start, and
//! [`document`] writes a whole document.

pub mod chain;
pub mod document;

use vstd::prelude::*;
use vstd::string::*;
use crate::render::{hex_bytes, hex_byte, is_lower_hex, lemma_hex_bytes_shape, push_hex_byte};
use crate::error::NumericalError;

verus! {

/// Digest schema version, the first number in every stream.
pub const DIGEST_SCHEMA_VERSION: u32 = 1;

/// Prefix identifying the algorithm and canonical schema.
pub const DIGEST_PREFIX: &'static str = "pte-semantic-v1-blake3";

/// One token of the canonical stream.
pub enum Token {
    /// A structural tag.
    Tag(Seq<u8>),
    /// An unsigned integer.
    U64(u64),
    /// A signed integer.
    I64(i64),
    /// A string, as its UTF-8 bytes.
    Str(Seq<u8>),
    /// A boolean.
    Bool(bool),
}

/// The eight little-endian bytes of `v`.
pub open spec fn le_u64(v: u64) -> Seq<u8> {
    seq![
        v as u8,
        (v >> 8u64) as u8,
        (v >> 16u64) as u8,
        (v >> 24u64) as u8,
        (v >> 32u64) as u8,
        (v >> 40u64) as u8,
        (v >> 48u64) as u8,
        (v >> 56u64) as u8,
    ]
}

/// The value of eight little-endian bytes.
pub open spec fn from_le_u64(b: Seq<u8>) -> u64 {
    (b[0] as u64) | ((b[1] as u64) << 8u64) | ((b[2] as u64) << 16u64) | ((b[3] as u64) << 24u64)
        | ((b[4] as u64) << 32u64) | ((b[5] as u64) << 40u64) | ((b[6] as u64) << 48u64) | ((
    b[7] as u64) << 56u64)
}

/// The bytes one token contributes to the stream.
pub open spec fn encode(t: Token) -> Seq<u8> {
    match t {
        Token::Tag(b) => seq![1u8] + le_u64(b.len() as u64) + b,
        Token::U64(v) => seq![2u8] + le_u64(v),
        Token::I64(v) => seq![3u8] + le_u64(v as u64),
        Token::Str(b) => seq![4u8] + le_u64(b.len() as u64) + b,
        Token::Bool(v) => seq![5u8, if v { 1u8 } else { 0u8 }],
    }
}

/// The bytes of a whole token sequence, in order.
pub open spec fn encode_all(ts: Seq<Token>) -> Seq<u8>
    decreases ts.len(),
{
    if ts.len() == 0 {
        Seq::empty()
    } else {
        encode_all(ts.drop_last()) + encode(ts.last())
    }
}

/// Every byte sequence inside a token fits a 64-bit length.
pub open spec fn well_sized(t: Token) -> bool {
    match t {
        Token::Tag(b) => b.len() <= u64::MAX,
        Token::Str(b) => b.len() <= u64::MAX,
        _ => true,
    }
}

/// Read one token from the front of `s`, with the number of bytes it used.
pub open spec fn decode_one(s: Seq<u8>) -> Option<(Token, int)> {
    if s.len() >= 9 && (s[0] == 1u8 || s[0] == 4u8) {
        let n = from_le_u64(s.subrange(1, 9)) as int;
        if 9 + n <= s.len() {
            let body = s.subrange(9, 9 + n);
            Some((if s[0] == 1u8 { Token::Tag(body) } else { Token::Str(body) }, 9 + n))
        } else {
            None
        }
    } else if s.len() >= 9 && s[0] == 2u8 {
        Some((Token::U64(from_le_u64(s.subrange(1, 9))), 9))
    } else if s.len() >= 9 && s[0] == 3u8 {
        Some((Token::I64(from_le_u64(s.subrange(1, 9)) as i64), 9))
    } else if s.len() >= 2 && s[0] == 5u8 && (s[1] == 0u8 || s[1] == 1u8) {
        Some((Token::Bool(s[1] == 1u8), 2))
    } else {
        None
    }
}

/// Read a whole stream back into tokens.
pub open spec fn decode_all(s: Seq<u8>) -> Option<Seq<Token>>
    decreases s.len(),
{
    if s.len() == 0 {
        Some(Seq::empty())
    } else {
        match decode_one(s) {
            Some((t, k)) => if 0 < k <= s.len() {
                match decode_all(s.skip(k)) {
                    Some(rest) => Some(seq![t] + rest),
                    None => None,
                }
            } else {
                None
            },
            None => None,
        }
    }
}

proof fn lemma_le_round_trip(v: u64)
    ensures
        from_le_u64(le_u64(v)) == v,
{
    let b = le_u64(v);
    let b0 = v as u8;
    let b1 = (v >> 8u64) as u8;
    let b2 = (v >> 16u64) as u8;
    let b3 = (v >> 24u64) as u8;
    let b4 = (v >> 32u64) as u8;
    let b5 = (v >> 40u64) as u8;
    let b6 = (v >> 48u64) as u8;
    let b7 = (v >> 56u64) as u8;
    assert(b[0] == b0 && b[1] == b1 && b[2] == b2 && b[3] == b3 && b[4] == b4 && b[5] == b5
        && b[6] == b6 && b[7] == b7);
    assert((b0 as u64) | ((b1 as u64) << 8u64) | ((b2 as u64) << 16u64) | ((b3 as u64) << 24u64)
        | ((b4 as u64) << 32u64) | ((b5 as u64) << 40u64) | ((b6 as u64) << 48u64) | ((b7 as u64)
        << 56u64) == v) by (bit_vector)
        requires
            b0 == v as u8,
            b1 == (v >> 8u64) as u8,
            b2 == (v >> 16u64) as u8,
            b3 == (v >> 24u64) as u8,
            b4 == (v >> 32u64) as u8,
            b5 == (v >> 40u64) as u8,
            b6 == (v >> 48u64) as u8,
            b7 == (v >> 56u64) as u8,
    ;
}

proof fn lemma_decode_one(t: Token, rest: Seq<u8>)
    requires
        well_sized(t),
    ensures
        decode_one(encode(t) + rest) == Some((t, encode(t).len() as int)),
        encode(t).len() > 0,
{
    let s = encode(t) + rest;
    match t {
        Token::Tag(b) => {
            lemma_le_round_trip(b.len() as u64);
            assert(s.subrange(1, 9) =~= le_u64(b.len() as u64));
            assert(s.subrange(9, 9 + b.len() as int) =~= b);
        },
        Token::Str(b) => {
            lemma_le_round_trip(b.len() as u64);
            assert(s.subrange(1, 9) =~= le_u64(b.len() as u64));
            assert(s.subrange(9, 9 + b.len() as int) =~= b);
        },
        Token::U64(v) => {
            lemma_le_round_trip(v);
            assert(s.subrange(1, 9) =~= le_u64(v));
        },
        Token::I64(v) => {
            lemma_le_round_trip(v as u64);
            assert(s.subrange(1, 9) =~= le_u64(v as u64));
            assert((v as u64) as i64 == v) by (bit_vector);
        },
        Token::Bool(v) => {
        },
    }
}

proof fn lemma_encode_front(ts: Seq<Token>)
    requires
        ts.len() > 0,
    ensures
        encode_all(ts) == encode(ts[0]) + encode_all(ts.skip(1)),
    decreases ts.len(),
{
    if ts.len() == 1 {
        assert(ts.drop_last() =~= Seq::<Token>::empty());
        assert(ts.skip(1) =~= Seq::<Token>::empty());
        assert(encode_all(ts) =~= encode(ts[0]) + encode_all(ts.skip(1)));
    } else {
        lemma_encode_front(ts.drop_last());
        assert(ts.drop_last().skip(1) =~= ts.skip(1).drop_last());
        assert(ts.skip(1).last() == ts.last());
        assert(encode_all(ts) =~= encode(ts[0]) + encode_all(ts.skip(1)));
    }
}

proof fn lemma_decode_all(ts: Seq<Token>)
    requires
        forall|i: int| 0 <= i < ts.len() ==> well_sized(#[trigger] ts[i]),
    ensures
        decode_all(encode_all(ts)) == Some(ts),
    decreases ts.len(),
{
    if ts.len() == 0 {
    } else {
        lemma_encode_front(ts);
        let s = encode_all(ts);
        let e = encode(ts[0]);
        let tail = encode_all(ts.skip(1));
        assert(well_sized(ts[0]));
        lemma_decode_one(ts[0], tail);
        assert(s.skip(e.len() as int) =~= tail);
        lemma_decode_all(ts.skip(1));
        assert(seq![ts[0]] + ts.skip(1) =~= ts);
    }
}

/// Different token sequences never produce the same stream: every token is
/// tagged and every variable-length token carries its length, so the stream
/// can be read back into exactly the tokens that wrote it.
pub proof fn law_stream_is_injective(a: Seq<Token>, b: Seq<Token>)
    requires
        forall|i: int| 0 <= i < a.len() ==> well_sized(#[trigger] a[i]),
        forall|i: int| 0 <= i < b.len() ==> well_sized(#[trigger] b[i]),
        encode_all(a) == encode_all(b),
    ensures
        a == b,
{
    lemma_decode_all(a);
    lemma_decode_all(b);
}

/// The BLAKE3 hash of `data`.
pub uninterp spec fn blake3_hash(data: Seq<u8>) -> Seq<u8>;

/// Calls `blake3::hash`, which hashes its whole input at once and returns the
/// 32-byte hash; the contract names the result and states its length.
#[verifier::external_body]
fn blake3_bytes(data: &[u8]) -> (out: Vec<u8>)
    ensures
        out@ == blake3_hash(data@),
        out@.len() == 32,
{
    blake3::hash(data).as_bytes().to_vec()
}

/// The digest text of a finished stream.
pub open spec fn digest_text(stream: Seq<u8>) -> Seq<char> {
    "pte-semantic-v1-blake3"@ + ":"@ + hex_bytes(blake3_hash(stream))
}

/// One write to the stream: a token as it is, or a real value's quantised
/// key, which is `None` where the value was NaN or infinite.
pub enum Step {
    /// A token, written as it is.
    Put(Token),
    /// A coordinate.
    Coord(Option<i64>),
    /// A real value that is not a coordinate.
    Scalar(Option<i64>),
}

/// What one write puts in the stream, or why it cannot: a value that is not
/// finite is refused rather than encoded.
pub open spec fn step_result(s: Step) -> Result<Token, NumericalError> {
    match s {
        Step::Put(t) => Ok(t),
        Step::Coord(v) => match v {
            Some(k) => Ok(Token::I64(k)),
            None => Err(NumericalError::NonFinite { context: "digest coordinate" }),
        },
        Step::Scalar(v) => match v {
            Some(k) => Ok(Token::I64(k)),
            None => Err(NumericalError::NonFinite { context: "cost quantisation" }),
        },
    }
}

/// The tokens a run of writes puts in the stream: those of the writes that
/// succeeded, in order.
pub open spec fn tokens_of(steps: Seq<Step>) -> Seq<Token>
    decreases steps.len(),
{
    if steps.len() == 0 {
        Seq::empty()
    } else {
        match step_result(steps.last()) {
            Ok(t) => tokens_of(steps.drop_last()).push(t),
            Err(_) => tokens_of(steps.drop_last()),
        }
    }
}

/// Why the first refused write of a run was refused, if one was.
pub open spec fn failure_of(steps: Seq<Step>) -> Option<NumericalError>
    decreases steps.len(),
{
    if steps.len() == 0 {
        None
    } else {
        match failure_of(steps.drop_last()) {
            Some(e) => Some(e),
            None => match step_result(steps.last()) {
                Ok(_) => None,
                Err(e) => Some(e),
            },
        }
    }
}

/// Builds the canonical stream.
pub struct DigestWriter {
    bytes: Vec<u8>,
    error: Option<NumericalError>,
    steps: Ghost<Seq<Step>>,
}

impl View for DigestWriter {
    type V = Seq<Step>;

    /// The writes made so far.
    closed spec fn view(&self) -> Seq<Step> {
        self.steps@
    }
}

impl DigestWriter {
    /// The buffered bytes encode exactly the tokens written, and the first
    /// refused write is remembered.
    pub closed spec fn wf(&self) -> bool {
        &&& self.bytes@ == encode_all(tokens_of(self.steps@))
        &&& self.error == failure_of(self.steps@)
        &&& forall|i: int|
            0 <= i < tokens_of(self.steps@).len() ==> well_sized(#[trigger] tokens_of(self.steps@)[i])
    }

    proof fn lemma_put(&self, t: Token)
        requires
            self.wf(),
            well_sized(t),
        ensures
            tokens_of(self.steps@.push(Step::Put(t))) == tokens_of(self.steps@).push(t),
            failure_of(self.steps@.push(Step::Put(t))) == failure_of(self.steps@),
            encode_all(tokens_of(self.steps@).push(t)) == self.bytes@ + encode(t),
            forall|i: int|
                0 <= i < tokens_of(self.steps@).push(t).len() ==> well_sized(
                    #[trigger] tokens_of(self.steps@).push(t)[i],
                ),
    {
        assert(self.steps@.push(Step::Put(t)).drop_last() =~= self.steps@);
        assert(tokens_of(self.steps@).push(t).drop_last() =~= tokens_of(self.steps@));
        assert forall|i: int| 0 <= i < tokens_of(self.steps@).push(t).len() implies well_sized(
            #[trigger] tokens_of(self.steps@).push(t)[i],
        ) by {
            if i < tokens_of(self.steps@).len() {
                assert(tokens_of(self.steps@).push(t)[i] == tokens_of(self.steps@)[i]);
            }
        }
    }

    fn push_le_u64(&mut self, v: u64)
        ensures
            final(self).bytes@ == old(self).bytes@ + le_u64(v),
            final(self).steps == old(self).steps,
            final(self).error == old(self).error,
    {
        self.bytes.push(v as u8);
        self.bytes.push((v >> 8u64) as u8);
        self.bytes.push((v >> 16u64) as u8);
        self.bytes.push((v >> 24u64) as u8);
        self.bytes.push((v >> 32u64) as u8);
        self.bytes.push((v >> 40u64) as u8);
        self.bytes.push((v >> 48u64) as u8);
        self.bytes.push((v >> 56u64) as u8);
        proof {
            assert(self.bytes@ =~= old(self).bytes@ + le_u64(v));
        }
    }

    /// Start a stream and write the schema version.
    pub fn new() -> (w: DigestWriter)
        ensures
            w.wf(),
            w@ == seq![
                Step::Put(Token::Tag("pte-digest".spec_bytes())),
                Step::Put(Token::U64(DIGEST_SCHEMA_VERSION as u64)),
            ],
    {
        let mut w = DigestWriter { bytes: Vec::new(), error: None, steps: Ghost(Seq::empty()) };
        proof {
            assert(w.bytes@ =~= encode_all(tokens_of(w.steps@)));
        }
        w.tag("pte-digest");
        w.u64(DIGEST_SCHEMA_VERSION as u64);
        proof {
            assert(w@ =~= seq![
                Step::Put(Token::Tag("pte-digest".spec_bytes())),
                Step::Put(Token::U64(DIGEST_SCHEMA_VERSION as u64)),
            ]);
        }
        w
    }

    /// Write a structural tag, so two different shapes cannot collide.
    pub fn tag(&mut self, tag: &str)
        requires
            old(self).wf(),
        ensures
            final(self).wf(),
            final(self)@ == old(self)@.push(Step::Put(Token::Tag(tag.spec_bytes()))),
    {
        let b = tag.as_bytes();
        proof {
            assert(b@.len() == b.len());
            self.lemma_put(Token::Tag(b@));
        }
        self.bytes.push(1u8);
        self.push_le_u64(b.len() as u64);
        self.bytes.extend_from_slice(b);
        self.steps = Ghost(self.steps@.push(Step::Put(Token::Tag(b@))));
        proof {
            assert(self.bytes@ =~= old(self).bytes@ + encode(Token::Tag(b@)));
        }
    }

    /// Write an unsigned integer.
    pub fn u64(&mut self, value: u64)
        requires
            old(self).wf(),
        ensures
            final(self).wf(),
            final(self)@ == old(self)@.push(Step::Put(Token::U64(value))),
    {
        proof {
            self.lemma_put(Token::U64(value));
        }
        self.bytes.push(2u8);
        self.push_le_u64(value);
        self.steps = Ghost(self.steps@.push(Step::Put(Token::U64(value))));
        proof {
            assert(self.bytes@ =~= old(self).bytes@ + encode(Token::U64(value)));
        }
    }

    /// Write a signed integer.
    pub fn i64(&mut self, value: i64)
        requires
            old(self).wf(),
        ensures
            final(self).wf(),
            final(self)@ == old(self)@.push(Step::Put(Token::I64(value))),
    {
        proof {
            self.lemma_put(Token::I64(value));
        }
        self.bytes.push(3u8);
        self.push_le_u64(value as u64);
        self.steps = Ghost(self.steps@.push(Step::Put(Token::I64(value))));
        proof {
            assert(self.bytes@ =~= old(self).bytes@ + encode(Token::I64(value)));
        }
    }

    /// Write a string.
    pub fn str(&mut self, value: &str)
        requires
            old(self).wf(),
        ensures
            final(self).wf(),
            final(self)@ == old(self)@.push(Step::Put(Token::Str(value.spec_bytes()))),
    {
        let b = value.as_bytes();
        proof {
            assert(b@.len() == b.len());
            self.lemma_put(Token::Str(b@));
        }
        self.bytes.push(4u8);
        self.push_le_u64(b.len() as u64);
        self.bytes.extend_from_slice(b);
        self.steps = Ghost(self.steps@.push(Step::Put(Token::Str(b@))));
        proof {
            assert(self.bytes@ =~= old(self).bytes@ + encode(Token::Str(b@)));
        }
    }

    /// Write a boolean.
    pub fn bool(&mut self, value: bool)
        requires
            old(self).wf(),
        ensures
            final(self).wf(),
            final(self)@ == old(self)@.push(Step::Put(Token::Bool(value))),
    {
        proof {
            self.lemma_put(Token::Bool(value));
        }
        self.bytes.push(5u8);
        self.bytes.push(if value { 1u8 } else { 0u8 });
        self.steps = Ghost(self.steps@.push(Step::Put(Token::Bool(value))));
        proof {
            assert(self.bytes@ =~= old(self).bytes@ + encode(Token::Bool(value)));
        }
    }

    fn put_quantised(&mut self, step: Ghost<Step>, key: Option<i64>, context: &'static str)
        requires
            old(self).wf(),
            step@ == Step::Coord(key) || step@ == Step::Scalar(key),
            context == (if step@ is Coord { "digest coordinate" } else { "cost quantisation" }),
        ensures
            final(self).wf(),
            final(self)@ == old(self)@.push(step@),
    {
        assert(self.steps@.push(step@).drop_last() =~= self.steps@);
        match key {
            Some(k) => {
                proof {
                    self.lemma_put(Token::I64(k));
                }
                self.bytes.push(3u8);
                self.push_le_u64(k as u64);
                self.steps = Ghost(self.steps@.push(step@));
                proof {
                    assert(self.bytes@ =~= old(self).bytes@ + encode(Token::I64(k)));
                }
            },
            None => {
                if self.error.is_none() {
                    self.error = Some(NumericalError::NonFinite { context });
                }
                self.steps = Ghost(self.steps@.push(step@));
            },
        }
    }

    /// Write a quantised coordinate and carry on whatever came of it: a
    /// coordinate that was not finite writes nothing, and the first such
    /// refusal is kept for [`DigestWriter::failure`].
    pub fn put_coord(&mut self, key: Option<i64>)
        requires
            old(self).wf(),
        ensures
            final(self).wf(),
            final(self)@ == old(self)@.push(Step::Coord(key)),
    {
        self.put_quantised(Ghost(Step::Coord(key)), key, "digest coordinate")
    }

    /// Write a quantised real value that is not a coordinate, as
    /// [`DigestWriter::put_coord`] does.
    pub fn put_scalar(&mut self, key: Option<i64>)
        requires
            old(self).wf(),
        ensures
            final(self).wf(),
            final(self)@ == old(self)@.push(Step::Scalar(key)),
    {
        self.put_quantised(Ghost(Step::Scalar(key)), key, "cost quantisation")
    }

    /// Write a quantised coordinate; `None`, a coordinate that was NaN or
    /// infinite, is refused rather than encoded.
    pub fn coord(&mut self, key: Option<i64>) -> (r: Result<(), NumericalError>)
        requires
            old(self).wf(),
        ensures
            final(self).wf(),
            final(self)@ == old(self)@.push(Step::Coord(key)),
            r == (match step_result(Step::Coord(key)) {
                Ok(_) => Ok(()),
                Err(e) => Err(e),
            }),
    {
        self.put_coord(key);
        match key {
            Some(_) => Ok(()),
            None => Err(NumericalError::NonFinite { context: "digest coordinate" }),
        }
    }

    /// Write a quantised real value that is not a coordinate; `None` is
    /// refused as for [`DigestWriter::coord`].
    pub fn scalar(&mut self, key: Option<i64>) -> (r: Result<(), NumericalError>)
        requires
            old(self).wf(),
        ensures
            final(self).wf(),
            final(self)@ == old(self)@.push(Step::Scalar(key)),
            r == (match step_result(Step::Scalar(key)) {
                Ok(_) => Ok(()),
                Err(e) => Err(e),
            }),
    {
        self.put_scalar(key);
        match key {
            Some(_) => Ok(()),
            None => Err(NumericalError::NonFinite { context: "cost quantisation" }),
        }
    }

    /// Why the first refused write was refused, if one was.
    pub fn failure(&self) -> (e: Option<NumericalError>)
        requires
            self.wf(),
        ensures
            e == failure_of(self@),
    {
        self.error
    }

    /// Finish, returning `pte-semantic-v1-blake3:<hex>` over the stream.
    pub fn finish(self) -> (d: String)
        requires
            self.wf(),
        ensures
            d@ == digest_text(encode_all(tokens_of(self@))),
            blake3_hash(encode_all(tokens_of(self@))).len() == 32,
            d@.len() == 87,
            forall|i: int| 23 <= i < 87 ==> is_lower_hex(#[trigger] d@[i]),
    {
        let hash = blake3_bytes(self.bytes.as_slice());
        render_digest(hash.as_slice())
    }
}

/// The digest text of a hash: the prefix, a colon, and two lowercase
/// hexadecimal digits per byte.
pub fn render_digest(hash: &[u8]) -> (d: String)
    ensures
        d@ == "pte-semantic-v1-blake3"@ + ":"@ + hex_bytes(hash@),
        d@.len() == 23 + 2 * hash@.len(),
        forall|i: int| 23 <= i < d@.len() ==> is_lower_hex(#[trigger] d@[i]),
{
    let mut out = String::new();
    out.append(DIGEST_PREFIX);
    out.append(":");
    let ghost head = out@;
    let mut i: usize = 0;
    while i < hash.len()
        invariant
            i <= hash@.len(),
            out@ == head + hex_bytes(hash@.take(i as int)),
        decreases hash.len() - i,
    {
        push_hex_byte(&mut out, hash[i]);
        proof {
            assert(hash@.take(i as int + 1).drop_last() =~= hash@.take(i as int));
            assert(out@ =~= head + hex_bytes(hash@.take(i as int + 1)));
        }
        i = i + 1;
    }
    proof {
        assert(hash@.take(hash@.len() as int) =~= hash@);
        assert(out@ =~= "pte-semantic-v1-blake3"@ + ":"@ + hex_bytes(hash@));
        reveal_strlit("pte-semantic-v1-blake3");
        reveal_strlit(":");
        lemma_hex_bytes_shape(hash@);
        let head = "pte-semantic-v1-blake3"@ + ":"@;
        assert(head.len() == 23);
        assert forall|i: int| 23 <= i < out@.len() implies is_lower_hex(#[trigger] out@[i]) by {
            assert(out@[i] == hex_bytes(hash@)[i - 23]);
        }
    }
    out
}

} // verus!
