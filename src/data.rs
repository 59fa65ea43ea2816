//! Byte codec traits and the range-to-bucket table.
use vstd::prelude::*;

verus! {

/// Why bytes could not be decoded.
#[derive(Debug, Clone, Copy, PartialEq, Eq, Structural)]
pub enum DecodeError {
    /// The bytes end before a whole value.
    UnexpectedEnd,
    /// The bytes do not begin with the encoding of any value.
    Malformed,
}

/// `p` is a prefix of `s`.
pub open spec fn is_prefix(p: Seq<u8>, s: Seq<u8>) -> bool {
    p.len() <= s.len() && s.subrange(0, p.len() as int) == p
}

/// Describes a type that can be encoded as bytes.
pub trait Encode {
    /// The bytes that stand for this value.
    spec fn encoding(&self) -> Seq<u8>;

    /// Appends the bytes of this value to `writer`.
    fn encode(&self, writer: &mut Vec<u8>)
        ensures
            final(writer)@ == old(writer)@ + self.encoding(),
    ;

    /// The length of this value's encoding, in bytes.
    fn bytes_len(&self) -> (r: usize)
        ensures
            r as int == self.encoding().len(),
    ;
}

/// Describes a type that can be decoded from bytes.
pub trait Decode: Encode + Sized {
    /// The error that `decode` reports on bytes that do not decode.
    spec fn decode_error(bytes: Seq<u8>) -> DecodeError;

    /// Decodes the value whose encoding begins `bytes`; fails exactly when
    /// no value's encoding does.
    fn decode(bytes: &[u8]) -> (r: Result<Self, DecodeError>)
        ensures
            forall|v: Self| #[trigger] is_prefix(v.encoding(), bytes@) ==> r == Ok::<Self, DecodeError>(v),
            r matches Ok(v) ==> is_prefix(v.encoding(), bytes@),
            r matches Err(e) ==> e == Self::decode_error(bytes@),
    ;
}

/// A value that can be stored, together with the key type that names it.
pub trait Data: Encode + Decode {
    /// The key that stored values are named by.
    type Identifier: Encode + Decode;
}

/// The eight little-endian bytes of `x`.
pub open spec fn le_bytes(x: u64) -> Seq<u8> {
    seq![
        x as u8,
        (x >> 8u64) as u8,
        (x >> 16u64) as u8,
        (x >> 24u64) as u8,
        (x >> 32u64) as u8,
        (x >> 40u64) as u8,
        (x >> 48u64) as u8,
        (x >> 56u64) as u8,
    ]
}

/// The integer whose little-endian bytes are the given eight.
pub open spec fn from_le(b: Seq<u8>) -> u64 {
    (b[0] as u64) | ((b[1] as u64) << 8u64) | ((b[2] as u64) << 16u64) | ((b[3] as u64) << 24u64)
        | ((b[4] as u64) << 32u64) | ((b[5] as u64) << 40u64) | ((b[6] as u64) << 48u64) | ((
    b[7] as u64) << 56u64)
}

/// Reassembling the bytes of an integer gives the integer back.
pub proof fn lemma_from_le_bytes(x: u64)
    ensures
        from_le(le_bytes(x)) == x,
{
    assert((x as u8 as u64) | (((x >> 8u64) as u8 as u64) << 8u64) | (((x >> 16u64) as u8 as u64)
        << 16u64) | (((x >> 24u64) as u8 as u64) << 24u64) | (((x >> 32u64) as u8 as u64) << 32u64)
        | (((x >> 40u64) as u8 as u64) << 40u64) | (((x >> 48u64) as u8 as u64) << 48u64) | (((x
        >> 56u64) as u8 as u64) << 56u64) == x) by (bit_vector);
}

/// The bytes of a reassembled integer are the ones it was built from.
pub proof fn lemma_le_bytes_from(b: Seq<u8>)
    requires
        b.len() == 8,
    ensures
        le_bytes(from_le(b)) == b,
{
    let (b0, b1, b2, b3, b4, b5, b6, b7) = (b[0], b[1], b[2], b[3], b[4], b[5], b[6], b[7]);
    let x = from_le(b);
    assert(x == (b0 as u64) | ((b1 as u64) << 8u64) | ((b2 as u64) << 16u64) | ((b3 as u64)
        << 24u64) | ((b4 as u64) << 32u64) | ((b5 as u64) << 40u64) | ((b6 as u64) << 48u64) | ((
    b7 as u64) << 56u64));
    assert(x as u8 == b0 && (x >> 8u64) as u8 == b1 && (x >> 16u64) as u8 == b2 && (x >> 24u64) as u8
        == b3 && (x >> 32u64) as u8 == b4 && (x >> 40u64) as u8 == b5 && (x >> 48u64) as u8 == b6
        && (x >> 56u64) as u8 == b7) by (bit_vector)
        requires
            x == (b0 as u64) | ((b1 as u64) << 8u64) | ((b2 as u64) << 16u64) | ((b3 as u64)
                << 24u64) | ((b4 as u64) << 32u64) | ((b5 as u64) << 40u64) | ((b6 as u64) << 48u64)
                | ((b7 as u64) << 56u64),
    ;
    assert(le_bytes(x) =~= b);
}

impl Encode for u64 {
    open spec fn encoding(&self) -> Seq<u8> {
        le_bytes(*self)
    }

    fn encode(&self, writer: &mut Vec<u8>) {
        let x: u64 = *self;
        writer.push(x as u8);
        writer.push((x >> 8u64) as u8);
        writer.push((x >> 16u64) as u8);
        writer.push((x >> 24u64) as u8);
        writer.push((x >> 32u64) as u8);
        writer.push((x >> 40u64) as u8);
        writer.push((x >> 48u64) as u8);
        writer.push((x >> 56u64) as u8);
        assert(writer@ =~= old(writer)@ + le_bytes(x));
    }

    fn bytes_len(&self) -> (r: usize) {
        8
    }
}

impl Decode for u64 {
    open spec fn decode_error(bytes: Seq<u8>) -> DecodeError {
        DecodeError::UnexpectedEnd
    }

    fn decode(bytes: &[u8]) -> (r: Result<u64, DecodeError>) {
        if bytes.len() < 8 {
            return Err(DecodeError::UnexpectedEnd);
        }
        let x: u64 = (bytes[0] as u64) | ((bytes[1] as u64) << 8u64) | ((bytes[2] as u64) << 16u64)
            | ((bytes[3] as u64) << 24u64) | ((bytes[4] as u64) << 32u64) | ((bytes[5] as u64)
            << 40u64) | ((bytes[6] as u64) << 48u64) | ((bytes[7] as u64) << 56u64);
        proof {
            let head = bytes@.subrange(0, 8);
            assert(x == from_le(head));
            lemma_le_bytes_from(head);
            assert forall|v: u64| #[trigger] is_prefix(v.encoding(), bytes@) implies v == x by {
                lemma_from_le_bytes(v);
                assert(le_bytes(v) == head);
            }
        }
        Ok(x)
    }
}

/// Decoding what `encode` wrote gives the value back: the encoding begins
/// itself, so `decode` returns the value, and it is as long as `bytes_len`
/// says.
pub proof fn lemma_u64_decode_encode(x: u64)
    ensures
        is_prefix(x.encoding(), x.encoding()),
        x.encoding().len() == 8,
{
    assert(x.encoding().subrange(0, 8) =~= x.encoding());
}

/// Any eight bytes decode, and encoding what they decode to gives them back.
pub proof fn lemma_u64_encode_decode(bytes: Seq<u8>)
    requires
        bytes.len() == 8,
    ensures
        from_le(bytes).encoding() == bytes,
        is_prefix(from_le(bytes).encoding(), bytes),
{
    assert(bytes.subrange(0, 8) =~= bytes);
    lemma_le_bytes_from(bytes);
}

/// A type whose values stand for mathematical integers.
pub trait Magnitude {
    /// The value as a mathematical integer.
    spec fn magnitude(&self) -> int;
}

/// An integer-like type whose full range can be split into buckets.
pub trait RangedSeek: Magnitude + Sized {
    /// The type that differences and bucket widths are expressed in.
    type Raw: Magnitude;

    /// The smallest value of the type.
    const RS_MIN: Self;

    /// The largest value of the type.
    const RS_MAX: Self;

    /// Floor division by a positive width.
    fn rs_div_floor(self, rhs: Self::Raw) -> (r: usize)
        requires
            rhs.magnitude() > 0,
            self.magnitude() / rhs.magnitude() <= usize::MAX,
        ensures
            r as int == self.magnitude() / rhs.magnitude(),
    ;

    /// The difference of two values.
    fn rs_sub(self, rhs: Self) -> (r: Self::Raw)
        requires
            rhs.magnitude() <= self.magnitude(),
        ensures
            r.magnitude() == self.magnitude() - rhs.magnitude(),
    ;

    /// The same value in the width type.
    fn rs_into(self) -> (r: Self::Raw)
        ensures
            r.magnitude() == self.magnitude(),
    ;

    /// Ceiling division by a positive count.
    fn rs_div_usize_ceil(self, rhs: usize) -> (r: Self::Raw)
        requires
            rhs > 0,
        ensures
            r.magnitude() == (self.magnitude() + rhs - 1) / (rhs as int),
    ;
}

impl Magnitude for u64 {
    open spec fn magnitude(&self) -> int {
        *self as int
    }
}

impl RangedSeek for u64 {
    type Raw = u64;

    const RS_MIN: u64 = 0;

    const RS_MAX: u64 = 0xffff_ffff_ffff_ffff;

    fn rs_sub(self, rhs: u64) -> (r: u64) {
        self - rhs
    }

    fn rs_into(self) -> (r: u64) {
        self
    }

    fn rs_div_floor(self, rhs: u64) -> (r: usize) {
        (self / rhs) as usize
    }

    fn rs_div_usize_ceil(self, rhs: usize) -> (r: u64) {
        let d: u64 = rhs as u64;
        let q: u64 = self / d;
        let up: u64 = if self % d == 0 { 0 } else { 1 };
        proof {
            lemma_ceil_div(self as int, d as int);
        }
        q + up
    }
}

/// Ceiling division as floor quotient plus one when a remainder is left.
proof fn lemma_ceil_div(a: int, d: int)
    requires
        a >= 0,
        d > 0,
    ensures
        (a + d - 1) / d == a / d + if a % d == 0 { 0int } else { 1int },
        (a + d - 1) / d <= a,
{
    vstd::arithmetic::div_mod::lemma_fundamental_div_mod(a, d);
    vstd::arithmetic::div_mod::lemma_fundamental_div_mod(a + d - 1, d);
    vstd::arithmetic::div_mod::lemma_mod_bound(a, d);
    vstd::arithmetic::div_mod::lemma_mod_bound(a + d - 1, d);
    assert((a + d - 1) / d == a / d + if a % d == 0 { 0int } else { 1int }) by (nonlinear_arith)
        requires
            a == d * (a / d) + a % d,
            a + d - 1 == d * ((a + d - 1) / d) + (a + d - 1) % d,
            0 <= a % d < d,
            0 <= (a + d - 1) % d < d,
            d > 0,
    ;
    if a % d != 0 {
        assert(d >= 2);
        vstd::arithmetic::div_mod::lemma_div_pos_is_pos(a, d);
        assert(d * (a / d) >= 2 * (a / d)) by (nonlinear_arith)
            requires
                a / d >= 0,
                d >= 2,
        ;
        assert(a / d < a) by (nonlinear_arith)
            requires
                a == d * (a / d) + a % d,
                d * (a / d) >= 2 * (a / d),
                a / d >= 0,
                0 < a % d < d,
                d >= 2,
        ;
    }
}

/// A split of a type's full range into buckets of equal width: the bucket of
/// a value is its floor quotient by the width.
pub struct RangeTable<T> where T: RangedSeek {
    separation: T,
    chunk_count: usize,
}

impl<T: RangedSeek<Raw = T> + Copy> RangeTable<T> {
    /// The width of each bucket.
    pub closed spec fn spec_separation(&self) -> int {
        self.separation.magnitude()
    }

    /// The highest bucket index that `get` hands out.
    pub closed spec fn spec_chunk_count(&self) -> nat {
        self.chunk_count as nat
    }

    /// A table of `chunk_count` buckets whose width is the span of `U`
    /// divided by `chunk_count`, rounded up.
    pub fn from_count<U: RangedSeek<Raw = T>>(chunk_count: usize) -> (r: Self)
        requires
            chunk_count > 0,
            U::RS_MIN.magnitude() <= U::RS_MAX.magnitude(),
        ensures
            r.spec_chunk_count() == chunk_count,
            r.spec_separation() == (span_of::<U>() + chunk_count - 1) / (chunk_count as int),
    {
        let span: T = U::RS_MAX.rs_sub(U::RS_MIN);
        RangeTable { separation: span.rs_div_usize_ceil(chunk_count), chunk_count }
    }

    /// A table whose buckets are `separation` wide, as many as fit whole in
    /// the span of `U`.
    pub fn from_separation<U: RangedSeek<Raw = T> + Copy>(separation: U) -> (r: Self)
        requires
            U::RS_MIN.magnitude() <= U::RS_MAX.magnitude(),
            separation.magnitude() > 0,
            span_of::<U>() / separation.magnitude() <= usize::MAX,
        ensures
            r.spec_separation() == separation.magnitude(),
            r.spec_chunk_count() == span_of::<U>() / separation.magnitude(),
    {
        let span: T = U::RS_MAX.rs_sub(U::RS_MIN);
        let width: T = separation.rs_into();
        RangeTable { separation: width, chunk_count: span.rs_div_floor(width) }
    }

    /// The bucket of `id`, or `None` when it lies past the last bucket.
    pub fn get(&self, id: T) -> (r: Option<usize>)
        requires
            self.spec_separation() > 0,
            id.magnitude() / self.spec_separation() <= usize::MAX,
        ensures
            r == (if id.magnitude() / self.spec_separation() <= self.spec_chunk_count() {
                Some((id.magnitude() / self.spec_separation()) as usize)
            } else {
                None
            }),
    {
        let raw: usize = id.rs_div_floor(self.separation);
        if raw <= self.chunk_count {
            Some(raw)
        } else {
            None
        }
    }
}

/// The distance from the smallest to the largest value of `U`.
pub open spec fn span_of<U: RangedSeek>() -> int {
    U::RS_MAX.magnitude() - U::RS_MIN.magnitude()
}

/// The range of `u64` runs from zero to its largest value.
pub proof fn lemma_u64_span()
    ensures
        0 == <u64 as RangedSeek>::RS_MIN.magnitude(),
        0xffff_ffff_ffff_ffff == <u64 as RangedSeek>::RS_MAX.magnitude(),
        0xffff_ffff_ffff_ffff == span_of::<u64>(),
{
}

/// The width that `from_count` picks for `n` buckets is the least with which
/// `n` buckets cover the span, and every value of the span then falls in a
/// bucket no greater than `n`.
pub proof fn lemma_count_width_least(span: int, n: int)
    requires
        span > 0,
        n > 0,
    ensures
        ({
            let w = (span + n - 1) / n;
            &&& w >= 1
            &&& w * n >= span
            &&& (w - 1) * n < span
            &&& forall|id: int| 0 <= id <= span ==> #[trigger] (id / w) <= n
        }),
{
    let w = (span + n - 1) / n;
    vstd::arithmetic::div_mod::lemma_fundamental_div_mod(span + n - 1, n);
    vstd::arithmetic::div_mod::lemma_mod_bound(span + n - 1, n);
    let r = (span + n - 1) % n;
    assert(w >= 1) by (nonlinear_arith)
        requires
            span + n - 1 == n * w + r,
            0 <= r < n,
            span > 0,
    ;
    assert(w * n >= span && (w - 1) * n < span) by (nonlinear_arith)
        requires
            span + n - 1 == n * w + r,
            0 <= r < n,
    ;
    assert forall|id: int| 0 <= id <= span implies #[trigger] (id / w) <= n by {
        vstd::arithmetic::div_mod::lemma_div_is_ordered(id, span, w);
        vstd::arithmetic::div_mod::lemma_div_is_ordered(span, w * n, w);
        vstd::arithmetic::div_mod::lemma_div_multiples_vanish(n, w);
        assert(w * n == n * w) by (nonlinear_arith);
    }
}

/// Every value of the span falls in a bucket no greater than the number of
/// whole buckets of width `w`, the count `from_separation` picks.
pub proof fn lemma_separation_covers(span: int, w: int)
    requires
        span >= 0,
        w > 0,
    ensures
        forall|id: int| 0 <= id <= span ==> #[trigger] (id / w) <= span / w,
{
    assert forall|id: int| 0 <= id <= span implies #[trigger] (id / w) <= span / w by {
        vstd::arithmetic::div_mod::lemma_div_is_ordered(id, span, w);
    }
}

} // verus!
