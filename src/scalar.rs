//! Little-endian scalar codec over byte buffers.
use vstd::prelude::*;

verus! {

/// `b` with the bytes of `s` written over it from position `p` on.
pub open spec fn splice(b: Seq<u8>, p: int, s: Seq<u8>) -> Seq<u8> {
    b.subrange(0, p) + s + b.subrange(p + s.len(), b.len() as int)
}

/// The scalar of type `T` whose little-endian bytes start at `p`.
pub open spec fn scalar_at<T: Endian>(b: Seq<u8>, p: int) -> T {
    T::from_le_seq(b.subrange(p, p + T::byte_len()))
}

/// Whether a scalar of type `T` at `p` lies inside `b`.
pub open spec fn scalar_fits<T: Endian>(b: Seq<u8>, p: int) -> bool {
    0 <= p && p + T::byte_len() <= b.len()
}

/// Writing bytes at `p` leaves every range that does not meet them as it was.
pub proof fn lemma_splice_elsewhere(b: Seq<u8>, p: int, s: Seq<u8>, q: int, n: int)
    requires
        0 <= p,
        p + s.len() <= b.len(),
        0 <= q,
        0 <= n,
        q + n <= b.len(),
        q + n <= p || p + s.len() <= q,
    ensures
        splice(b, p, s).subrange(q, q + n) == b.subrange(q, q + n),
{
    assert(splice(b, p, s).subrange(q, q + n) =~= b.subrange(q, q + n));
}

/// Writing a scalar at `p` and reading one back from `p` gives the value
/// written, and the buffer keeps its length.
pub proof fn lemma_write_then_read<T: Endian>(b: Seq<u8>, p: int, v: T)
    requires
        scalar_fits::<T>(b, p),
    ensures
        splice(b, p, T::to_le_seq(v)).len() == b.len(),
        scalar_at::<T>(splice(b, p, T::to_le_seq(v)), p) == v,
{
    T::lemma_le_round_trip(v);
    let s = splice(b, p, T::to_le_seq(v));
    assert(s.subrange(p, p + T::byte_len()) =~= T::to_le_seq(v));
}

/// A fixed-width value stored little-endian, whatever the host's byte order.
pub trait Endian: Sized + Copy {
    /// Width of the encoding in bytes.
    spec fn byte_len() -> nat;

    /// The value that the little-endian bytes `b` encode.
    spec fn from_le_seq(b: Seq<u8>) -> Self;

    /// The little-endian bytes of `v`.
    spec fn to_le_seq(v: Self) -> Seq<u8>;

    /// Encoding then decoding gives the value back.
    proof fn lemma_le_round_trip(v: Self)
        ensures
            Self::to_le_seq(v).len() == Self::byte_len(),
            Self::from_le_seq(Self::to_le_seq(v)) == v,
    ;

    fn byte_count() -> (r: usize)
        ensures
            r == Self::byte_len(),
            1 <= r <= 8,
    ;

    fn read_le(buf: &[u8], pos: usize) -> (r: Self)
        requires
            pos + Self::byte_len() <= buf@.len(),
        ensures
            r == Self::from_le_seq(buf@.subrange(pos as int, pos + Self::byte_len())),
    ;

    fn write_le(self, buf: &mut Vec<u8>, pos: usize)
        requires
            pos + Self::byte_len() <= old(buf)@.len(),
        ensures
            final(buf)@ == splice(old(buf)@, pos as int, Self::to_le_seq(self)),
    ;
}

impl Endian for u8 {
    open spec fn byte_len() -> nat {
        1
    }

    open spec fn from_le_seq(b: Seq<u8>) -> u8 {
        b[0]
    }

    open spec fn to_le_seq(v: u8) -> Seq<u8> {
        seq![v]
    }

    proof fn lemma_le_round_trip(v: u8) {
    }

    fn byte_count() -> usize {
        1
    }

    fn read_le(buf: &[u8], pos: usize) -> u8 {
        buf[pos]
    }

    fn write_le(self, buf: &mut Vec<u8>, pos: usize) {
        buf.set(pos, self);
        assert(buf@ =~= splice(old(buf)@, pos as int, seq![self]));
    }
}

impl Endian for u16 {
    open spec fn byte_len() -> nat {
        2
    }

    open spec fn from_le_seq(b: Seq<u8>) -> u16 {
        (b[0] as u16) | ((b[1] as u16) << 8u16)
    }

    open spec fn to_le_seq(v: u16) -> Seq<u8> {
        seq![v as u8, (v >> 8u16) as u8]
    }

    proof fn lemma_le_round_trip(v: u16) {
        let s = Self::to_le_seq(v);
        assert(((v as u8) as u16) | ((((v >> 8u16) as u8) as u16) << 8u16) == v) by (bit_vector);
        assert(s[0] == v as u8 && s[1] == (v >> 8u16) as u8);
    }

    fn byte_count() -> usize {
        2
    }

    fn read_le(buf: &[u8], pos: usize) -> u16 {
        (buf[pos] as u16) | ((buf[pos + 1] as u16) << 8u16)
    }

    fn write_le(self, buf: &mut Vec<u8>, pos: usize) {
        let _len: usize = buf.len();
        let p1: usize = pos + 1;
        buf.set(pos, self as u8);
        buf.set(p1, (self >> 8u16) as u8);
        assert(buf@ =~= splice(old(buf)@, pos as int, Self::to_le_seq(self)));
    }
}

impl Endian for u32 {
    open spec fn byte_len() -> nat {
        4
    }

    open spec fn from_le_seq(b: Seq<u8>) -> u32 {
        (b[0] as u32) | ((b[1] as u32) << 8u32) | ((b[2] as u32) << 16u32) | ((b[3] as u32)
            << 24u32)
    }

    open spec fn to_le_seq(v: u32) -> Seq<u8> {
        seq![v as u8, (v >> 8u32) as u8, (v >> 16u32) as u8, (v >> 24u32) as u8]
    }

    proof fn lemma_le_round_trip(v: u32) {
        let s = Self::to_le_seq(v);
        assert(((v as u8) as u32) | ((((v >> 8u32) as u8) as u32) << 8u32) | ((((v
            >> 16u32) as u8) as u32) << 16u32) | ((((v >> 24u32) as u8) as u32) << 24u32) == v)
            by (bit_vector);
        assert(s[0] == v as u8 && s[1] == (v >> 8u32) as u8 && s[2] == (v >> 16u32) as u8
            && s[3] == (v >> 24u32) as u8);
    }

    fn byte_count() -> usize {
        4
    }

    fn read_le(buf: &[u8], pos: usize) -> u32 {
        (buf[pos] as u32) | ((buf[pos + 1] as u32) << 8u32) | ((buf[pos + 2] as u32) << 16u32)
            | ((buf[pos + 3] as u32) << 24u32)
    }

    fn write_le(self, buf: &mut Vec<u8>, pos: usize) {
        let _len: usize = buf.len();
        let p1: usize = pos + 1;
        let p2: usize = pos + 2;
        let p3: usize = pos + 3;
        buf.set(pos, self as u8);
        buf.set(p1, (self >> 8u32) as u8);
        buf.set(p2, (self >> 16u32) as u8);
        buf.set(p3, (self >> 24u32) as u8);
        assert(buf@ =~= splice(old(buf)@, pos as int, Self::to_le_seq(self)));
    }
}

impl Endian for u64 {
    open spec fn byte_len() -> nat {
        8
    }

    open spec fn from_le_seq(b: Seq<u8>) -> u64 {
        (b[0] as u64) | ((b[1] as u64) << 8u64) | ((b[2] as u64) << 16u64) | ((b[3] as u64)
            << 24u64) | ((b[4] as u64) << 32u64) | ((b[5] as u64) << 40u64) | ((b[6] as u64)
            << 48u64) | ((b[7] as u64) << 56u64)
    }

    open spec fn to_le_seq(v: u64) -> Seq<u8> {
        seq![
            v as u8,
            (v >> 8u64) as u8,
            (v >> 16u64) as u8,
            (v >> 24u64) as u8,
            (v >> 32u64) as u8,
            (v >> 40u64) as u8,
            (v >> 48u64) as u8,
            (v >> 56u64) as u8,
        ]
    }

    proof fn lemma_le_round_trip(v: u64) {
        let s = Self::to_le_seq(v);
        assert(((v as u8) as u64) | ((((v >> 8u64) as u8) as u64) << 8u64) | ((((v
            >> 16u64) as u8) as u64) << 16u64) | ((((v >> 24u64) as u8) as u64) << 24u64)
            | ((((v >> 32u64) as u8) as u64) << 32u64) | ((((v >> 40u64) as u8) as u64)
            << 40u64) | ((((v >> 48u64) as u8) as u64) << 48u64) | ((((v >> 56u64) as u8)
            as u64) << 56u64) == v) by (bit_vector);
        assert(s[0] == v as u8 && s[1] == (v >> 8u64) as u8 && s[2] == (v >> 16u64) as u8
            && s[3] == (v >> 24u64) as u8 && s[4] == (v >> 32u64) as u8 && s[5] == (v
            >> 40u64) as u8 && s[6] == (v >> 48u64) as u8 && s[7] == (v >> 56u64) as u8);
    }

    fn byte_count() -> usize {
        8
    }

    fn read_le(buf: &[u8], pos: usize) -> u64 {
        (buf[pos] as u64) | ((buf[pos + 1] as u64) << 8u64) | ((buf[pos + 2] as u64) << 16u64)
            | ((buf[pos + 3] as u64) << 24u64) | ((buf[pos + 4] as u64) << 32u64) | ((buf[pos
            + 5] as u64) << 40u64) | ((buf[pos + 6] as u64) << 48u64) | ((buf[pos + 7] as u64)
            << 56u64)
    }

    fn write_le(self, buf: &mut Vec<u8>, pos: usize) {
        let _len: usize = buf.len();
        let p1: usize = pos + 1;
        let p2: usize = pos + 2;
        let p3: usize = pos + 3;
        let p4: usize = pos + 4;
        let p5: usize = pos + 5;
        let p6: usize = pos + 6;
        let p7: usize = pos + 7;
        buf.set(pos, self as u8);
        buf.set(p1, (self >> 8u64) as u8);
        buf.set(p2, (self >> 16u64) as u8);
        buf.set(p3, (self >> 24u64) as u8);
        buf.set(p4, (self >> 32u64) as u8);
        buf.set(p5, (self >> 40u64) as u8);
        buf.set(p6, (self >> 48u64) as u8);
        buf.set(p7, (self >> 56u64) as u8);
        assert(buf@ =~= splice(old(buf)@, pos as int, Self::to_le_seq(self)));
    }
}

impl Endian for i8 {
    open spec fn byte_len() -> nat {
        1
    }

    open spec fn from_le_seq(b: Seq<u8>) -> i8 {
        <u8 as Endian>::from_le_seq(b) as i8
    }

    open spec fn to_le_seq(v: i8) -> Seq<u8> {
        <u8 as Endian>::to_le_seq(v as u8)
    }

    proof fn lemma_le_round_trip(v: i8) {
        <u8 as Endian>::lemma_le_round_trip(v as u8);
        assert((v as u8) as i8 == v) by (bit_vector);
    }

    fn byte_count() -> usize {
        1
    }

    fn read_le(buf: &[u8], pos: usize) -> i8 {
        u8::read_le(buf, pos) as i8
    }

    fn write_le(self, buf: &mut Vec<u8>, pos: usize) {
        (self as u8).write_le(buf, pos)
    }
}

impl Endian for i16 {
    open spec fn byte_len() -> nat {
        2
    }

    open spec fn from_le_seq(b: Seq<u8>) -> i16 {
        <u16 as Endian>::from_le_seq(b) as i16
    }

    open spec fn to_le_seq(v: i16) -> Seq<u8> {
        <u16 as Endian>::to_le_seq(v as u16)
    }

    proof fn lemma_le_round_trip(v: i16) {
        <u16 as Endian>::lemma_le_round_trip(v as u16);
        assert((v as u16) as i16 == v) by (bit_vector);
    }

    fn byte_count() -> usize {
        2
    }

    fn read_le(buf: &[u8], pos: usize) -> i16 {
        u16::read_le(buf, pos) as i16
    }

    fn write_le(self, buf: &mut Vec<u8>, pos: usize) {
        (self as u16).write_le(buf, pos)
    }
}

impl Endian for i32 {
    open spec fn byte_len() -> nat {
        4
    }

    open spec fn from_le_seq(b: Seq<u8>) -> i32 {
        <u32 as Endian>::from_le_seq(b) as i32
    }

    open spec fn to_le_seq(v: i32) -> Seq<u8> {
        <u32 as Endian>::to_le_seq(v as u32)
    }

    proof fn lemma_le_round_trip(v: i32) {
        <u32 as Endian>::lemma_le_round_trip(v as u32);
        assert((v as u32) as i32 == v) by (bit_vector);
    }

    fn byte_count() -> usize {
        4
    }

    fn read_le(buf: &[u8], pos: usize) -> i32 {
        u32::read_le(buf, pos) as i32
    }

    fn write_le(self, buf: &mut Vec<u8>, pos: usize) {
        (self as u32).write_le(buf, pos)
    }
}

impl Endian for i64 {
    open spec fn byte_len() -> nat {
        8
    }

    open spec fn from_le_seq(b: Seq<u8>) -> i64 {
        <u64 as Endian>::from_le_seq(b) as i64
    }

    open spec fn to_le_seq(v: i64) -> Seq<u8> {
        <u64 as Endian>::to_le_seq(v as u64)
    }

    proof fn lemma_le_round_trip(v: i64) {
        <u64 as Endian>::lemma_le_round_trip(v as u64);
        assert((v as u64) as i64 == v) by (bit_vector);
    }

    fn byte_count() -> usize {
        8
    }

    fn read_le(buf: &[u8], pos: usize) -> i64 {
        u64::read_le(buf, pos) as i64
    }

    fn write_le(self, buf: &mut Vec<u8>, pos: usize) {
        (self as u64).write_le(buf, pos)
    }
}

} // verus!
