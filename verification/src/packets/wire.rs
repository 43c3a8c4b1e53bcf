//! Big-endian integer fields, as the payloads carry them.
use vstd::prelude::*;

verus! {

/// `s` with `t` written over it from index `off` on.
pub open spec fn splice(s: Seq<u8>, off: int, t: Seq<u8>) -> Seq<u8> {
    s.take(off) + t + s.skip(off + t.len())
}

/// Big-endian bytes of a 16-bit value.
pub open spec fn be16(v: u16) -> Seq<u8> {
    seq![(v / 0x100) as u8, (v % 0x100) as u8]
}

/// The 16-bit value of two big-endian bytes.
pub open spec fn from_be16(b0: u8, b1: u8) -> u16 {
    (b0 * 0x100 + b1) as u16
}

/// Big-endian bytes of a 32-bit value.
pub open spec fn be32(v: u32) -> Seq<u8> {
    seq![
        (v / 0x1000000) as u8,
        (v / 0x10000 % 0x100) as u8,
        (v / 0x100 % 0x100) as u8,
        (v % 0x100) as u8,
    ]
}

/// The 32-bit value of four big-endian bytes.
pub open spec fn from_be32(b0: u8, b1: u8, b2: u8, b3: u8) -> u32 {
    (b0 * 0x1000000 + b1 * 0x10000 + b2 * 0x100 + b3) as u32
}

/// The value of the big-endian 16-bit field at `off` of `s`.
pub open spec fn be16_at(s: Seq<u8>, off: int) -> u16 {
    from_be16(s[off], s[off + 1])
}

/// The value of the big-endian 32-bit field at `off` of `s`.
pub open spec fn be32_at(s: Seq<u8>, off: int) -> u32 {
    from_be32(s[off], s[off + 1], s[off + 2], s[off + 3])
}

/// Reading back the bytes of a 16-bit value gives the value.
pub proof fn lemma_be16_round_trip(v: u16)
    ensures
        from_be16(be16(v)[0], be16(v)[1]) == v,
{
}

/// Reading back the bytes of a 32-bit value gives the value.
pub proof fn lemma_be32_round_trip(v: u32)
    ensures
        from_be32(be32(v)[0], be32(v)[1], be32(v)[2], be32(v)[3]) == v,
{
}

/// Writing the value read from two bytes gives the bytes back.
pub proof fn lemma_from_be16_round_trip(b0: u8, b1: u8)
    ensures
        be16(from_be16(b0, b1)) == seq![b0, b1],
{
    assert(be16(from_be16(b0, b1)) =~= seq![b0, b1]);
}

/// Writing the value read from four bytes gives the bytes back.
pub proof fn lemma_from_be32_round_trip(b0: u8, b1: u8, b2: u8, b3: u8)
    ensures
        be32(from_be32(b0, b1, b2, b3)) == seq![b0, b1, b2, b3],
{
    let v: int = b0 * 0x1000000 + b1 * 0x10000 + b2 * 0x100 + b3;
    assert(0 <= v < 0x100000000);
    assert(from_be32(b0, b1, b2, b3) == v);
    assert(v / 0x1000000 == b0 && v / 0x10000 % 0x100 == b1 && v / 0x100 % 0x100 == b2 && v % 0x100 == b3)
        by (nonlinear_arith)
        requires
            v == b0 * 0x1000000 + b1 * 0x10000 + b2 * 0x100 + b3,
            0 <= b0 < 0x100,
            0 <= b1 < 0x100,
            0 <= b2 < 0x100,
            0 <= b3 < 0x100,
    ;
    assert(be32(from_be32(b0, b1, b2, b3)) =~= seq![b0, b1, b2, b3]);
}

/// Writes `v` big-endian at `off`.
pub fn put_be16(buf: &mut [u8], off: usize, v: u16)
    requires
        off + 2 <= old(buf)@.len(),
    ensures
        final(buf)@ == splice(old(buf)@, off as int, be16(v)),
{
    let hi = (v >> 8u16) as u8;
    let lo = (v & 0xffu16) as u8;
    assert(hi == (v / 0x100) as u8) by (bit_vector)
        requires hi == (v >> 8u16) as u8;
    assert(lo == (v % 0x100) as u8) by (bit_vector)
        requires lo == (v & 0xffu16) as u8;
    buf[off] = hi;
    buf[off + 1] = lo;
    assert(buf@ =~= splice(old(buf)@, off as int, be16(v)));
}

/// Writes `v` big-endian at `off`.
pub fn put_be32(buf: &mut [u8], off: usize, v: u32)
    requires
        off + 4 <= old(buf)@.len(),
    ensures
        final(buf)@ == splice(old(buf)@, off as int, be32(v)),
{
    let b0 = (v >> 24u32) as u8;
    let b1 = ((v >> 16u32) & 0xffu32) as u8;
    let b2 = ((v >> 8u32) & 0xffu32) as u8;
    let b3 = (v & 0xffu32) as u8;
    assert(b0 == (v / 0x1000000) as u8) by (bit_vector)
        requires b0 == (v >> 24u32) as u8;
    assert(b1 == (v / 0x10000 % 0x100) as u8) by (bit_vector)
        requires b1 == ((v >> 16u32) & 0xffu32) as u8;
    assert(b2 == (v / 0x100 % 0x100) as u8) by (bit_vector)
        requires b2 == ((v >> 8u32) & 0xffu32) as u8;
    assert(b3 == (v % 0x100) as u8) by (bit_vector)
        requires b3 == (v & 0xffu32) as u8;
    buf[off] = b0;
    buf[off + 1] = b1;
    buf[off + 2] = b2;
    buf[off + 3] = b3;
    assert(buf@ =~= splice(old(buf)@, off as int, be32(v)));
}

/// Writing `b` right after `a` at the front is writing `a + b` there.
pub proof fn lemma_splice_append(s: Seq<u8>, a: Seq<u8>, b: Seq<u8>)
    requires
        a.len() + b.len() <= s.len(),
    ensures
        splice(splice(s, 0, a), a.len() as int, b) == splice(s, 0, a + b),
{
    assert(splice(splice(s, 0, a), a.len() as int, b) =~= splice(s, 0, a + b));
}

/// Writing `b` right after `a` at `off` is writing `a + b` there.
pub proof fn lemma_splice_append_at(s: Seq<u8>, off: int, a: Seq<u8>, b: Seq<u8>)
    requires
        0 <= off,
        off + a.len() + b.len() <= s.len(),
    ensures
        splice(splice(s, off, a), off + a.len(), b) == splice(s, off, a + b),
{
    assert(splice(splice(s, off, a), off + a.len(), b) =~= splice(s, off, a + b));
}

/// Copies `src` into `buf` from index `off` on.
pub fn put_bytes(buf: &mut [u8], off: usize, src: &[u8])
    requires
        off + src@.len() <= old(buf)@.len(),
    ensures
        final(buf)@ == splice(old(buf)@, off as int, src@),
{
    let n = buf.len();
    let mut i: usize = 0;
    while i < src.len()
        invariant
            0 <= i <= src@.len(),
            off + src@.len() <= buf@.len(),
            buf@.len() == old(buf)@.len(),
            buf@.len() == n,
            buf@ == splice(old(buf)@, off as int, src@.take(i as int)),
        decreases src@.len() - i,
    {
        buf[off + i] = src[i];
        i += 1;
        assert(buf@ =~= splice(old(buf)@, off as int, src@.take(i as int)));
    }
    assert(src@.take(src@.len() as int) =~= src@);
}

/// Reads the big-endian 16-bit field at `off`.
pub fn get_be16(data: &[u8], off: usize) -> (r: u16)
    requires
        off + 2 <= data@.len(),
    ensures
        r == be16_at(data@, off as int),
{
    let b0 = data[off];
    let b1 = data[off + 1];
    let r = ((b0 as u16) << 8u16) | (b1 as u16);
    assert(r == (b0 * 0x100 + b1) as u16) by (bit_vector)
        requires r == ((b0 as u16) << 8u16) | (b1 as u16);
    r
}

/// Reads the big-endian 32-bit field at `off`.
pub fn get_be32(data: &[u8], off: usize) -> (r: u32)
    requires
        off + 4 <= data@.len(),
    ensures
        r == be32_at(data@, off as int),
{
    let b0 = data[off];
    let b1 = data[off + 1];
    let b2 = data[off + 2];
    let b3 = data[off + 3];
    let r = ((b0 as u32) << 24u32) | ((b1 as u32) << 16u32) | ((b2 as u32) << 8u32) | (b3 as u32);
    assert(r == (b0 * 0x1000000 + b1 * 0x10000 + b2 * 0x100 + b3) as u32) by (bit_vector)
        requires
            r == ((b0 as u32) << 24u32) | ((b1 as u32) << 16u32) | ((b2 as u32) << 8u32) | (b3 as u32),
    ;
    r
}

/// An `i8` survives the trip through its byte.
pub proof fn lemma_i8_cast(v: i8)
    ensures
        (v as u8) as i8 == v,
{
    assert((v as u8) as i8 == v) by (bit_vector);
}

/// An `i16` survives the trip through its unsigned bits.
pub proof fn lemma_i16_cast(v: i16)
    ensures
        (v as u16) as i16 == v,
{
    assert((v as u16) as i16 == v) by (bit_vector);
}

/// An `i32` survives the trip through its unsigned bits.
pub proof fn lemma_i32_cast(v: i32)
    ensures
        (v as u32) as i32 == v,
{
    assert((v as u32) as i32 == v) by (bit_vector);
}

/// Big-endian bytes of the low 24 bits of a value.
pub open spec fn be24(v: u32) -> Seq<u8> {
    be32(v).subrange(1, 4)
}

/// The value of the big-endian 24-bit field at `off` of `s`.
pub open spec fn be24_at(s: Seq<u8>, off: int) -> u32 {
    from_be32(0, s[off], s[off + 1], s[off + 2])
}

/// Reading back the low three bytes of a value below 2^24 gives the value.
pub proof fn lemma_be24_round_trip(v: u32)
    requires
        v < 0x1000000,
    ensures
        from_be32(0, be24(v)[0], be24(v)[1], be24(v)[2]) == v,
{
    lemma_be32_round_trip(v);
    assert(be32(v)[0] == 0);
}

/// Writes the low 24 bits of `v` big-endian at `off`.
pub fn put_be24(buf: &mut [u8], off: usize, v: u32)
    requires
        off + 3 <= old(buf)@.len(),
    ensures
        final(buf)@ == splice(old(buf)@, off as int, be24(v)),
{
    let mut tmp = [0u8; 4];
    put_be32(&mut tmp, 0, v);
    buf[off] = tmp[1];
    buf[off + 1] = tmp[2];
    buf[off + 2] = tmp[3];
    assert(buf@ =~= splice(old(buf)@, off as int, be24(v)));
}

/// Reads the big-endian 24-bit field at `off`.
pub fn get_be24(data: &[u8], off: usize) -> (r: u32)
    requires
        off + 3 <= data@.len(),
    ensures
        r == be24_at(data@, off as int),
{
    let tmp = [0u8, data[off], data[off + 1], data[off + 2]];
    get_be32(&tmp, 0)
}

/// The two bytes of a 16-bit value, most significant first, make up the
/// value.
pub proof fn lemma_be16_bytes(v: u16)
    ensures
        be16(v).len() == 2,
        be16(v)[0] * 0x100 + be16(v)[1] == v,
{
    lemma_be16_round_trip(v);
    let b = be16(v);
    assert(0 <= b[0] * 0x100 + b[1] < 0x10000) by (nonlinear_arith)
        requires
            0 <= b[0] < 0x100,
            0 <= b[1] < 0x100,
    ;
}

/// The four bytes of a 32-bit value, most significant first, make up the
/// value.
pub proof fn lemma_be32_bytes(v: u32)
    ensures
        be32(v).len() == 4,
        be32(v)[0] * 0x1000000 + be32(v)[1] * 0x10000 + be32(v)[2] * 0x100 + be32(v)[3] == v,
{
    lemma_be32_round_trip(v);
    let b = be32(v);
    assert(0 <= b[0] * 0x1000000 + b[1] * 0x10000 + b[2] * 0x100 + b[3] < 0x100000000) by (nonlinear_arith)
        requires
            0 <= b[0] < 0x100,
            0 <= b[1] < 0x100,
            0 <= b[2] < 0x100,
            0 <= b[3] < 0x100,
    ;
}

/// The 16-bit field at `off` is its two bytes, most significant first.
pub proof fn lemma_be16_at_value(s: Seq<u8>, off: int)
    requires
        0 <= off,
        off + 2 <= s.len(),
    ensures
        be16_at(s, off) == s[off] * 0x100 + s[off + 1],
{
    let (b0, b1) = (s[off], s[off + 1]);
    assert(0 <= b0 * 0x100 + b1 < 0x10000) by (nonlinear_arith)
        requires
            0 <= b0 < 0x100,
            0 <= b1 < 0x100,
    ;
}

/// The 32-bit field at `off` is its four bytes, most significant first.
pub proof fn lemma_be32_at_value(s: Seq<u8>, off: int)
    requires
        0 <= off,
        off + 4 <= s.len(),
    ensures
        be32_at(s, off) == s[off] * 0x1000000 + s[off + 1] * 0x10000 + s[off + 2] * 0x100 + s[off + 3],
{
    let (b0, b1, b2, b3) = (s[off], s[off + 1], s[off + 2], s[off + 3]);
    assert(0 <= b0 * 0x1000000 + b1 * 0x10000 + b2 * 0x100 + b3 < 0x100000000) by (nonlinear_arith)
        requires
            0 <= b0 < 0x100,
            0 <= b1 < 0x100,
            0 <= b2 < 0x100,
            0 <= b3 < 0x100,
    ;
}

/// A byte read as a signed value keeps its bits.
pub proof fn lemma_u8_bits(b: u8)
    ensures
        (b as i8) as u8 == b,
{
    assert((b as i8) as u8 == b) by (bit_vector);
}

/// A 16-bit value read as signed keeps its bits.
pub proof fn lemma_u16_bits(v: u16)
    ensures
        (v as i16) as u16 == v,
{
    assert((v as i16) as u16 == v) by (bit_vector);
}

/// A 32-bit value read as signed keeps its bits.
pub proof fn lemma_u32_bits(v: u32)
    ensures
        (v as i32) as u32 == v,
{
    assert((v as i32) as u32 == v) by (bit_vector);
}

} // verus!
