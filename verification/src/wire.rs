//! Little-endian fixed-width integer encoding, the representation every
//! multi-byte field of the GUD wire structures uses.
use vstd::prelude::*;

verus! {

/// The two bytes of `v`, least significant first.
pub open spec fn le_u16_bytes(v: u16) -> Seq<u8> {
    seq![(v & 0xff) as u8, ((v >> 8u16) & 0xff) as u8]
}

/// The four bytes of `v`, least significant first.
pub open spec fn le_u32_bytes(v: u32) -> Seq<u8> {
    seq![
        (v & 0xff) as u8,
        ((v >> 8u32) & 0xff) as u8,
        ((v >> 16u32) & 0xff) as u8,
        ((v >> 24u32) & 0xff) as u8,
    ]
}

/// The `u16` stored least significant byte first at `off` in `b`.
pub open spec fn u16_at(b: Seq<u8>, off: int) -> u16 {
    (b[off] as u16) | ((b[off + 1] as u16) << 8u16)
}

/// The `u32` stored least significant byte first at `off` in `b`.
pub open spec fn u32_at(b: Seq<u8>, off: int) -> u32 {
    (b[off] as u32) | ((b[off + 1] as u32) << 8u32) | ((b[off + 2] as u32) << 16u32) | ((
    b[off + 3] as u32) << 24u32)
}

/// The bytes written for a `u16` are its base-256 digits, least significant
/// first.
pub proof fn lemma_le_u16_digits(v: u16)
    ensures
        le_u16_bytes(v).len() == 2,
        le_u16_bytes(v)[0] as int == v % 256,
        le_u16_bytes(v)[1] as int == v / 256,
{
    assert((v & 0xff) as u8 as int == v % 256 && ((v >> 8u16) & 0xff) as u8 as int == v / 256)
        by (bit_vector);
}

/// The bytes written for a `u32` are its base-256 digits, least significant
/// first.
pub proof fn lemma_le_u32_digits(v: u32)
    ensures
        le_u32_bytes(v).len() == 4,
        le_u32_bytes(v)[0] as int == v % 0x100,
        le_u32_bytes(v)[1] as int == (v / 0x100) % 0x100,
        le_u32_bytes(v)[2] as int == (v / 0x1_0000) % 0x100,
        le_u32_bytes(v)[3] as int == v / 0x100_0000,
{
    assert((v & 0xff) as u8 as int == v % 0x100 && ((v >> 8u32) & 0xff) as u8 as int == (v
        / 0x100) % 0x100 && ((v >> 16u32) & 0xff) as u8 as int == (v / 0x1_0000) % 0x100 && ((v
        >> 24u32) & 0xff) as u8 as int == v / 0x100_0000) by (bit_vector);
}

/// A `u16` read at `off` is the base-256 number of the two bytes there,
/// least significant first.
pub proof fn lemma_u16_at_value(b: Seq<u8>, off: int)
    requires
        0 <= off,
        off + 2 <= b.len(),
    ensures
        u16_at(b, off) as int == b[off] + 0x100 * b[off + 1],
{
    let b0 = b[off];
    let b1 = b[off + 1];
    assert(((b0 as u16) | ((b1 as u16) << 8u16)) as int == b0 + 0x100 * b1) by (bit_vector);
}

/// A `u32` read at `off` is the base-256 number of the four bytes there,
/// least significant first.
pub proof fn lemma_u32_at_value(b: Seq<u8>, off: int)
    requires
        0 <= off,
        off + 4 <= b.len(),
    ensures
        u32_at(b, off) as int == b[off] + 0x100 * b[off + 1] + 0x1_0000 * b[off + 2] + 0x100_0000
            * b[off + 3],
{
    let b0 = b[off];
    let b1 = b[off + 1];
    let b2 = b[off + 2];
    let b3 = b[off + 3];
    assert(((b0 as u32) | ((b1 as u32) << 8u32) | ((b2 as u32) << 16u32) | ((b3 as u32) << 24u32))
        as int == b0 + 0x100 * b1 + 0x1_0000 * b2 + 0x100_0000 * b3) by (bit_vector);
}

/// Reading back the two bytes written for `v` gives `v`.
pub proof fn lemma_u16_roundtrip(v: u16)
    ensures
        u16_at(le_u16_bytes(v), 0) == v,
{
    let b = le_u16_bytes(v);
    let b0 = b[0];
    let b1 = b[1];
    assert(b0 == (v & 0xff) as u8 && b1 == ((v >> 8u16) & 0xff) as u8);
    assert(b0 == (v & 0xff) as u8 && b1 == ((v >> 8u16) & 0xff) as u8 ==> ((b0 as u16) | ((
    b1 as u16) << 8u16)) == v) by (bit_vector);
}

/// Reading back the four bytes written for `v` gives `v`.
pub proof fn lemma_u32_roundtrip(v: u32)
    ensures
        u32_at(le_u32_bytes(v), 0) == v,
{
    let b = le_u32_bytes(v);
    let b0 = b[0];
    let b1 = b[1];
    let b2 = b[2];
    let b3 = b[3];
    assert(b0 == (v & 0xff) as u8 && b1 == ((v >> 8u32) & 0xff) as u8 && b2 == ((v >> 16u32)
        & 0xff) as u8 && b3 == ((v >> 24u32) & 0xff) as u8);
    assert(b0 == (v & 0xff) as u8 && b1 == ((v >> 8u32) & 0xff) as u8 && b2 == ((v >> 16u32)
        & 0xff) as u8 && b3 == ((v >> 24u32) & 0xff) as u8 ==> ((b0 as u32) | ((b1 as u32)
        << 8u32) | ((b2 as u32) << 16u32) | ((b3 as u32) << 24u32)) == v) by (bit_vector);
}

/// Appends the little-endian bytes of `v` to `out`.
pub fn push_u16_le(out: &mut Vec<u8>, v: u16)
    ensures
        final(out)@ == old(out)@ + le_u16_bytes(v),
{
    out.push((v & 0xff) as u8);
    out.push(((v >> 8u16) & 0xff) as u8);
    assert(out@ =~= old(out)@ + le_u16_bytes(v));
}

/// Appends the little-endian bytes of `v` to `out`.
pub fn push_u32_le(out: &mut Vec<u8>, v: u32)
    ensures
        final(out)@ == old(out)@ + le_u32_bytes(v),
{
    out.push((v & 0xff) as u8);
    out.push(((v >> 8u32) & 0xff) as u8);
    out.push(((v >> 16u32) & 0xff) as u8);
    out.push(((v >> 24u32) & 0xff) as u8);
    assert(out@ =~= old(out)@ + le_u32_bytes(v));
}

/// The little-endian `u32` at `off` in `b`.
pub fn read_u32_le(b: &[u8], off: usize) -> (r: u32)
    requires
        off + 4 <= b@.len(),
    ensures
        r == u32_at(b@, off as int),
{
    (b[off] as u32) | ((b[off + 1] as u32) << 8u32) | ((b[off + 2] as u32) << 16u32) | ((b[off
        + 3] as u32) << 24u32)
}

} // verus!
