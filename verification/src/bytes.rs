//! Little-endian byte encodings shared by the undo snapshot formats.

use vstd::prelude::*;

verus! {

/// Little-endian bytes of a 16-bit value.
pub open spec fn le16(v: u16) -> Seq<u8> {
    seq![(v % 0x100) as u8, (v / 0x100) as u8]
}

/// Little-endian bytes of a 32-bit value.
pub open spec fn le32(v: u32) -> Seq<u8> {
    seq![(v % 0x100) as u8, ((v / 0x100) % 0x100) as u8, ((v / 0x10000) % 0x100) as u8, (v / 0x1000000) as u8]
}

/// The 16-bit value stored little-endian at `b[off..off + 2]`.
pub open spec fn from_le16(b: Seq<u8>, off: int) -> u16 {
    (b[off] + 0x100 * b[off + 1]) as u16
}

/// The 32-bit value stored little-endian at `b[off..off + 4]`.
pub open spec fn from_le32(b: Seq<u8>, off: int) -> u32 {
    (b[off] + 0x100 * b[off + 1] + 0x10000 * b[off + 2] + 0x1000000 * b[off + 3]) as u32
}

/// Reading back a little-endian 16-bit value gives the value written.
pub proof fn lemma_le16_roundtrip(v: u16)
    ensures
        from_le16(le16(v), 0) == v,
{
    assert((v % 0x100) + 0x100 * (v / 0x100) == v) by (bit_vector);
}

/// Reading back a little-endian 32-bit value gives the value written.
pub proof fn lemma_le32_roundtrip(v: u32)
    ensures
        from_le32(le32(v), 0) == v,
{
    assert((v % 0x100) + 0x100 * ((v / 0x100) % 0x100) + 0x10000 * ((v / 0x10000) % 0x100) + 0x1000000 * (v
        / 0x1000000) == v) by (bit_vector);
}

/// Append the little-endian bytes of `v`.
pub fn push_le16(out: &mut Vec<u8>, v: u16)
    ensures
        final(out)@ == old(out)@ + le16(v),
{
    assert((v & 0xFF) as u8 == v % 0x100 && (v >> 8u16) as u8 == v / 0x100) by (bit_vector);
    let ghost before = out@;
    out.push((v & 0xFF) as u8);
    out.push((v >> 8u16) as u8);
    assert(out@ =~= before + le16(v));
}

/// Append the little-endian bytes of `v`.
pub fn push_le32(out: &mut Vec<u8>, v: u32)
    ensures
        final(out)@ == old(out)@ + le32(v),
{
    assert((v & 0xFF) as u8 == v % 0x100 && ((v >> 8u32) & 0xFF) as u8 == (v / 0x100) % 0x100 && ((v
        >> 16u32) & 0xFF) as u8 == (v / 0x10000) % 0x100 && (v >> 24u32) as u8 == v / 0x1000000)
        by (bit_vector);
    let ghost before = out@;
    out.push((v & 0xFF) as u8);
    out.push(((v >> 8u32) & 0xFF) as u8);
    out.push(((v >> 16u32) & 0xFF) as u8);
    out.push((v >> 24u32) as u8);
    assert(out@ =~= before + le32(v));
}

/// The little-endian 16-bit value at `bytes[off..off + 2]`.
pub fn read_le16(bytes: &[u8], off: usize) -> (v: u16)
    requires
        off + 2 <= bytes@.len(),
    ensures
        v == from_le16(bytes@, off as int),
{
    let b0 = bytes[off] as u16;
    let b1 = bytes[off + 1] as u16;
    assert(b0 < 256 && b1 < 256 ==> b0 | (b1 << 8u16) == b0 + 0x100 * b1) by (bit_vector);
    b0 | (b1 << 8u16)
}

/// The little-endian 32-bit value at `bytes[off..off + 4]`.
pub fn read_le32(bytes: &[u8], off: usize) -> (v: u32)
    requires
        off + 4 <= bytes@.len(),
    ensures
        v == from_le32(bytes@, off as int),
{
    let b0 = bytes[off] as u32;
    let b1 = bytes[off + 1] as u32;
    let b2 = bytes[off + 2] as u32;
    let b3 = bytes[off + 3] as u32;
    assert(b0 < 256 && b1 < 256 && b2 < 256 && b3 < 256 ==> b0 | (b1 << 8u32) | (b2 << 16u32) | (b3 << 24u32)
        == b0 + 0x100 * b1 + 0x10000 * b2 + 0x1000000 * b3) by (bit_vector);
    b0 | (b1 << 8u32) | (b2 << 16u32) | (b3 << 24u32)
}

} // verus!
