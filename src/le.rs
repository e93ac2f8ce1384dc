//! Little-endian integers inside byte sequences.

use vstd::prelude::*;

verus! {

/// The value of two little-endian bytes.
pub open spec fn le16(b0: u8, b1: u8) -> u16 {
    ((b0 as u16) | ((b1 as u16) << 8u16)) as u16
}

/// The value of four little-endian bytes.
pub open spec fn le32(b0: u8, b1: u8, b2: u8, b3: u8) -> u32 {
    ((b0 as u32) | ((b1 as u32) << 8u32) | ((b2 as u32) << 16u32) | ((b3 as u32) << 24u32)) as u32
}

/// The two little-endian bytes of `v`.
pub open spec fn u16_bytes(v: u16) -> Seq<u8> {
    seq![(v & 0xffu16) as u8, ((v >> 8u16) & 0xffu16) as u8]
}

/// The four little-endian bytes of `v`.
pub open spec fn u32_bytes(v: u32) -> Seq<u8> {
    seq![
        (v & 0xffu32) as u8,
        ((v >> 8u32) & 0xffu32) as u8,
        ((v >> 16u32) & 0xffu32) as u8,
        ((v >> 24u32) & 0xffu32) as u8,
    ]
}

/// The `u16` stored little-endian at `pos` in `s`.
pub open spec fn le16_at(s: Seq<u8>, pos: int) -> u16 {
    le16(s[pos], s[pos + 1])
}

/// The `u32` stored little-endian at `pos` in `s`.
pub open spec fn le32_at(s: Seq<u8>, pos: int) -> u32 {
    le32(s[pos], s[pos + 1], s[pos + 2], s[pos + 3])
}

pub proof fn lemma_le16_of_bytes(v: u16)
    ensures
        le16(u16_bytes(v)[0], u16_bytes(v)[1]) == v,
{
    assert(((v & 0xffu16) as u8 as u16) | ((((v >> 8u16) & 0xffu16) as u8 as u16) << 8u16) == v)
        by (bit_vector);
}

pub proof fn lemma_le32_of_bytes(v: u32)
    ensures
        le32(u32_bytes(v)[0], u32_bytes(v)[1], u32_bytes(v)[2], u32_bytes(v)[3]) == v,
{
    assert(((v & 0xffu32) as u8 as u32) | ((((v >> 8u32) & 0xffu32) as u8 as u32) << 8u32) | ((((
    v >> 16u32) & 0xffu32) as u8 as u32) << 16u32) | ((((v >> 24u32) & 0xffu32) as u8 as u32)
        << 24u32) == v) by (bit_vector);
}

/// Reads the little-endian `u16` at `pos`.
pub fn read_u16_le(s: &[u8], pos: usize) -> (r: u16)
    requires
        pos + 2 <= s@.len(),
    ensures
        r == le16_at(s@, pos as int),
{
    (s[pos] as u16) | ((s[pos + 1] as u16) << 8u16)
}

/// Reads the little-endian `u32` at `pos`.
pub fn read_u32_le(s: &[u8], pos: usize) -> (r: u32)
    requires
        pos + 4 <= s@.len(),
    ensures
        r == le32_at(s@, pos as int),
{
    (s[pos] as u32) | ((s[pos + 1] as u32) << 8u32) | ((s[pos + 2] as u32) << 16u32) | ((s[pos
        + 3] as u32) << 24u32)
}

/// Appends the two little-endian bytes of `v`.
pub fn push_u16_le(out: &mut Vec<u8>, v: u16)
    ensures
        final(out)@ == old(out)@ + u16_bytes(v),
{
    out.push((v & 0xff) as u8);
    out.push(((v >> 8u16) & 0xff) as u8);
    assert(final(out)@ =~= old(out)@ + u16_bytes(v));
}

/// Appends the four little-endian bytes of `v`.
pub fn push_u32_le(out: &mut Vec<u8>, v: u32)
    ensures
        final(out)@ == old(out)@ + u32_bytes(v),
{
    out.push((v & 0xff) as u8);
    out.push(((v >> 8u32) & 0xff) as u8);
    out.push(((v >> 16u32) & 0xff) as u8);
    out.push(((v >> 24u32) & 0xff) as u8);
}

} // verus!
