//! Little-endian byte layouts of fixed-width integers.
use vstd::prelude::*;

verus! {

/// The two bytes of `x`, least significant first.
pub open spec fn le_u16_bytes(x: u16) -> Seq<u8> {
    seq![(x % 0x100) as u8, (x / 0x100) as u8]
}

/// The `u16` whose bytes, least significant first, begin `b`.
pub open spec fn le_u16_value(b: Seq<u8>) -> u16
    recommends
        b.len() >= 2,
{
    (b[0] + b[1] * 0x100) as u16
}

/// The four bytes of `x`, least significant first.
pub open spec fn le_u32_bytes(x: u32) -> Seq<u8> {
    seq![
        (x % 0x100) as u8,
        (x / 0x100 % 0x100) as u8,
        (x / 0x10000 % 0x100) as u8,
        (x / 0x1000000) as u8,
    ]
}

/// The `u32` whose bytes, least significant first, begin `b`.
pub open spec fn le_u32_value(b: Seq<u8>) -> u32
    recommends
        b.len() >= 4,
{
    (b[0] + b[1] * 0x100 + b[2] * 0x10000 + b[3] * 0x1000000) as u32
}

/// Reading back the bytes of a `u16` gives the `u16`.
pub proof fn lemma_le_u16(x: u16)
    ensures
        le_u16_bytes(x).len() == 2,
        le_u16_value(le_u16_bytes(x)) == x,
{
    assert(x == x % 0x100 + (x / 0x100) * 0x100) by (bit_vector);
}

/// Reading back the bytes of a `u32` gives the `u32`.
pub proof fn lemma_le_u32(x: u32)
    ensures
        le_u32_bytes(x).len() == 4,
        le_u32_value(le_u32_bytes(x)) == x,
{
    assert(x == x % 0x100 + (x / 0x100 % 0x100) * 0x100 + (x / 0x10000 % 0x100) * 0x10000 + (x
        / 0x1000000) * 0x1000000) by (bit_vector);
}

/// Appends the two little-endian bytes of `x`.
pub fn push_le_u16(x: u16, v: &mut Vec<u8>)
    ensures
        final(v)@ == old(v)@ + le_u16_bytes(x),
{
    v.push((x % 0x100) as u8);
    v.push((x / 0x100) as u8);
    assert(v@ =~= old(v)@ + le_u16_bytes(x));
}

/// Appends the four little-endian bytes of `x`.
pub fn push_le_u32(x: u32, v: &mut Vec<u8>)
    ensures
        final(v)@ == old(v)@ + le_u32_bytes(x),
{
    v.push((x % 0x100) as u8);
    v.push((x / 0x100 % 0x100) as u8);
    v.push((x / 0x10000 % 0x100) as u8);
    v.push((x / 0x1000000) as u8);
    assert(v@ =~= old(v)@ + le_u32_bytes(x));
}

} // verus!
