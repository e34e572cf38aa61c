//! A 16-bit unsigned integer in one or two bytes.
//!
//! A value below `0x80` is one byte. Any other value is two bytes: the first
//! holds its low 7 bits with the top bit set, the second holds bit 7 in its
//! bit 0 and bits 8 and up shifted left by one. Only values below `0x8000`
//! fit in those two bytes, so larger ones are refused.
use vstd::prelude::*;

use crate::codec::{Codec, CodecError};

verus! {

/// The largest value plus one that has a wire form.
pub const VARUINT_LIMIT: u16 = 0x8000;

/// Whether `x` has a wire form.
pub open spec fn varuint_encodable(x: u16) -> bool {
    x < VARUINT_LIMIT
}

/// The one or two bytes of `x`.
pub open spec fn varuint_wire(x: u16) -> Seq<u8> {
    if x < 0x80 {
        seq![x as u8]
    } else {
        seq![(0x80 + x % 0x80) as u8, (x / 0x80) as u8]
    }
}

/// The value at the front of `s` and the bytes it takes.
pub open spec fn varuint_parse(s: Seq<u8>) -> Result<(u16, nat), CodecError> {
    if s.len() == 0 {
        Err(CodecError::Truncated)
    } else if s[0] < 0x80 {
        Ok((s[0] as u16, 1))
    } else if s.len() < 2 {
        Err(CodecError::Truncated)
    } else {
        Ok(((s[0] % 0x80 + s[1] * 0x80) as u16, 2))
    }
}

/// Decoding the wire form of an encodable value, whatever bytes follow it,
/// gives the value back and consumes exactly the wire form.
pub proof fn lemma_varuint_round_trip(x: u16, tail: Seq<u8>)
    requires
        varuint_encodable(x),
    ensures
        varuint_parse(varuint_wire(x) + tail) == Ok::<(u16, nat), CodecError>(
            (x, varuint_wire(x).len()),
        ),
{
    let s = varuint_wire(x) + tail;
    if x >= 0x80 {
        assert((0x80 + x % 0x80) as u8 >= 0x80) by (bit_vector)
            requires
                x >= 0x80,
        ;
        assert(((0x80 + x % 0x80) as u8) % 0x80 + ((x / 0x80) as u8) * 0x80 == x) by (bit_vector)
            requires
                x < 0x8000,
        ;
    }
    assert(s[0] == varuint_wire(x)[0]);
}

/// An empty input, or a two-byte form cut after its first byte, is reported
/// as truncated.
pub proof fn lemma_varuint_truncated(s: Seq<u8>)
    requires
        s.len() == 0 || (s.len() == 1 && s[0] >= 0x80),
    ensures
        varuint_parse(s) == Err::<(u16, nat), CodecError>(CodecError::Truncated),
{
}

impl Codec for u16 {
    type Inner = u16;

    open spec fn well_formed(t: &u16) -> bool {
        true
    }

    open spec fn encodable(t: u16) -> bool {
        varuint_encodable(t)
    }

    open spec fn wire(t: u16) -> Seq<u8> {
        varuint_wire(t)
    }

    open spec fn parse(s: Seq<u8>) -> Result<(u16, nat), CodecError> {
        varuint_parse(s)
    }

    fn encode(t: &u16, v: &mut Vec<u8>) -> (r: Result<(), CodecError>) {
        let x: u16 = *t;
        if x >= VARUINT_LIMIT {
            return Err(CodecError::RangeExceeded);
        }
        if x < 0x80 {
            v.push(x as u8);
        } else {
            let lo: u8 = ((x & 0x7f) as u8) | 0x80;
            let hi: u8 = (x >> 7) as u8;
            assert(lo == 0x80 + x % 0x80 && hi == x / 0x80) by (bit_vector)
                requires
                    lo == ((x & 0x7f) as u8) | 0x80,
                    hi == (x >> 7) as u8,
                    x < 0x8000,
            ;
            v.push(lo);
            v.push(hi);
        }
        assert(v@ =~= old(v)@ + varuint_wire(x));
        Ok(())
    }

    fn decode(s: &[u8]) -> (r: Result<(u16, &[u8]), CodecError>) {
        if s.len() == 0 {
            return Err(CodecError::Truncated);
        }
        let first: u8 = s[0];
        if first & 0x80 == 0 {
            assert(first & 0x80 == 0 <==> first < 0x80) by (bit_vector);
            return Ok((first as u16, vstd::slice::slice_subrange(s, 1, s.len())));
        }
        assert(first & 0x80 != 0 <==> first >= 0x80) by (bit_vector);
        if s.len() < 2 {
            return Err(CodecError::Truncated);
        }
        let second: u8 = s[1];
        let lo: u16 = (first & 0x7f) as u16;
        let value: u16 = lo | ((second as u16) << 7);
        assert(value == first % 0x80 + second * 0x80) by (bit_vector)
            requires
                lo == (first & 0x7f) as u16,
                value == lo | ((second as u16) << 7),
        ;
        Ok((value, vstd::slice::slice_subrange(s, 2, s.len())))
    }

    open spec fn decodes_boxed() -> bool {
        false
    }

    fn decode_boxed(s: &[u8]) -> (r: Result<(Box<u16>, &[u8]), CodecError>) {
        Err(CodecError::Unsupported)
    }
}

} // verus!
