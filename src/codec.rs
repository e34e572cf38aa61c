//! The encode/decode contract shared by every wire type.
use vstd::prelude::*;

verus! {

/// Why an encode or a decode did not succeed.
#[derive(Clone, Copy, Debug, PartialEq, Eq, Structural)]
pub enum CodecError {
    /// A value lies outside the domain that its wire form can hold.
    RangeExceeded,
    /// Fewer bytes remain than a fixed-width field needs.
    Truncated,
    /// A discriminant byte names no known variant.
    UnknownTag,
    /// A known variant whose decoding is not provided.
    Unsupported,
}

/// A type with a wire form.
///
/// `wire` gives the bytes of a value, `encodable` says when encoding
/// succeeds, and `parse` says what a decoder makes of a byte sequence: the
/// value read and the number of bytes consumed, or the error.
pub trait Codec {
    type Inner: View;

    /// Holds of every value that a decoder may hand out.
    spec fn well_formed(t: &Self::Inner) -> bool;

    spec fn encodable(t: <Self::Inner as View>::V) -> bool;

    spec fn wire(t: <Self::Inner as View>::V) -> Seq<u8>;

    spec fn parse(s: Seq<u8>) -> Result<(<Self::Inner as View>::V, nat), CodecError>;

    /// Appends the wire form of `t` to `v`; when `t` has none, leaves `v`
    /// as it was and reports `RangeExceeded`.
    fn encode(t: &Self::Inner, v: &mut Vec<u8>) -> (r: Result<(), CodecError>)
        ensures
            Self::encodable(t@) ==> r is Ok && final(v)@ == old(v)@ + Self::wire(t@),
            !Self::encodable(t@) ==> r == Err::<(), CodecError>(CodecError::RangeExceeded)
                && final(v)@ == old(v)@,
    ;

    /// Reads one value from the front of `s`, and hands back the bytes that
    /// follow it.
    fn decode(s: &[u8]) -> (r: Result<(Self::Inner, &[u8]), CodecError>)
        ensures
            match Self::parse(s@) {
                Ok((m, n)) => {
                    &&& r is Ok
                    &&& r->Ok_0.0@ == m
                    &&& Self::well_formed(&r->Ok_0.0)
                    &&& n <= s@.len()
                    &&& r->Ok_0.1@ == s@.subrange(n as int, s@.len() as int)
                },
                Err(e) => r == Err::<(Self::Inner, &[u8]), CodecError>(e),
            },
    ;

    /// Whether `decode_boxed` decodes; a type for which it does not reports
    /// `Unsupported` there.
    spec fn decodes_boxed() -> bool;

    /// Reads one value from the front of `s` into a box, where the type
    /// provides it.
    fn decode_boxed(s: &[u8]) -> (r: Result<(Box<Self::Inner>, &[u8]), CodecError>)
        ensures
            !Self::decodes_boxed() ==> r == Err::<(Box<Self::Inner>, &[u8]), CodecError>(
                CodecError::Unsupported,
            ),
            Self::decodes_boxed() ==> match Self::parse(s@) {
                Ok((m, n)) => {
                    &&& r is Ok
                    &&& (*r->Ok_0.0)@ == m
                    &&& Self::well_formed(&*r->Ok_0.0)
                    &&& n <= s@.len()
                    &&& r->Ok_0.1@ == s@.subrange(n as int, s@.len() as int)
                },
                Err(e) => r == Err::<(Box<Self::Inner>, &[u8]), CodecError>(e),
            },
    ;
}

} // verus!
