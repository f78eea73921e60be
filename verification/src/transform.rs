//! Transforms of the values on their way into and out of the codec: the
//! identity, and the zig-zag transform for values that hold signed numbers.
use crate::bits::lemma_zigzag_bits;
use vstd::prelude::*;

verus! {

/// A transform applied to every value right after it is decoded.
pub trait Decoder {
    /// What the transform maps a value to.
    spec fn spec_decode_1(x: u32) -> u32;

    /// Transforms the four values of a lane.
    fn simd_decode_4x32(data: [u32; 4]) -> (r: [u32; 4])
        ensures
            forall|i: int| 0 <= i < 4 ==> r[i] == Self::spec_decode_1(#[trigger] data[i]),
    ;

    /// Transforms one value.
    fn decode_1(x: u32) -> (r: u32)
        ensures
            r == Self::spec_decode_1(x),
    ;
}

/// The values of `values` after the transform of `D`.
pub open spec fn decode_all<D: Decoder>(values: Seq<u32>) -> Seq<u32> {
    Seq::new(values.len(), |i: int| D::spec_decode_1(values[i]))
}

/// The identity transform leaves every value as it is.
pub proof fn lemma_decode_all_identity(values: Seq<u32>)
    ensures
        decode_all::<NoDecode>(values) == values,
{
    assert(decode_all::<NoDecode>(values) =~= values);
}

/// The zig-zag decoding of a value: even values map to their half, odd
/// values to the complement of their half.
pub open spec fn zigzag_decode(x: u32) -> u32 {
    if x % 2 == 0 {
        (x / 2) as u32
    } else {
        (0xffff_ffff - x / 2) as u32
    }
}

/// The identity transform.
pub struct NoDecode;

impl Decoder for NoDecode {
    open spec fn spec_decode_1(x: u32) -> u32 {
        x
    }

    #[inline]
    fn simd_decode_4x32(data: [u32; 4]) -> (r: [u32; 4]) {
        data
    }

    #[inline]
    fn decode_1(x: u32) -> (r: u32) {
        x
    }
}

/// The zig-zag transform, which maps small unsigned values back to signed
/// values of small magnitude.
pub struct ZigZagDecode;

impl Decoder for ZigZagDecode {
    open spec fn spec_decode_1(x: u32) -> u32 {
        zigzag_decode(x)
    }

    #[inline]
    fn simd_decode_4x32(data: [u32; 4]) -> (r: [u32; 4]) {
        [
            Self::decode_1(data[0]),
            Self::decode_1(data[1]),
            Self::decode_1(data[2]),
            Self::decode_1(data[3]),
        ]
    }

    #[inline]
    fn decode_1(x: u32) -> (r: u32) {
        proof {
            lemma_zigzag_bits(x);
        }
        (x >> 1) ^ (0u32.wrapping_sub(x & 1))
    }
}

/// A transform applied to every value right before it is encoded.
pub trait Encoder {
    /// What the transform maps a value to.
    spec fn spec_encode_1(x: u32) -> u32;

    /// Transforms the four values of a lane.
    fn simd_encode_4x32(data: [u32; 4]) -> (r: [u32; 4])
        ensures
            r[0] == Self::spec_encode_1(data[0]),
            r[1] == Self::spec_encode_1(data[1]),
            r[2] == Self::spec_encode_1(data[2]),
            r[3] == Self::spec_encode_1(data[3]),
    ;

    /// Transforms one value.
    fn encode_1(x: u32) -> (r: u32)
        ensures
            r == Self::spec_encode_1(x),
    ;
}

/// The values of `values` after the transform of `E`.
pub open spec fn encode_all<E: Encoder>(values: Seq<u32>) -> Seq<u32> {
    Seq::new(values.len(), |i: int| E::spec_encode_1(values[i]))
}

/// The zig-zag encoding of a value that holds a signed number in two's
/// complement: a number that is not negative maps to its double, a negative
/// number to one less than the double of its magnitude.
pub open spec fn zigzag_encode(x: u32) -> u32 {
    if x < 0x8000_0000 {
        (2 * x) as u32
    } else {
        (0x1_ffff_ffff - 2 * x) as u32
    }
}

/// Zig-zag round trip: decoding undoes encoding, and encoding undoes
/// decoding.
pub proof fn lemma_zigzag_round_trip(x: u32)
    ensures
        zigzag_decode(zigzag_encode(x)) == x,
        zigzag_encode(zigzag_decode(x)) == x,
{
}

/// The identity transform.
pub struct NoEncode;

impl Encoder for NoEncode {
    open spec fn spec_encode_1(x: u32) -> u32 {
        x
    }

    #[inline]
    fn simd_encode_4x32(data: [u32; 4]) -> (r: [u32; 4]) {
        data
    }

    #[inline]
    fn encode_1(x: u32) -> (r: u32) {
        x
    }
}

/// The identity transform leaves every value as it is.
pub proof fn lemma_encode_all_identity(values: Seq<u32>)
    ensures
        encode_all::<NoEncode>(values) == values,
{
    assert(encode_all::<NoEncode>(values) =~= values);
}

/// The zig-zag transform, which maps signed values of small magnitude to
/// small unsigned values.
pub struct ZigZagEncode;

impl Encoder for ZigZagEncode {
    open spec fn spec_encode_1(x: u32) -> u32 {
        zigzag_encode(x)
    }

    #[inline]
    fn simd_encode_4x32(data: [u32; 4]) -> (r: [u32; 4]) {
        [
            Self::encode_1(data[0]),
            Self::encode_1(data[1]),
            Self::encode_1(data[2]),
            Self::encode_1(data[3]),
        ]
    }

    #[inline]
    fn encode_1(x: u32) -> (r: u32) {
        proof {
            lemma_zigzag_bits(x);
        }
        x.wrapping_add(x) ^ (0u32.wrapping_sub(x >> 31))
    }
}

} // verus!
