//! The codec on sixteen-byte lanes, under the names of the top-level
//! functions, with variants that append to a vector of the caller and
//! variants that apply the zig-zag transform.
use crate::common::{max_len, StreamVbyteError};
use crate::format::{
    control_len, data_len, decodable, decoded, encoded, lemma_encoded_len, lemma_round_trip,
};
use crate::transform::{
    decode_all, encode_all, lemma_decode_all_identity, lemma_encode_all_identity,
    lemma_zigzag_round_trip, NoDecode, NoEncode, ZigZagDecode, ZigZagEncode,
};
use vstd::prelude::*;

verus! {

/// Decodes `len` values from `input` into a fresh vector.
pub fn decode(len: usize, input: &[u8]) -> (res: Result<Vec<u32>, StreamVbyteError>)
    ensures
        decodable(len as nat, input@) ==> res is Ok && res->Ok_0@ == decoded(
            len as nat,
            input@,
        ),
        !decodable(len as nat, input@) ==> res == Err::<Vec<u32>, StreamVbyteError>(
            StreamVbyteError::DecodeOutOfBounds,
        ),
        res is Ok ==> res->Ok_0.len() == len,
{
    let res = crate::x86_64::decode::decode_simd::<NoDecode>(len, input);
    proof {
        lemma_decode_all_identity(decoded(len as nat, input@));
    }
    res
}

/// Decodes `len` values from `input` and appends them to `output`. On an
/// error `output` is left as it was.
pub fn decode_into(len: usize, input: &[u8], output: &mut Vec<u32>) -> (res: Result<
    (),
    StreamVbyteError,
>)
    ensures
        decodable(len as nat, input@) ==> res is Ok && final(output)@ == old(output)@ + decoded(
            len as nat,
            input@,
        ),
        !decodable(len as nat, input@) ==> res == Err::<(), StreamVbyteError>(
            StreamVbyteError::DecodeOutOfBounds,
        ) && final(output)@ == old(output)@,
{
    let res = crate::x86_64::decode::decode_into_simd::<NoDecode>(len, input, output);
    proof {
        lemma_decode_all_identity(decoded(len as nat, input@));
    }
    res
}

/// Decodes `len` values from `input`, undoes the zig-zag transform on each,
/// and appends them to `output`. On an error `output` is left as it was.
pub fn zigzag_decode_into(len: usize, input: &[u8], output: &mut Vec<u32>) -> (res: Result<
    (),
    StreamVbyteError,
>)
    ensures
        decodable(len as nat, input@) ==> res is Ok && final(output)@ == old(output)@
            + decode_all::<ZigZagDecode>(decoded(len as nat, input@)),
        !decodable(len as nat, input@) ==> res == Err::<(), StreamVbyteError>(
            StreamVbyteError::DecodeOutOfBounds,
        ) && final(output)@ == old(output)@,
{
    crate::x86_64::decode::decode_into_simd::<ZigZagDecode>(len, input, output)
}

/// Encodes `input` into a fresh buffer. Returns the number of values and the
/// encoded bytes.
pub fn encode(input: &[u32]) -> (res: (usize, Vec<u8>))
    ensures
        res.0 == input.len(),
        res.1@ == encoded(input@),
        res.1.len() == control_len(input.len() as nat) + data_len(input@),
        res.1.len() <= max_len(input.len() as nat),
{
    proof {
        lemma_encode_all_identity(input@);
        lemma_encoded_len(input@);
    }
    crate::x86_64::encode::encode_simd::<NoEncode>(input)
}

/// Encodes `input` and appends the encoded bytes to `output`. Returns the
/// number of values.
pub fn encode_into(input: &[u32], output: &mut Vec<u8>) -> (items: usize)
    ensures
        items == input.len(),
        final(output)@ == old(output)@ + encoded(input@),
{
    proof {
        lemma_encode_all_identity(input@);
    }
    crate::x86_64::encode::encode_into_simd::<NoEncode>(input, output)
}

/// Applies the zig-zag transform to every value of `input`, encodes the
/// results and appends the encoded bytes to `output`. Returns the number of
/// values.
pub fn zigzag_encode_into(input: &[u32], output: &mut Vec<u8>) -> (items: usize)
    ensures
        items == input.len(),
        final(output)@ == old(output)@ + encoded(encode_all::<ZigZagEncode>(input@)),
{
    crate::x86_64::encode::encode_into_simd::<ZigZagEncode>(input, output)
}

/// Implementation equivalence: the lane codecs are specified by the encoded
/// form and the decoded values of the format, as the scalar codec is. With
/// the identity transform they produce the bytes and the values that the
/// scalar codec produces.
pub proof fn lemma_lane_codec_is_scalar_codec(values: Seq<u32>, n: nat, bytes: Seq<u8>)
    ensures
        encoded(encode_all::<NoEncode>(values)) == encoded(values),
        decode_all::<NoDecode>(decoded(n, bytes)) == decoded(n, bytes),
{
    lemma_encode_all_identity(values);
    lemma_decode_all_identity(decoded(n, bytes));
}

/// Zig-zag round trip: what `zigzag_encode_into` appends for `values`,
/// decoded with their count by `zigzag_decode_into`, is `values` again.
pub proof fn lemma_zigzag_codec_round_trip(values: Seq<u32>)
    ensures
        decodable(values.len(), encoded(encode_all::<ZigZagEncode>(values))),
        decode_all::<ZigZagDecode>(
            decoded(values.len(), encoded(encode_all::<ZigZagEncode>(values))),
        ) == values,
{
    let zigzagged = encode_all::<ZigZagEncode>(values);
    lemma_round_trip(zigzagged);
    assert forall|i: int| 0 <= i < values.len() implies decode_all::<ZigZagDecode>(zigzagged)[i]
        == values[i] by {
        lemma_zigzag_round_trip(values[i]);
    }
    assert(decode_all::<ZigZagDecode>(zigzagged) =~= values);
}

} // verus!
