//! Stream VByte: a codec for sequences of `u32` values.
//!
//! Every value is stored in the fewest bytes that hold it, one to four, and a
//! 2-bit code per value records how many. The codes are packed four to a
//! control byte; an encoded buffer is all control bytes followed by all data
//! bytes. The number of values is not part of the buffer: the caller keeps
//! it and hands it back to decode.
//!
//! [`format`] defines the encoded form and proves what holds of it: that
//! decoding undoes encoding, how long an encoded buffer is, and that a count
//! that is too large is found out.
//!
//! [`scalar`] is the codec that works value by value, and [`encode`] and
//! [`decode`] are its entry points. [`x86_64`] and [`aarch64`] are the codec
//! on sixteen-byte lanes, in its byte-shuffle form and in its table-lookup
//! form, driven by the lookup tables of [`tables`]; [`simd`] names the lane
//! codec on the portable lanes of [`lanes`]. [`safe`] is a plain codec to
//! hold the others against. All of them are proved to produce the bytes and
//! the values that [`format`] defines, so they agree byte for byte.
pub mod aarch64;
pub mod bits;
pub mod common;
pub mod format;
pub mod lanes;
pub mod safe;
pub mod scalar;
pub mod simd;
pub mod tables;
pub mod transform;
pub mod x86_64;

pub use crate::common::{
    control_bytes_len, exact_compressed_len, max_compressed_len, StreamVbyteError,
};

use crate::common::max_len;
use crate::format::{control_len, data_len, decodable, decoded, encoded};
use vstd::prelude::*;

verus! {

/// Encodes a slice of `u32` values into a single byte vector.
///
/// Returns the number of values and the encoded bytes. Both must be given to
/// [`decode`] to get the values back.
pub fn encode(values: &[u32]) -> (res: (usize, Vec<u8>))
    ensures
        res.0 == values.len(),
        res.1@ == encoded(values@),
        res.1.len() == control_len(values.len() as nat) + data_len(values@),
        res.1.len() <= max_len(values.len() as nat),
{
    crate::scalar::encode::encode(values)
}

/// Decodes bytes produced by [`encode`] into the original `u32` values.
///
/// `len` is the number of values that were encoded. Returns an error if
/// decoding `len` values would read outside of `input`. If successful, the
/// result holds exactly `len` values.
pub fn decode(len: usize, input: &[u8]) -> (res: Result<Vec<u32>, StreamVbyteError>)
    ensures
        decodable(len as nat, input@) ==> res is Ok && res->Ok_0@ == decoded(
            len as nat,
            input@,
        ),
        !decodable(len as nat, input@) ==> res == Err::<Vec<u32>, StreamVbyteError>(
            StreamVbyteError::DecodeOutOfBounds,
        ),
        res is Ok ==> res->Ok_0.len() == len,
{
    crate::scalar::decode::decode(len, input)
}

} // verus!
