//! Format primitives: sizes of the control and data regions.
use crate::format::{control_len, data_len};
use vstd::prelude::*;

verus! {

broadcast use vstd::layout::group_layout_axioms;

/// The one way decoding can fail.
#[derive(Debug, Clone, Copy, PartialEq, Eq, Structural)]
pub enum StreamVbyteError {
    /// Decoding would have read past the end of the input.
    DecodeOutOfBounds,
}

/// Largest possible encoded length for `n` values: all control bytes plus
/// four data bytes per value.
pub open spec fn max_len(n: nat) -> nat {
    control_len(n) + 4 * n
}

/// Maximum length of the compressed output where control bytes and data
/// bytes are combined into one vector.
pub fn max_compressed_len(input_len: usize) -> (len: usize)
    requires
        max_len(input_len as nat) <= usize::MAX,
    ensures
        len == max_len(input_len as nat),
{
    let max_data_bytes: usize = input_len * 4;
    control_bytes_len(input_len) + max_data_bytes
}

/// Exact number of control bytes in the compressed output: four values per
/// control byte, rounded up.
pub fn control_bytes_len(input_len: usize) -> (len: usize)
    ensures
        len == control_len(input_len as nat),
        len == (input_len + 3) / 4,
{
    if input_len % 4 == 0 {
        input_len / 4
    } else {
        input_len / 4 + 1
    }
}

/// Exact length in bytes of the data region for `input`, by one pass over it.
pub fn exact_compressed_len(input: &[u32]) -> (len: usize)
    ensures
        len == data_len(input@),
{
    // A slice's size in bytes fits in `usize`, so neither can the count of
    // its data bytes overflow: no value occupies more bytes than it has.
    let size_in_bytes: usize = core::mem::size_of_val(input);
    assert(size_in_bytes == 4 * input.len());
    let mut len: usize = 0;
    let mut i: usize = 0;
    while i < input.len()
        invariant
            i <= input.len(),
            4 * input.len() <= usize::MAX,
            len == data_len(input@.take(i as int)),
            len <= 4 * i,
        decreases input.len() - i,
    {
        let value: u32 = input[i];
        let t1: usize = if value > 0x0000_00ff { 1 } else { 0 };
        let t2: usize = if value > 0x0000_ffff { 1 } else { 0 };
        let t3: usize = if value > 0x00ff_ffff { 1 } else { 0 };
        proof {
            crate::format::lemma_data_region_step(input@, i as int);
        }
        len += t1 + t2 + t3 + 1;
        i += 1;
    }
    assert(input@.take(input.len() as int) == input@);
    len
}

} // verus!
