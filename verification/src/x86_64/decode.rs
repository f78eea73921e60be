//! Lane decoder: one byte shuffle per control byte, with the scalar decoder
//! for the tail.
use crate::common::{control_bytes_len, StreamVbyteError};
use crate::format::{
    ctrl_code, decodable, decoded, group_offset, group_start, group_values, le_value,
    lemma_group_start, lemma_le_value_in_window, lemma_run_monotonic, lemma_run_split, values_at,
};
use crate::lanes::{load_bytes, shuffled, words_of_bytes, Portable, ShuffleLanes};
use crate::scalar::decode::{
    decode_unroll_inner_checked, decoding, lemma_decoded_in_two, lemma_decoding_done,
    lemma_decoding_group, lemma_decoding_start,
};
use crate::tables::len::group_length;
use crate::tables::shuffle::{
    decode_mask, decode_mask_byte, decode_shuffle_mask, gathered_byte, lemma_decode_mask_byte,
    lemma_decode_mask_gathers,
};
pub use crate::transform::{decode_all, Decoder, NoDecode, ZigZagDecode};
use vstd::prelude::*;

verus! {

/// Decodes `len` values from `input` into a fresh vector, on portable lanes.
pub fn decode_simd<D: Decoder>(len: usize, input: &[u8]) -> (res: Result<
    Vec<u32>,
    StreamVbyteError,
>)
    ensures
        decodable(len as nat, input@) ==> res is Ok && res->Ok_0@ == decode_all::<D>(
            decoded(len as nat, input@),
        ),
        !decodable(len as nat, input@) ==> res == Err::<Vec<u32>, StreamVbyteError>(
            StreamVbyteError::DecodeOutOfBounds,
        ),
        res is Ok ==> res->Ok_0.len() == len,
{
    decode_simd_on::<D, Portable>(len, input)
}

/// Decodes `len` values from `input` and appends them to `output`, on
/// portable lanes. On an error `output` is left as it was.
pub fn decode_into_simd<D: Decoder>(len: usize, input: &[u8], output: &mut Vec<u32>) -> (res:
    Result<(), StreamVbyteError>)
    ensures
        decodable(len as nat, input@) ==> res is Ok && final(output)@ == old(output)@
            + decode_all::<D>(decoded(len as nat, input@)),
        !decodable(len as nat, input@) ==> res == Err::<(), StreamVbyteError>(
            StreamVbyteError::DecodeOutOfBounds,
        ) && final(output)@ == old(output)@,
{
    decode_into_simd_on::<D, Portable>(len, input, output)
}

/// Decodes `len` values from `input` into a fresh vector, on the lanes `L`.
pub fn decode_simd_on<D: Decoder, L: ShuffleLanes>(len: usize, input: &[u8]) -> (res: Result<
    Vec<u32>,
    StreamVbyteError,
>)
    ensures
        decodable(len as nat, input@) ==> res is Ok && res->Ok_0@ == decode_all::<D>(
            decoded(len as nat, input@),
        ),
        !decodable(len as nat, input@) ==> res == Err::<Vec<u32>, StreamVbyteError>(
            StreamVbyteError::DecodeOutOfBounds,
        ),
        res is Ok ==> res->Ok_0.len() == len,
{
    let mut output: Vec<u32> = Vec::new();
    match decode_into_simd_on::<D, L>(len, input, &mut output) {
        Ok(()) => {
            assert(output@ =~= decode_all::<D>(decoded(len as nat, input@)));
            Ok(output)
        },
        Err(e) => Err(e),
    }
}

/// Decodes `len` values from `input` and appends them to `output`, on the
/// lanes `L`. On an error `output` is left as it was.
pub fn decode_into_simd_on<D: Decoder, L: ShuffleLanes>(
    len: usize,
    input: &[u8],
    output: &mut Vec<u32>,
) -> (res:
    Result<(), StreamVbyteError>)
    ensures
        decodable(len as nat, input@) ==> res is Ok && final(output)@ == old(output)@
            + decode_all::<D>(decoded(len as nat, input@)),
        !decodable(len as nat, input@) ==> res == Err::<(), StreamVbyteError>(
            StreamVbyteError::DecodeOutOfBounds,
        ) && final(output)@ == old(output)@,
{
    if len == 0 {
        assert(output@ =~= output@ + decode_all::<D>(decoded(0, input@)));
        return Ok(());
    }
    let old_len: usize = output.len();
    let num_controls: usize = control_bytes_len(len);
    if num_controls >= input.len() {
        return Err(StreamVbyteError::DecodeOutOfBounds);
    }
    // By now `len` is known to be at most four times the length of the
    // input, so this cannot ask for more than the input warrants.
    output.reserve(len);
    let mut control: usize = 0;
    let mut data: usize = num_controls;
    let mut remaining_len: usize = len;
    proof {
        lemma_decoding_start::<D>(output@, input@, 0, num_controls as int);
        lemma_decoding_done::<D>(output@, output@, input@, 0, num_controls as int, 0);
    }

    // A lane load reads 16 bytes at once, whatever the control byte says,
    // and one control byte accounts for between 4 and 16 of them. So the
    // lane loop leaves the last four control bytes, of which the last may be
    // partial, to the scalar decoder.
    if num_controls > 4 {
        let lane_controls: usize = num_controls - 4;
        let (new_data, ok) = decode_ssse3_worker_checked_unrolled::<D, L>(
            input,
            control,
            data,
            output,
            lane_controls,
        );
        if !ok {
            proof {
                lemma_group_start(input@, 0, num_controls as int, (lane_controls - 1) as nat);
                lemma_run_monotonic(input@, 0, (4 * (lane_controls - 1)) as nat, len as nat);
            }
            output.truncate(old_len);
            assert(output@ =~= old(output)@);
            return Err(StreamVbyteError::DecodeOutOfBounds);
        }
        data = new_data;
        control = lane_controls;
        remaining_len -= 4 * lane_controls;
    }
    let ghost lanes_out = output@;
    proof {
        lemma_group_start(input@, 0, num_controls as int, control as nat);
        lemma_run_split(input@, 0, (4 * control) as nat, remaining_len as nat);
    }
    // Decode the leftovers using the scalar decoder.
    let ok: bool = decode_unroll_inner_checked::<D>(input, control, data, output, remaining_len);
    if !ok {
        output.truncate(old_len);
        assert(output@ =~= old(output)@);
        return Err(StreamVbyteError::DecodeOutOfBounds);
    }
    proof {
        lemma_decoded_in_two::<D>(
            input@,
            len as nat,
            control as nat,
            data as int,
            old(output)@,
            lanes_out,
            output@,
        );
    }
    Ok(())
}

/// Decodes `num_controls` whole groups, one lane step each, as long as the
/// sixteen bytes at the data cursor are in bounds. The control bytes start at
/// index `control`, the data bytes at index `data`.
///
/// Returns the data cursor, and whether every group was decoded.
pub fn decode_ssse3_worker_checked_unrolled<D: Decoder, L: ShuffleLanes>(
    input: &[u8],
    control: usize,
    data: usize,
    output: &mut Vec<u32>,
    num_controls: usize,
) -> (res: (usize, bool))
    requires
        control + num_controls <= input.len(),
        data <= input.len(),
    ensures
        res.1 <==> (num_controls == 0 || group_start(
            input@,
            control as nat,
            data as int,
            (num_controls - 1) as nat,
        ) + 16 <= input.len()),
        res.1 ==> res.0 == group_start(
            input@,
            control as nat,
            data as int,
            num_controls as nat,
        ) && final(output)@ == old(output)@ + decode_all::<D>(
            values_at(input@, (4 * control) as nat, data as int, (4 * num_controls) as nat),
        ),
        data <= res.0 <= input.len(),
        old(output)@.is_prefix_of(final(output)@),
{
    let end: usize = input.len();
    let mut control_cursor: usize = control;
    let mut data_cursor: usize = data;
    let mut remaining: usize = num_controls;
    let ghost mut groups: nat = 0;
    proof {
        lemma_decoding_start::<D>(output@, input@, control as nat, data as int);
    }
    // Four control bytes per iteration, behind a single bounds test.
    while remaining >= 4
        invariant
            end == input.len(),
            control + num_controls <= end,
            remaining <= num_controls,
            groups == num_controls - remaining,
            control_cursor == control + groups,
            data <= data_cursor <= end,
            data_cursor == group_start(input@, control as nat, data as int, groups),
            groups > 0 ==> group_start(input@, control as nat, data as int, (groups - 1) as nat)
                + 16 <= end,
            decoding::<D>(
                output@,
                old(output)@,
                input@,
                control as nat,
                data as int,
                4 * groups,
            ),
        decreases remaining,
    {
        if end - data_cursor < 64 {
            break ;
        }
        let control1: u8 = input[control_cursor];
        let control2: u8 = input[control_cursor + 1];
        let control3: u8 = input[control_cursor + 2];
        let control4: u8 = input[control_cursor + 3];
        control_cursor += 4;
        remaining -= 4;

        data_cursor =
        lane_step::<D, L>(
            input,
            control,
            data,
            output,
            Ghost(old(output)@),
            Ghost(groups),
            data_cursor,
            control1,
        );
        proof {
            groups = groups + 1;
        }
        data_cursor =
        lane_step::<D, L>(
            input,
            control,
            data,
            output,
            Ghost(old(output)@),
            Ghost(groups),
            data_cursor,
            control2,
        );
        proof {
            groups = groups + 1;
        }
        data_cursor =
        lane_step::<D, L>(
            input,
            control,
            data,
            output,
            Ghost(old(output)@),
            Ghost(groups),
            data_cursor,
            control3,
        );
        proof {
            groups = groups + 1;
        }
        data_cursor =
        lane_step::<D, L>(
            input,
            control,
            data,
            output,
            Ghost(old(output)@),
            Ghost(groups),
            data_cursor,
            control4,
        );
        proof {
            groups = groups + 1;
        }
    }
    while remaining > 0
        invariant
            end == input.len(),
            control + num_controls <= end,
            remaining <= num_controls,
            groups == num_controls - remaining,
            control_cursor == control + groups,
            data <= data_cursor <= end,
            data_cursor == group_start(input@, control as nat, data as int, groups),
            groups > 0 ==> group_start(input@, control as nat, data as int, (groups - 1) as nat)
                + 16 <= end,
            decoding::<D>(
                output@,
                old(output)@,
                input@,
                control as nat,
                data as int,
                4 * groups,
            ),
        decreases remaining,
    {
        let control_byte: u8 = input[control_cursor];
        if end - data_cursor < 16 {
            proof {
                lemma_group_start(input@, control as nat, data as int, groups);
                lemma_group_start(
                    input@,
                    control as nat,
                    data as int,
                    (num_controls - 1) as nat,
                );
                lemma_run_monotonic(
                    input@,
                    (4 * control) as nat,
                    4 * groups,
                    (4 * (num_controls - 1)) as nat,
                );
                lemma_decoding_done::<D>(
                    output@,
                    old(output)@,
                    input@,
                    control as nat,
                    data as int,
                    4 * groups,
                );
            }
            return (data_cursor, false);
        }
        control_cursor += 1;
        remaining -= 1;
        data_cursor =
        lane_step::<D, L>(
            input,
            control,
            data,
            output,
            Ghost(old(output)@),
            Ghost(groups),
            data_cursor,
            control_byte,
        );
        proof {
            groups = groups + 1;
        }
    }
    proof {
        lemma_decoding_done::<D>(
            output@,
            old(output)@,
            input@,
            control as nat,
            data as int,
            4 * groups,
        );
    }
    (data_cursor, true)
}

/// One lane step of the worker, for group `groups` of the worker's groups.
fn lane_step<D: Decoder, L: ShuffleLanes>(
    input: &[u8],
    control: usize,
    data: usize,
    output: &mut Vec<u32>,
    Ghost(base): Ghost<Seq<u32>>,
    Ghost(groups): Ghost<nat>,
    data_cursor: usize,
    control_byte: u8,
) -> (next: usize)
    requires
        control + groups < input.len(),
        control_byte == input@[control + groups],
        data_cursor == group_start(input@, control as nat, data as int, groups),
        data_cursor + 16 <= input.len(),
        decoding::<D>(old(output)@, base, input@, control as nat, data as int, 4 * groups),
    ensures
        next == group_start(input@, control as nat, data as int, groups + 1),
        data_cursor + 4 <= next <= data_cursor + 16,
        decoding::<D>(final(output)@, base, input@, control as nat, data as int, 4 * groups + 4),
{
    let ghost before = output@;
    let next: usize = step_simd::<D, L>(control_byte, input, data_cursor, output);
    proof {
        lemma_decoding_group::<D>(
            before,
            output@,
            base,
            input@,
            control as nat,
            data as int,
            groups,
        );
    }
    next
}

/// A lane of sixteen data bytes shuffled by the decode mask of a control byte
/// holds the value that the control byte describes for that lane.
pub proof fn lemma_shuffled_lane(input: Seq<u8>, data: int, control: u8, lanes: Seq<u8>, s: int)
    requires
        0 <= data,
        data + 16 <= input.len(),
        0 <= s < 4,
        lanes == shuffled(input.subrange(data, data + 16), decode_mask(control)),
    ensures
        le_value(lanes, 4 * s, 4) == group_values(input, data, control)[s],
{
    let encoded = input.subrange(data, data + 16);
    assert forall|i: int| 0 <= i < 16 implies #[trigger] lanes[i] == gathered_byte(
        encoded,
        decode_mask_byte(control, i),
    ) by {
        lemma_decode_mask_byte(control, i);
    }
    lemma_decode_mask_gathers(encoded, control, lanes, s);
    lemma_le_value_in_window(
        input,
        data,
        group_offset(control, s) as int,
        ctrl_code(control, s) + 1,
    );
}

/// One lane step: loads sixteen data bytes at `data`, gathers the four values
/// of the group with the decode mask of `control`, and appends them to
/// `output` after the transform of `D`. Returns the data cursor behind the
/// group.
pub fn step_simd<D: Decoder, L: ShuffleLanes>(
    control: u8,
    input: &[u8],
    data: usize,
    output: &mut Vec<u32>,
) -> (next: usize)
    requires
        data + 16 <= input.len(),
    ensures
        next == data + group_offset(control, 4),
        next <= input.len(),
        final(output)@ == old(output)@ + decode_all::<D>(
            group_values(input@, data as int, control),
        ),
{
    let encoded: [u8; 16] = load_bytes(input, data);
    let mask: [u8; 16] = decode_shuffle_mask(control);
    let shuffled: [u8; 16] = L::shuffle_bytes(&encoded, &mask);
    let words: [u32; 4] = words_of_bytes(&shuffled);
    let decoded: [u32; 4] = D::simd_decode_4x32(words);
    proof {
        lemma_shuffled_lane(input@, data as int, control, shuffled@, 0);
        lemma_shuffled_lane(input@, data as int, control, shuffled@, 1);
        lemma_shuffled_lane(input@, data as int, control, shuffled@, 2);
        lemma_shuffled_lane(input@, data as int, control, shuffled@, 3);
    }
    assert(decoded@[0] == D::spec_decode_1(words@[0]));
    assert(decoded@[1] == D::spec_decode_1(words@[1]));
    assert(decoded@[2] == D::spec_decode_1(words@[2]));
    assert(decoded@[3] == D::spec_decode_1(words@[3]));
    let bytes_consumed: usize = group_length(control);
    output.push(decoded[0]);
    output.push(decoded[1]);
    output.push(decoded[2]);
    output.push(decoded[3]);
    assert(output@ =~= old(output)@ + decode_all::<D>(group_values(input@, data as int, control)));
    data + bytes_consumed
}

} // verus!
