//! Lane decoder: one table lookup per control byte, with the scalar decoder
//! for the tail.
use crate::common::{control_bytes_len, StreamVbyteError};
use crate::format::{
    ctrl_code, decodable, decoded, group_offset, group_start, group_values, le_value,
    lemma_group_start, lemma_le_value_in_window, lemma_run_monotonic, lemma_run_split, values_at,
};
use crate::lanes::{load_bytes, looked_up, words_of_bytes, LookupLanes, Portable};
use crate::scalar::decode::{
    decode_unroll_inner_checked, decoding, lemma_decoded_in_two, lemma_decoding_done,
    lemma_decoding_group, lemma_decoding_start,
};
use crate::tables::len::group_length;
use crate::tables::shuffle::{
    decode_mask, decode_mask_byte, decode_shuffle_mask, gathered_byte, lemma_decode_mask_byte,
    lemma_decode_mask_gathers,
};
use crate::transform::{decode_all, lemma_decode_all_identity, NoDecode};
use vstd::prelude::*;

verus! {

/// Decodes `len` values from `input` into a fresh vector, on portable lanes.
///
/// Fails when the control bytes for `len` values do not leave a byte of data
/// in `input`, or when a value would have to be read past the end of `input`.
pub fn decode_simd(len: usize, input: &[u8]) -> (res: Result<Vec<u32>, StreamVbyteError>)
    ensures
        decodable(len as nat, input@) ==> res is Ok && res->Ok_0@ == decoded(
            len as nat,
            input@,
        ),
        !decodable(len as nat, input@) ==> res == Err::<Vec<u32>, StreamVbyteError>(
            StreamVbyteError::DecodeOutOfBounds,
        ),
        res is Ok ==> res->Ok_0.len() == len,
{
    decode_simd_on::<Portable>(len, input)
}

/// Decodes `len` values from `input` into a fresh vector, on the lanes `L`.
pub fn decode_simd_on<L: LookupLanes>(len: usize, input: &[u8]) -> (res: Result<
    Vec<u32>,
    StreamVbyteError,
>)
    ensures
        decodable(len as nat, input@) ==> res is Ok && res->Ok_0@ == decoded(
            len as nat,
            input@,
        ),
        !decodable(len as nat, input@) ==> res == Err::<Vec<u32>, StreamVbyteError>(
            StreamVbyteError::DecodeOutOfBounds,
        ),
        res is Ok ==> res->Ok_0.len() == len,
{
    if len == 0 {
        assert(decoded(0, input@) =~= Seq::<u32>::empty());
        return Ok(Vec::new());
    }
    let num_controls: usize = control_bytes_len(len);
    if num_controls >= input.len() {
        return Err(StreamVbyteError::DecodeOutOfBounds);
    }
    let mut control: usize = 0;
    let mut data: usize = num_controls;
    let mut result: Vec<u32> = Vec::with_capacity(len);
    let mut remaining_len: usize = len;
    proof {
        lemma_decode_all_identity(values_at(input@, 0, num_controls as int, 0));
        assert(result@ =~= result@ + values_at(input@, 0, num_controls as int, 0));
    }

    // A lane load reads 16 bytes at once. At least the first 4 of them
    // belong to the current control byte, if it is a full one, but the other
    // 12 may not. So that a load never reads past the end of the data, the
    // lane loop leaves 3 full control bytes and 1 that may be partial to the
    // scalar decoder.
    if num_controls > 4 {
        let lane_controls: usize = num_controls - 4;
        let (new_data, ok) = decode_neon_worker_checked_unrolled::<L>(
            input,
            control,
            data,
            &mut result,
            lane_controls,
        );
        if !ok {
            proof {
                lemma_group_start(input@, 0, num_controls as int, (lane_controls - 1) as nat);
                lemma_run_monotonic(input@, 0, (4 * (lane_controls - 1)) as nat, len as nat);
            }
            return Err(StreamVbyteError::DecodeOutOfBounds);
        }
        data = new_data;
        control = lane_controls;
        remaining_len -= 4 * lane_controls;
    }
    let ghost lanes_out = result@;
    proof {
        lemma_group_start(input@, 0, num_controls as int, control as nat);
        lemma_run_split(input@, 0, (4 * control) as nat, remaining_len as nat);
        lemma_decode_all_identity(values_at(input@, 0, num_controls as int, (4 * control) as nat));
    }
    // Decode the leftovers using the scalar decoder.
    let ok: bool = decode_unroll_inner_checked::<NoDecode>(
        input,
        control,
        data,
        &mut result,
        remaining_len,
    );
    if !ok {
        return Err(StreamVbyteError::DecodeOutOfBounds);
    }
    proof {
        lemma_decoded_in_two::<NoDecode>(
            input@,
            len as nat,
            control as nat,
            data as int,
            Seq::<u32>::empty(),
            lanes_out,
            result@,
        );
        lemma_decode_all_identity(decoded(len as nat, input@));
        assert(result@ =~= decoded(len as nat, input@));
    }
    Ok(result)
}

/// Decodes `num_controls` whole groups, one lane step each, as long as the
/// sixteen bytes at the data cursor are in bounds. The control bytes start at
/// index `control`, the data bytes at index `data`.
///
/// Returns the data cursor, and whether every group was decoded.
pub fn decode_neon_worker_checked_unrolled<L: LookupLanes>(
    input: &[u8],
    control: usize,
    data: usize,
    output: &mut Vec<u32>,
    num_controls: usize,
) -> (res: (usize, bool))
    requires
        control + num_controls <= input.len(),
        data <= input.len(),
    ensures
        res.1 <==> (num_controls == 0 || group_start(
            input@,
            control as nat,
            data as int,
            (num_controls - 1) as nat,
        ) + 16 <= input.len()),
        res.1 ==> res.0 == group_start(
            input@,
            control as nat,
            data as int,
            num_controls as nat,
        ) && final(output)@ == old(output)@ + values_at(
            input@,
            (4 * control) as nat,
            data as int,
            (4 * num_controls) as nat,
        ),
        data <= res.0 <= input.len(),
        old(output)@.is_prefix_of(final(output)@),
{
    let end: usize = input.len();
    let mut control_cursor: usize = control;
    let mut data_cursor: usize = data;
    let mut remaining: usize = num_controls;
    let ghost mut groups: nat = 0;
    proof {
        lemma_decoding_start::<NoDecode>(output@, input@, control as nat, data as int);
    }
    // Four control bytes per iteration, behind a single bounds test.
    while remaining >= 4
        invariant
            end == input.len(),
            control + num_controls <= end,
            remaining <= num_controls,
            groups == num_controls - remaining,
            control_cursor == control + groups,
            data <= data_cursor <= end,
            data_cursor == group_start(input@, control as nat, data as int, groups),
            groups > 0 ==> group_start(input@, control as nat, data as int, (groups - 1) as nat)
                + 16 <= end,
            decoding::<NoDecode>(
                output@,
                old(output)@,
                input@,
                control as nat,
                data as int,
                4 * groups,
            ),
        decreases remaining,
    {
        if end - data_cursor < 64 {
            break ;
        }
        let control1: u8 = input[control_cursor];
        let control2: u8 = input[control_cursor + 1];
        let control3: u8 = input[control_cursor + 2];
        let control4: u8 = input[control_cursor + 3];
        control_cursor += 4;
        remaining -= 4;

        data_cursor =
        lane_step::<L>(
            input,
            control,
            data,
            output,
            Ghost(old(output)@),
            Ghost(groups),
            data_cursor,
            control1,
        );
        proof {
            groups = groups + 1;
        }
        data_cursor =
        lane_step::<L>(
            input,
            control,
            data,
            output,
            Ghost(old(output)@),
            Ghost(groups),
            data_cursor,
            control2,
        );
        proof {
            groups = groups + 1;
        }
        data_cursor =
        lane_step::<L>(
            input,
            control,
            data,
            output,
            Ghost(old(output)@),
            Ghost(groups),
            data_cursor,
            control3,
        );
        proof {
            groups = groups + 1;
        }
        data_cursor =
        lane_step::<L>(
            input,
            control,
            data,
            output,
            Ghost(old(output)@),
            Ghost(groups),
            data_cursor,
            control4,
        );
        proof {
            groups = groups + 1;
        }
    }
    while remaining > 0
        invariant
            end == input.len(),
            control + num_controls <= end,
            remaining <= num_controls,
            groups == num_controls - remaining,
            control_cursor == control + groups,
            data <= data_cursor <= end,
            data_cursor == group_start(input@, control as nat, data as int, groups),
            groups > 0 ==> group_start(input@, control as nat, data as int, (groups - 1) as nat)
                + 16 <= end,
            decoding::<NoDecode>(
                output@,
                old(output)@,
                input@,
                control as nat,
                data as int,
                4 * groups,
            ),
        decreases remaining,
    {
        let control_byte: u8 = input[control_cursor];
        if end - data_cursor < 16 {
            proof {
                lemma_group_start(input@, control as nat, data as int, groups);
                lemma_group_start(
                    input@,
                    control as nat,
                    data as int,
                    (num_controls - 1) as nat,
                );
                lemma_run_monotonic(
                    input@,
                    (4 * control) as nat,
                    4 * groups,
                    (4 * (num_controls - 1)) as nat,
                );
                lemma_decoding_done::<NoDecode>(
                    output@,
                    old(output)@,
                    input@,
                    control as nat,
                    data as int,
                    4 * groups,
                );
            }
            return (data_cursor, false);
        }
        control_cursor += 1;
        remaining -= 1;
        data_cursor =
        lane_step::<L>(
            input,
            control,
            data,
            output,
            Ghost(old(output)@),
            Ghost(groups),
            data_cursor,
            control_byte,
        );
        proof {
            groups = groups + 1;
        }
    }
    proof {
        lemma_decoding_done::<NoDecode>(
            output@,
            old(output)@,
            input@,
            control as nat,
            data as int,
            4 * groups,
        );
        lemma_decode_all_identity(
            values_at(input@, (4 * control) as nat, data as int, (4 * num_controls) as nat),
        );
    }
    (data_cursor, true)
}

/// One lane step of the worker, for group `groups` of the worker's groups.
fn lane_step<L: LookupLanes>(
    input: &[u8],
    control: usize,
    data: usize,
    output: &mut Vec<u32>,
    Ghost(base): Ghost<Seq<u32>>,
    Ghost(groups): Ghost<nat>,
    data_cursor: usize,
    control_byte: u8,
) -> (next: usize)
    requires
        control + groups < input.len(),
        control_byte == input@[control + groups],
        data_cursor == group_start(input@, control as nat, data as int, groups),
        data_cursor + 16 <= input.len(),
        decoding::<NoDecode>(
            old(output)@,
            base,
            input@,
            control as nat,
            data as int,
            4 * groups,
        ),
    ensures
        next == group_start(input@, control as nat, data as int, groups + 1),
        data_cursor + 4 <= next <= data_cursor + 16,
        decoding::<NoDecode>(
            final(output)@,
            base,
            input@,
            control as nat,
            data as int,
            4 * groups + 4,
        ),
{
    let ghost before = output@;
    let next: usize = step_simd_on::<L>(control_byte, input, data_cursor, output);
    proof {
        lemma_decoding_group::<NoDecode>(
            before,
            output@,
            base,
            input@,
            control as nat,
            data as int,
            groups,
        );
    }
    next
}

/// A lane of sixteen data bytes looked up by the decode mask of a control
/// byte holds the value that the control byte describes for that lane.
pub proof fn lemma_looked_up_lane(
    input: Seq<u8>,
    data: int,
    control: u8,
    lanes: Seq<u8>,
    s: int,
)
    requires
        0 <= data,
        data + 16 <= input.len(),
        0 <= s < 4,
        lanes == looked_up(input.subrange(data, data + 16), decode_mask(control)),
    ensures
        le_value(lanes, 4 * s, 4) == group_values(input, data, control)[s],
{
    let encoded = input.subrange(data, data + 16);
    assert forall|i: int| 0 <= i < 16 implies #[trigger] lanes[i] == gathered_byte(
        encoded,
        decode_mask_byte(control, i),
    ) by {
        lemma_decode_mask_byte(control, i);
    }
    lemma_decode_mask_gathers(encoded, control, lanes, s);
    lemma_le_value_in_window(
        input,
        data,
        group_offset(control, s) as int,
        ctrl_code(control, s) + 1,
    );
}

/// One lane step on portable lanes: loads sixteen data bytes at `data`,
/// gathers the four values of the group with the decode mask of `control`,
/// and appends them to `output`. Returns the data cursor behind the group.
pub fn step_simd(control: u8, input: &[u8], data: usize, output: &mut Vec<u32>) -> (next: usize)
    requires
        data + 16 <= input.len(),
    ensures
        next == data + group_offset(control, 4),
        next <= input.len(),
        final(output)@ == old(output)@ + group_values(input@, data as int, control),
{
    step_simd_on::<Portable>(control, input, data, output)
}

/// One lane step on the lanes `L`: loads sixteen data bytes at `data`, gathers the four values
/// of the group with the decode mask of `control`, and appends them to
/// `output`. Returns the data cursor behind the group.
pub fn step_simd_on<L: LookupLanes>(
    control: u8,
    input: &[u8],
    data: usize,
    output: &mut Vec<u32>,
) -> (next: usize)
    requires
        data + 16 <= input.len(),
    ensures
        next == data + group_offset(control, 4),
        next <= input.len(),
        final(output)@ == old(output)@ + group_values(input@, data as int, control),
        final(output)@ == old(output)@ + decode_all::<NoDecode>(
            group_values(input@, data as int, control),
        ),
{
    let encoded: [u8; 16] = load_bytes(input, data);
    let mask: [u8; 16] = decode_shuffle_mask(control);
    let decoded: [u8; 16] = L::lookup_bytes(&encoded, &mask);
    let words: [u32; 4] = words_of_bytes(&decoded);
    proof {
        lemma_looked_up_lane(input@, data as int, control, decoded@, 0);
        lemma_looked_up_lane(input@, data as int, control, decoded@, 1);
        lemma_looked_up_lane(input@, data as int, control, decoded@, 2);
        lemma_looked_up_lane(input@, data as int, control, decoded@, 3);
    }
    let bytes_consumed: usize = group_length(control);
    output.push(words[0]);
    output.push(words[1]);
    output.push(words[2]);
    output.push(words[3]);
    assert(output@ =~= old(output)@ + group_values(input@, data as int, control));
    proof {
        lemma_decode_all_identity(group_values(input@, data as int, control));
    }
    data + bytes_consumed
}

} // verus!
