//! Scalar decoder: an unrolled loop for whole groups that are well inside
//! the input, and a loop that checks every read for the rest.
use crate::bits::{lemma_bytes_word, lemma_key_code_at, lemma_key_codes, lemma_mask_word};
use crate::common::{control_bytes_len, StreamVbyteError};
use crate::format::{
    code_at, control_len, decodable, decoded, group_offset, group_start, group_values, le_value,
    lemma_code_at_slot, lemma_group_start, lemma_group_values, lemma_le_value_low_bytes,
    lemma_run_monotonic, lemma_run_split, run, values_at,
};
use crate::transform::{decode_all, Decoder, NoDecode};
use vstd::prelude::*;

verus! {

/// Reads `count` little-endian bytes at `data` as a value.
#[inline]
pub fn extract_bytes(input: &[u8], data: usize, count: u8) -> (val: u32)
    requires
        1 <= count <= 4,
        data + count <= input.len(),
    ensures
        val == le_value(input@, data as int, count as nat),
{
    if count == 1 {
        input[data] as u32
    } else if count == 2 {
        proof {
            lemma_bytes_word(input[data as int], input[data + 1], 0, 0);
        }
        (input[data] as u32) | (input[data + 1] as u32) << 8 | 0u32 << 16 | 0u32 << 24
    } else if count == 3 {
        proof {
            lemma_bytes_word(input[data as int], input[data + 1], input[data + 2], 0);
        }
        (input[data] as u32) | (input[data + 1] as u32) << 8 | (input[data + 2] as u32) << 16 | 0u32
            << 24
    } else {
        load_word(input, data)
    }
}

/// Reads the four bytes at `data` as a little-endian word.
#[inline]
pub fn load_word(input: &[u8], data: usize) -> (val: u32)
    requires
        data + 4 <= input.len(),
    ensures
        val == le_value(input@, data as int, 4),
{
    proof {
        lemma_bytes_word(input[data as int], input[data + 1], input[data + 2], input[data + 3]);
    }
    (input[data] as u32) | (input[data + 1] as u32) << 8 | (input[data + 2] as u32) << 16 | (
    input[data + 3] as u32) << 24
}

/// Reads a full word at `data` and masks it down to the bytes that the code
/// `key` calls for.
#[inline]
pub fn load_masked(input: &[u8], data: usize, key: u32) -> (val: u32)
    requires
        key <= 3,
        data + 4 <= input.len(),
    ensures
        val == le_value(input@, data as int, (key + 1) as nat),
{
    let val: u32 = load_word(input, data);
    proof {
        lemma_mask_word(val, key);
        lemma_le_value_low_bytes(input@, data as int, (key + 1) as nat);
    }
    val & !((!0xff) << (8 * key))  // mask out the extra bytes
}

/// Decodes `len` values from `input`, which holds the control bytes and then
/// the data bytes of an encoded buffer.
///
/// Fails when the control bytes for `len` values do not leave a byte of data
/// in `input`, or when a value would have to be read past the end of `input`.
pub fn decode(len: usize, input: &[u8]) -> (res: Result<Vec<u32>, StreamVbyteError>)
    ensures
        decodable(len as nat, input@) ==> res is Ok && res->Ok_0@ == decoded(
            len as nat,
            input@,
        ),
        !decodable(len as nat, input@) ==> res == Err::<Vec<u32>, StreamVbyteError>(
            StreamVbyteError::DecodeOutOfBounds,
        ),
        res is Ok ==> res->Ok_0.len() == len,
{
    if len == 0 {
        assert(decoded(0, input@) =~= Seq::<u32>::empty());
        return Ok(Vec::new());
    }
    let num_control_bytes: usize = control_bytes_len(len);
    if num_control_bytes >= input.len() {
        return Err(StreamVbyteError::DecodeOutOfBounds);
    }
    let mut result: Vec<u32> = Vec::with_capacity(len);
    let ok: bool = decode_unroll_inner_checked::<NoDecode>(
        input,
        0,
        num_control_bytes,
        &mut result,
        len,
    );
    if ok {
        assert(result@ =~= decoded(len as nat, input@));
        Ok(result)
    } else {
        Err(StreamVbyteError::DecodeOutOfBounds)
    }
}

/// Decodes the four values of a group with control byte `key` whose data
/// bytes start at `data`: every value is read as a full word and masked down
/// to the bytes that its code calls for. Returns the data cursor behind the
/// group.
#[inline]
pub fn decode_group<D: Decoder>(input: &[u8], data: usize, key: u8, out: &mut Vec<u32>) -> (next:
    usize)
    requires
        data + 16 <= input.len(),
    ensures
        next == data + group_offset(key, 4),
        final(out)@ == old(out)@ + decode_all::<D>(group_values(input@, data as int, key)),
{
    let key: u32 = key as u32;
    proof {
        lemma_key_codes(key);
    }
    let key1: u32 = key & 0x3;
    let key2: u32 = (key >> 2) & 0x3;
    let key3: u32 = (key >> 4) & 0x3;
    let key4: u32 = key >> 6;
    let mut cursor: usize = data;

    let val1: u32 = load_masked(input, cursor, key1);
    out.push(D::decode_1(val1));
    cursor += key1 as usize + 1;

    let val2: u32 = load_masked(input, cursor, key2);
    out.push(D::decode_1(val2));
    cursor += key2 as usize + 1;

    let val3: u32 = load_masked(input, cursor, key3);
    out.push(D::decode_1(val3));
    cursor += key3 as usize + 1;

    let val4: u32 = load_masked(input, cursor, key4);
    out.push(D::decode_1(val4));
    cursor += key4 as usize + 1;
    assert(out@ =~= old(out)@ + decode_all::<D>(group_values(input@, data as int, key as u8)));
    cursor
}

/// Decodes `len` values whose control bytes start at index `control` and
/// whose data bytes start at index `data`, and appends them to `out` after
/// the transform of `D`.
///
/// Returns whether all values were in bounds. If not, decoding ended early
/// and `out` holds the values decoded up to there.
pub fn decode_unroll_inner_checked<D: Decoder>(
    input: &[u8],
    control: usize,
    data: usize,
    out: &mut Vec<u32>,
    len: usize,
) -> (ok: bool)
    requires
        control + control_len(len as nat) <= data <= input.len(),
    ensures
        ok <==> data + run(input@, (4 * control) as nat, len as nat) <= input.len(),
        ok ==> final(out)@ == old(out)@ + decode_all::<D>(
            values_at(input@, (4 * control) as nat, data as int, len as nat),
        ),
        old(out)@.is_prefix_of(final(out)@),
{
    let ghost first = (4 * control) as nat;
    let end: usize = input.len();
    let mut control_cursor: usize = control;
    let mut data_cursor: usize = data;
    let mut len_remaining: usize = len;
    let ghost mut groups: nat = 0;
    proof {
        lemma_decoding_start::<D>(out@, input@, control as nat, data as int);
    }
    // Whole groups, as long as the sixteen bytes at the data cursor are
    // safely in bounds: every value is read as a full word and masked.
    while len_remaining >= 4
        invariant
            end == input.len(),
            first == 4 * control,
            control + control_len(len as nat) <= data <= data_cursor <= end,
            len_remaining <= len,
            len - len_remaining == 4 * groups,
            control_cursor == control + groups,
            data_cursor == group_start(input@, control as nat, data as int, groups),
            decoding::<D>(out@, old(out)@, input@, control as nat, data as int, 4 * groups),
        decreases len_remaining,
    {
        if end - data_cursor <= 16 {
            break ;
        }
        let key: u8 = input[control_cursor];
        let ghost before = out@;
        data_cursor = decode_group::<D>(input, data_cursor, key, out);
        proof {
            lemma_decoding_group::<D>(
                before,
                out@,
                old(out)@,
                input@,
                control as nat,
                data as int,
                groups,
            );
            groups = groups + 1;
        }
        len_remaining -= 4;
        control_cursor += 1;
    }
    // The rest, value by value, each checked against the end of the input.
    proof {
        lemma_group_start(input@, control as nat, data as int, groups);
    }
    let ghost mut slot: nat = 0;
    let mut key: u8 = 0;
    let mut shift: u8 = 8;
    let mut i: usize = 0;
    while i < len_remaining
        invariant
            end == input.len(),
            first == 4 * control,
            control + control_len(len as nat) <= data <= data_cursor <= end,
            len_remaining <= len,
            i <= len_remaining,
            slot < 4,
            len - len_remaining + i == 4 * groups + slot,
            slot == 0 ==> shift == 8 && control_cursor == control + groups,
            slot > 0 ==> shift == 2 * slot && control_cursor == control + groups + 1 && key
                == input@[control + groups],
            data_cursor == data + run(input@, first, 4 * groups + slot),
            decoding::<D>(
                out@,
                old(out)@,
                input@,
                control as nat,
                data as int,
                4 * groups + slot,
            ),
        decreases len_remaining - i,
    {
        proof {
            assert(control + groups < control + control_len(len as nat)) by (nonlinear_arith)
                requires
                    4 * groups + slot < len,
                    control_len(len as nat) == (len + 3) / 4,
            ;
        }
        if shift == 8 {
            key = input[control_cursor];
            control_cursor += 1;
            shift = 0;
        }
        proof {
            lemma_decoding_value::<D>(
                out@,
                old(out)@,
                input@,
                control as nat,
                data as int,
                4 * groups + slot,
            );
            lemma_code_at_slot(input@, control as nat + groups, slot);
            lemma_key_code_at(key, shift);
        }
        let nbytes: u8 = ((key >> shift) & 0x3) + 1;
        // Out of bounds access?
        if nbytes as usize > end - data_cursor {
            proof {
                lemma_run_monotonic(input@, first, 4 * groups + slot + 1, len as nat);
                lemma_decoding_done::<D>(
                    out@,
                    old(out)@,
                    input@,
                    control as nat,
                    data as int,
                    4 * groups + slot,
                );
            }
            return false;
        }
        let val: u32 = extract_bytes(input, data_cursor, nbytes);
        data_cursor += nbytes as usize;
        out.push(D::decode_1(val));
        shift += 2;
        i += 1;
        proof {
            if slot == 3 {
                groups = groups + 1;
                slot = 0;
            } else {
                slot = slot + 1;
            }
        }
    }
    proof {
        lemma_decoding_done::<D>(
            out@,
            old(out)@,
            input@,
            control as nat,
            data as int,
            len as nat,
        );
    }
    true
}

/// A vector of values under construction: behind `base` come the first
/// `done` of the values whose control bytes start at index `control` of
/// `bytes` and whose data bytes start at index `data`, after the transform of
/// `D`.
#[verifier::opaque]
pub open spec fn decoding<D: Decoder>(
    out: Seq<u32>,
    base: Seq<u32>,
    bytes: Seq<u8>,
    control: nat,
    data: int,
    done: nat,
) -> bool {
    out == base + decode_all::<D>(values_at(bytes, 4 * control, data, done))
}

/// Before the first value the vector under construction is its base.
pub proof fn lemma_decoding_start<D: Decoder>(
    base: Seq<u32>,
    bytes: Seq<u8>,
    control: nat,
    data: int,
)
    ensures
        decoding::<D>(base, base, bytes, control, data, 0),
        group_start(bytes, control, data, 0) == data,
{
    reveal(decoding);
    lemma_group_start(bytes, control, data, 0);
    assert(base =~= base + decode_all::<D>(values_at(bytes, 4 * control, data, 0)));
}

/// Appending the values of the next group, which starts where the groups
/// before it end, advances the construction by four values.
pub proof fn lemma_decoding_group<D: Decoder>(
    before: Seq<u32>,
    after: Seq<u32>,
    base: Seq<u32>,
    bytes: Seq<u8>,
    control: nat,
    data: int,
    groups: nat,
)
    requires
        decoding::<D>(before, base, bytes, control, data, 4 * groups),
        after == before + decode_all::<D>(
            group_values(
                bytes,
                group_start(bytes, control, data, groups),
                bytes[(control + groups) as int],
            ),
        ),
    ensures
        decoding::<D>(after, base, bytes, control, data, 4 * groups + 4),
        group_start(bytes, control, data, groups + 1) == group_start(bytes, control, data, groups)
            + group_offset(bytes[(control + groups) as int], 4),
        group_start(bytes, control, data, groups) + 4 <= group_start(
            bytes,
            control,
            data,
            groups + 1,
        ) <= group_start(bytes, control, data, groups) + 16,
{
    reveal(decoding);
    lemma_group_values(bytes, control, data, groups, 4 * groups + 4);
    lemma_group_start(bytes, control, data, groups);
    lemma_group_start(bytes, control, data, groups + 1);
    let c = bytes[(control + groups) as int];
    let got = group_values(bytes, group_start(bytes, control, data, groups), c);
    let head = values_at(bytes, 4 * control, data, 4 * groups);
    let all = values_at(bytes, 4 * control, data, 4 * groups + 4);
    assert forall|j: int| 0 <= j < 4 * groups + 4 implies #[trigger] all[j] == (head + got)[j] by {
        if j >= 4 * groups {
            assert(got[j - 4 * groups] == all[4 * groups + (j - 4 * groups)]);
        }
    }
    assert(all =~= head + got);
    assert(decode_all::<D>(all) =~= decode_all::<D>(head) + decode_all::<D>(got));
    assert(base + decode_all::<D>(head) + decode_all::<D>(got) =~= base + decode_all::<D>(all));
}

/// Appending the next value, which starts where the values before it end,
/// advances the construction by one value.
pub proof fn lemma_decoding_value<D: Decoder>(
    before: Seq<u32>,
    base: Seq<u32>,
    bytes: Seq<u8>,
    control: nat,
    data: int,
    done: nat,
)
    requires
        decoding::<D>(before, base, bytes, control, data, done),
    ensures
        decoding::<D>(
            before.push(
                D::spec_decode_1(
                    le_value(
                        bytes,
                        data + run(bytes, 4 * control, done),
                        code_at(bytes, (4 * control + done) as int) + 1,
                    ),
                ),
            ),
            base,
            bytes,
            control,
            data,
            done + 1,
        ),
        run(bytes, 4 * control, done + 1) == run(bytes, 4 * control, done) + code_at(
            bytes,
            (4 * control + done) as int,
        ) + 1,
{
    reveal(decoding);
    let head = values_at(bytes, 4 * control, data, done);
    let all = values_at(bytes, 4 * control, data, done + 1);
    assert((base + decode_all::<D>(head)).push(D::spec_decode_1(all[done as int])) =~= base
        + decode_all::<D>(all));
}

/// What a construction has reached.
pub proof fn lemma_decoding_done<D: Decoder>(
    out: Seq<u32>,
    base: Seq<u32>,
    bytes: Seq<u8>,
    control: nat,
    data: int,
    done: nat,
)
    requires
        decoding::<D>(out, base, bytes, control, data, done),
    ensures
        out == base + decode_all::<D>(values_at(bytes, 4 * control, data, done)),
        out.len() == base.len() + done,
        base.is_prefix_of(out),
{
    reveal(decoding);
}

/// The values of a buffer are the values of its first groups followed by
/// the values behind them, which start where the groups end.
pub proof fn lemma_decoded_in_two<D: Decoder>(
    bytes: Seq<u8>,
    n: nat,
    groups: nat,
    data: int,
    base: Seq<u32>,
    mid: Seq<u32>,
    out: Seq<u32>,
)
    requires
        4 * groups <= n,
        data == control_len(n) + run(bytes, 0, 4 * groups),
        mid == base + decode_all::<D>(values_at(bytes, 0, control_len(n) as int, 4 * groups)),
        out == mid + decode_all::<D>(
            values_at(bytes, 4 * groups, data, (n - 4 * groups) as nat),
        ),
    ensures
        out == base + decode_all::<D>(decoded(n, bytes)),
{
    let done = 4 * groups;
    let all = decoded(n, bytes);
    let head = values_at(bytes, 0, control_len(n) as int, done);
    let tail = values_at(bytes, done, data, (n - done) as nat);
    assert forall|j: int| 0 <= j < n implies #[trigger] all[j] == (head + tail)[j] by {
        if j >= done {
            lemma_run_split(bytes, 0, done, (j - done) as nat);
        }
    }
    assert(all =~= head + tail);
    assert(decode_all::<D>(all) =~= decode_all::<D>(head) + decode_all::<D>(tail));
    assert(out =~= base + decode_all::<D>(all));
}

} // verus!
