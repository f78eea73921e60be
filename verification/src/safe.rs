//! A plain codec that works value by value and byte by byte: the yardstick
//! for the faster ones.
use crate::bits::{lemma_bytes_word, lemma_key_code_at, lemma_word_bytes};
use crate::common::control_bytes_len;
use crate::format::{
    code, control_byte, control_len, data_len, data_region, decodable, decoded, encoded, le_value,
    lemma_code_at_slot, lemma_data_region_len, lemma_data_region_step, lemma_encoded_len,
    lemma_run_monotonic, run, value_bytes,
};
use crate::scalar::decode::{
    decoding, lemma_decoding_done, lemma_decoding_start, lemma_decoding_value,
};
use crate::scalar::encode::{lemma_partial_key, partial_key, reserve_worst_case};
use crate::transform::{lemma_decode_all_identity, NoDecode};
use vstd::prelude::*;
use vstd::slice::slice_subrange;

verus! {

/// Encodes `input` into a fresh buffer. Returns the number of values and the
/// encoded bytes.
pub fn encode(input: &[u32]) -> (res: (usize, Vec<u8>))
    ensures
        res.0 == input.len(),
        res.1@ == encoded(input@),
        res.1.len() == control_len(input.len() as nat) + data_len(input@),
{
    let items: usize = input.len();
    proof {
        lemma_encoded_len(input@);
    }
    if items == 0 {
        assert(encoded(input@) =~= Seq::<u8>::empty());
        return (0, Vec::new());
    }
    let num_controls: usize = control_bytes_len(items);
    let mut output: Vec<u8> = Vec::new();
    reserve_worst_case(&mut output, items);
    output.resize(num_controls, 0);
    let mut controls: Vec<u8> = Vec::with_capacity(num_controls);

    let mut shift: u8 = 0;
    let mut key: u8 = 0;
    let mut i: usize = 0;
    assert(input@.take(0) =~= Seq::<u32>::empty());
    assert(output@.skip(num_controls as int) =~= Seq::<u8>::empty());
    while i < items
        invariant
            items == input.len(),
            items > 0,
            num_controls == control_len(items as nat),
            i <= items,
            output@.len() == num_controls + data_len(input@.take(i as int)),
            output@.skip(num_controls as int) == data_region(input@.take(i as int)),
            i > 0 ==> controls@.len() == (i - 1) / 4,
            i == 0 ==> controls@.len() == 0 && shift == 0 && key == 0,
            i > 0 ==> shift == 2 * ((i - 1) % 4) + 2,
            i > 0 ==> key == partial_key(input@, (i - 1) / 4, (i - 1) % 4 + 1),
            forall|j: int| 0 <= j < controls@.len() ==> controls@[j] == control_byte(input@, j),
        decreases items - i,
    {
        if shift == 8 {
            proof {
                lemma_partial_key(input@, (i - 1) / 4, 4);
            }
            shift = 0;
            controls.push(key);
            key = 0;
        }
        let ghost before = output@;
        let code: u8 = encode_single(input[i], &mut output);
        proof {
            lemma_data_region_step(input@, i as int);
            assert(output@.skip(num_controls as int) =~= before.skip(num_controls as int)
                + value_bytes(input@[i as int]));
            lemma_key_slot_u8(key, code, shift);
        }
        key |= code << shift;
        shift += 2;
        i += 1;
    }
    proof {
        lemma_partial_key(input@, (items - 1) / 4, (items - 1) % 4 + 1);
        assert(input@.take(items as int) == input@);
    }
    controls.push(key);
    // Move the control bytes to the front of the output.
    let mut j: usize = 0;
    while j < num_controls
        invariant
            j <= num_controls,
            controls@.len() == num_controls,
            output@.len() == num_controls + data_len(input@),
            output@.skip(num_controls as int) == data_region(input@),
            forall|k: int| 0 <= k < num_controls ==> controls@[k] == control_byte(input@, k),
            forall|k: int| 0 <= k < j ==> output@[k] == control_byte(input@, k),
        decreases num_controls - j,
    {
        let ghost before = output@;
        output[j] = controls[j];
        assert(output@.skip(num_controls as int) =~= before.skip(num_controls as int));
        j += 1;
    }
    proof {
        lemma_data_region_len(input@);
        assert forall|k: int| 0 <= k < output@.len() implies output@[k] == encoded(input@)[k] by {
            if k >= num_controls {
                assert(output@[k] == output@.skip(num_controls as int)[k - num_controls]);
            }
        }
        assert(output@ =~= encoded(input@));
    }
    (items, output)
}

/// Or-ing a code into a free slot of a key adds it at the slot's weight.
proof fn lemma_key_slot_u8(key: u8, symbol: u8, shift: u8)
    requires
        symbol <= 3,
        shift == 0 || shift == 2 || shift == 4 || shift == 6,
        shift == 0 ==> key == 0,
        shift == 2 ==> key < 4,
        shift == 4 ==> key < 16,
        shift == 6 ==> key < 64,
    ensures
        shift == 0 ==> key | (symbol << shift) == symbol,
        shift == 2 ==> key | (symbol << shift) == key + 4 * symbol,
        shift == 4 ==> key | (symbol << shift) == key + 16 * symbol,
        shift == 6 ==> key | (symbol << shift) == key + 64 * symbol,
{
    assert(symbol <= 3 ==> (shift == 0 && key == 0 ==> key | (symbol << shift) == symbol) && (shift
        == 2 && key < 4 ==> key | (symbol << shift) == key + 4 * symbol) && (shift == 4 && key < 16
        ==> key | (symbol << shift) == key + 16 * symbol) && (shift == 6 && key < 64 ==> key | (
    symbol << shift) == key + 64 * symbol)) by (bit_vector);
}

/// Appends the bytes that `val` needs and returns its code.
pub fn encode_single(val: u32, out: &mut Vec<u8>) -> (symbol: u8)
    ensures
        symbol == code(val),
        final(out)@ == old(out)@ + value_bytes(val),
{
    proof {
        lemma_word_bytes(val);
    }
    let b0: u8 = (val & 0xff) as u8;
    let b1: u8 = ((val >> 8) & 0xff) as u8;
    let b2: u8 = ((val >> 16) & 0xff) as u8;
    let b3: u8 = ((val >> 24) & 0xff) as u8;
    let symbol: u8 = if val < 0x100 {
        out.push(b0);
        0
    } else if val < 0x1_0000 {
        out.push(b0);
        out.push(b1);
        1
    } else if val < 0x100_0000 {
        out.push(b0);
        out.push(b1);
        out.push(b2);
        2
    } else {
        out.push(b0);
        out.push(b1);
        out.push(b2);
        out.push(b3);
        3
    };
    assert(out@ =~= old(out)@ + value_bytes(val));
    symbol
}

/// Decodes `len` values from `input`. The input must hold them all.
pub fn decode(len: usize, input: &[u8]) -> (result: Vec<u32>)
    requires
        decodable(len as nat, input@),
    ensures
        result@ == decoded(len as nat, input@),
{
    if len == 0 {
        assert(decoded(0, input@) =~= Seq::<u32>::empty());
        return Vec::new();
    }
    let num_control_bytes: usize = control_bytes_len(len);
    let control: &[u8] = slice_subrange(input, 0, num_control_bytes);
    let data: &[u8] = slice_subrange(input, num_control_bytes, input.len());
    let mut result: Vec<u32> = Vec::with_capacity(len);
    let mut offset: usize = 0;
    let mut key: u8 = control[0];
    let mut control_offset: usize = 1;
    let mut shift: u8 = 0;
    let ghost mut group: nat = 0;
    let ghost mut slot: nat = 0;
    proof {
        lemma_decoding_start::<NoDecode>(result@, input@, 0, num_control_bytes as int);
    }
    let mut i: usize = 0;
    while i < len
        invariant
            decodable(len as nat, input@),
            len > 0,
            num_control_bytes == control_len(len as nat),
            control@ == input@.subrange(0, num_control_bytes as int),
            data@ == input@.subrange(num_control_bytes as int, input@.len() as int),
            i <= len,
            i == 4 * group + slot,
            slot <= 4,
            i > 0 ==> slot > 0,
            shift == 2 * slot,
            control_offset == group + 1,
            key == input@[group as int],
            offset == run(input@, 0, i as nat),
            result@.len() == i,
            decoding::<NoDecode>(
                result@,
                Seq::<u32>::empty(),
                input@,
                0,
                num_control_bytes as int,
                i as nat,
            ),
        decreases len - i,
    {
        proof {
            assert(group + 1 < num_control_bytes || slot < 4) by (nonlinear_arith)
                requires
                    4 * group + slot < len,
                    num_control_bytes == (len + 3) / 4,
                    slot <= 4,
            ;
        }
        if shift == 8 {
            key = control[control_offset];
            control_offset += 1;
            shift = 0;
            proof {
                group = group + 1;
                slot = 0;
            }
        }
        proof {
            lemma_decoding_value::<NoDecode>(
                result@,
                Seq::<u32>::empty(),
                input@,
                0,
                num_control_bytes as int,
                i as nat,
            );
            lemma_code_at_slot(input@, group, slot);
            lemma_key_code_at(key, shift);
            lemma_run_monotonic(input@, 0, (i + 1) as nat, len as nat);
        }
        let symbol: u8 = (key >> shift) & 0x3;
        let rest: &[u8] = slice_subrange(data, offset, data.len());
        let (val, bytes) = decode_single(rest, symbol);
        proof {
            assert(rest@ =~= input@.subrange(num_control_bytes + offset, input@.len() as int));
            lemma_le_value_of_rest(
                input@,
                rest@,
                num_control_bytes + offset,
                (symbol + 1) as nat,
            );
        }
        offset += bytes;
        result.push(val);
        shift += 2;
        i += 1;
        proof {
            slot = slot + 1;
        }
    }
    proof {
        lemma_decoding_done::<NoDecode>(
            result@,
            Seq::<u32>::empty(),
            input@,
            0,
            num_control_bytes as int,
            len as nat,
        );
        lemma_decode_all_identity(decoded(len as nat, input@));
        assert(Seq::<u32>::empty() + decoded(len as nat, input@) =~= decoded(len as nat, input@));
    }
    result
}

/// A value read at the front of the rest of the input is the value read at
/// the position where the rest starts.
proof fn lemma_le_value_of_rest(input: Seq<u8>, rest: Seq<u8>, at: int, count: nat)
    requires
        0 <= at,
        1 <= count <= 4,
        at + count <= input.len(),
        rest == input.subrange(at, input.len() as int),
    ensures
        le_value(rest, 0, count) == le_value(input, at, count),
{
    assert(rest[0] == input[at]);
    if count > 1 {
        assert(rest[1] == input[at + 1]);
    }
    if count > 2 {
        assert(rest[2] == input[at + 2]);
    }
    if count > 3 {
        assert(rest[3] == input[at + 3]);
    }
}

/// Reads one value with code `control` from the front of `data`. Returns the
/// value and the number of bytes it occupies.
pub fn decode_single(data: &[u8], control: u8) -> (res: (u32, usize))
    requires
        control <= 3,
        control < data.len(),
    ensures
        res.0 == le_value(data@, 0, (control + 1) as nat),
        res.1 == control + 1,
{
    if control == 0 {
        // 1 byte
        (data[0] as u32, 1)
    } else if control == 1 {
        // 2 bytes
        proof {
            lemma_bytes_word(data[0], data[1], 0, 0);
        }
        ((data[0] as u32) | (data[1] as u32) << 8 | 0u32 << 16 | 0u32 << 24, 2)
    } else if control == 2 {
        proof {
            lemma_bytes_word(data[0], data[1], data[2], 0);
        }
        ((data[0] as u32) | (data[1] as u32) << 8 | (data[2] as u32) << 16 | 0u32 << 24, 3)
    } else {
        proof {
            lemma_bytes_word(data[0], data[1], data[2], data[3]);
        }
        ((data[0] as u32) | (data[1] as u32) << 8 | (data[2] as u32) << 16 | (data[3] as u32)
            << 24, 4)
    }
}

} // verus!
