//! Lane encoder: four values per step. The codes of the four values come
//! from their counts of leading zero bytes, a multiplication packs the codes
//! into the control byte and adds them up to the length, and a table lookup
//! compacts the four values into their data bytes.
use crate::bits::{lemma_bytes_word, lemma_key_slot};
use crate::common::{control_bytes_len, max_len};
use crate::format::{
    code, control_len, ctrl_code, data_len, encoded, le_byte, lemma_encoded_len, pack_codes,
    value_bytes,
};
use crate::lanes::{
    append_bytes, bytes_of_word, bytes_of_words, lemma_pack_bytes_unique, load_words, pack_bytes,
    saturated_difference, LookupLanes, Portable,
};
use crate::scalar::encode::{
    building, lemma_building_control, lemma_building_done, lemma_building_len, lemma_building_start,
    lemma_building_value, lemma_partial_key, partial_key, reserve_worst_case, store_word,
};
use crate::tables::compact::{
    encode_mask, encode_mask_word, lemma_compacted, lemma_encode_mask_word, lemma_lookup_is_shuffle,
};
use crate::tables::len::lemma_lane_length;
use vstd::prelude::*;
use vstd::std_specs::bits::{axiom_u32_leading_zeros, u32_leading_zeros};

verus! {

/// Encodes `input` into a fresh buffer, on portable lanes. Returns the
/// number of values and the encoded bytes.
pub fn encode_simd(input: &[u32]) -> (res: (usize, Vec<u8>))
    ensures
        res.0 == input.len(),
        res.1@ == encoded(input@),
        res.1.len() == control_len(input.len() as nat) + data_len(input@),
        res.1.len() <= max_len(input.len() as nat),
{
    encode_simd_on::<Portable>(input)
}

/// Encodes `input` into a fresh buffer, on the lanes `L`. Returns the number
/// of values and the encoded bytes.
pub fn encode_simd_on<L: LookupLanes>(input: &[u32]) -> (res: (usize, Vec<u8>))
    ensures
        res.0 == input.len(),
        res.1@ == encoded(input@),
        res.1.len() == control_len(input.len() as nat) + data_len(input@),
        res.1.len() <= max_len(input.len() as nat),
{
    let items: usize = input.len();
    proof {
        lemma_encoded_len(input@);
    }
    if items == 0 {
        assert(encoded(input@) =~= Seq::<u8>::empty());
        return (0, Vec::new());
    }
    let mut output: Vec<u8> = Vec::new();
    reserve_worst_case(&mut output, items);
    // The control bytes come first; the worker fills them in as it goes.
    output.resize(control_bytes_len(items), 0);
    encode_worker::<L>(input, &mut output, 0);
    assert(Seq::<u8>::empty() + encoded(input@) =~= encoded(input@));
    (items, output)
}

/// The indices that gather the low byte of every lane, last lane first,
/// twice.
pub const GATHER_LO: [u8; 8] = [12, 8, 4, 0, 12, 8, 4, 0];

/// The multipliers that bring, into the high byte of a product, the four
/// codes side by side and the sum of the four codes.
pub const AGGREGATORS: [u32; 2] = [0x4010_0401, 0x0101_0101];

/// Multiplying the gathered codes by the aggregators yields the control byte
/// and the sum of the codes in the high bytes of the products.
pub proof fn lemma_aggregators(c0: u32, c1: u32, c2: u32, c3: u32)
    requires
        c0 <= 3,
        c1 <= 3,
        c2 <= 3,
        c3 <= 3,
    ensures
        ({
            let gathered = c3 + 0x100 * c2 + 0x1_0000 * c1 + 0x100_0000 * c0;
            &&& (gathered * 0x4010_0401) % 0x1_0000_0000 / 0x100_0000 == c0 + 4 * c1 + 16 * c2 + 64
                * c3
            &&& (gathered * 0x0101_0101) % 0x1_0000_0000 / 0x100_0000 == c0 + c1 + c2 + c3
        }),
{
    assert(c0 <= 3 && c1 <= 3 && c2 <= 3 && c3 <= 3 ==> ((c3 + 0x100 * c2 + 0x1_0000 * c1
        + 0x100_0000 * c0) * 0x4010_0401) % 0x1_0000_0000 / 0x100_0000 == c0 + 4 * c1 + 16 * c2
        + 64 * c3 && ((c3 + 0x100 * c2 + 0x1_0000 * c1 + 0x100_0000 * c0) * 0x0101_0101)
        % 0x1_0000_0000 / 0x100_0000 == c0 + c1 + c2 + c3) by (bit_vector);
}

/// The codes of four values, lane by lane: the code of a value is three
/// less its count of leading zero bytes, but not less than zero.
pub fn lane_codes<L: LookupLanes>(data: &[u32; 4]) -> (lanecodes: [u32; 4])
    ensures
        lanecodes@[0] == code(data@[0]),
        lanecodes@[1] == code(data@[1]),
        lanecodes@[2] == code(data@[2]),
        lanecodes@[3] == code(data@[3]),
{
    // clz = count leading zero bits
    // lane code is 3 - (saturating sub) (clz(data) / 8)
    let clz: [u32; 4] = L::leading_zeros(data);
    let clzbytes: [u32; 4] = L::shift_right_3(&clz);
    let three: [u32; 4] = [3u32; 4];
    let lanecodes: [u32; 4] = L::saturating_sub(&three, &clzbytes);
    proof {
        lemma_lane_code(data@[0], clz@[0]);
        lemma_lane_code(data@[1], clz@[1]);
        lemma_lane_code(data@[2], clz@[2]);
        lemma_lane_code(data@[3], clz@[3]);
    }
    lanecodes
}

/// Three less the number of leading zero bytes of a value, but not less
/// than zero, is the code of the value.
proof fn lemma_lane_code(value: u32, zeros: u32)
    requires
        zeros == u32_leading_zeros(value),
    ensures
        saturated_difference(3, zeros >> 3) == code(value),
{
    axiom_u32_leading_zeros(value);
    lemma_leading_zero_bytes(value, zeros);
}

/// The number of leading zero bytes of a value tells its code.
proof fn lemma_leading_zero_bytes(value: u32, zeros: u32)
    requires
        zeros <= 32,
        value == 0 <==> zeros == 32,
        zeros < 32 ==> (value >> ((31 - zeros) as u32)) & 1u32 != 0u32,
        value >> ((32 - zeros) as u32) == 0,
    ensures
        zeros >> 3 == zeros / 8,
        zeros >= 24 <==> value < 0x100,
        zeros >= 16 <==> value < 0x1_0000,
        zeros >= 8 <==> value < 0x100_0000,
{
    assert(zeros >> 3 == zeros / 8) by (bit_vector);
    assert(zeros <= 32 && (value == 0 <==> zeros == 32) && (zeros < 32 ==> (value >> ((31
        - zeros) as u32)) & 1u32 != 0u32) && value >> ((32 - zeros) as u32) == 0 ==> (zeros >= 24
        <==> value < 0x100) && (zeros >= 16 <==> value < 0x1_0000) && (zeros >= 8 <==> value
        < 0x100_0000)) by (bit_vector);
}

/// The control byte and the number of data bytes of four values.
pub fn lane_code_and_length<L: LookupLanes>(data: &[u32; 4]) -> (res: (u32, u32))
    ensures
        res.0 == pack_codes(code(data@[0]), code(data@[1]), code(data@[2]), code(data@[3])),
        res.1 == code(data@[0]) + code(data@[1]) + code(data@[2]) + code(data@[3]) + 4,
{
    let lanecodes: [u32; 4] = lane_codes::<L>(data);
    let lanebytes: [u8; 16] = bytes_of_words(&lanecodes);
    // The low bytes of the four lanes, last lane first, twice over.
    let lobytes: [u8; 8] = L::lookup_low_bytes(&lanebytes, &GATHER_LO);
    proof {
        assert(lanebytes@[12] == le_byte(lanecodes@[12int / 4], 12int % 4));
        assert(lanebytes@[8] == le_byte(lanecodes@[8int / 4], 8int % 4));
        assert(lanebytes@[4] == le_byte(lanecodes@[4int / 4], 4int % 4));
        assert(lanebytes@[0] == le_byte(lanecodes@[0int / 4], 0int % 4));
        lemma_bytes_word(lobytes@[0], lobytes@[1], lobytes@[2], lobytes@[3]);
        lemma_bytes_word(lobytes@[4], lobytes@[5], lobytes@[6], lobytes@[7]);
        lemma_aggregators(lanecodes@[0], lanecodes@[1], lanecodes@[2], lanecodes@[3]);
    }
    let mulshift: [u32; 2] = [
        (lobytes[0] as u32) | (lobytes[1] as u32) << 8 | (lobytes[2] as u32) << 16 | (
        lobytes[3] as u32) << 24,
        (lobytes[4] as u32) | (lobytes[5] as u32) << 8 | (lobytes[6] as u32) << 16 | (
        lobytes[7] as u32) << 24,
    ];
    let code_and_length: [u32; 2] = L::multiply_low(&mulshift, &AGGREGATORS);
    proof {
        lemma_high_byte(code_and_length@[0]);
        lemma_high_byte(code_and_length@[1]);
    }
    let code: u32 = code_and_length[0] >> 24;
    let len: u32 = 4 + (code_and_length[1] >> 24);
    (code, len)
}

/// The high byte of a word, by a shift.
proof fn lemma_high_byte(x: u32)
    ensures
        x >> 24 == x / 0x100_0000,
{
    assert(x >> 24 == x / 0x100_0000) by (bit_vector);
}

/// The encode shuffle table: for every control byte, the mask that compacts
/// the four values that the control byte describes. A mask is sixteen bytes
/// in a 128-bit word, byte 0 in the low bits.
pub const ENCODE_SHUFFLE_TABLE: [u128; 256] = [
    0xFFFFFFFF_FFFFFFFF_FFFFFFFF_0C080400,
    0xFFFFFFFF_FFFFFFFF_FFFFFF0C_08040100,
    0xFFFFFFFF_FFFFFFFF_FFFF0C08_04020100,
    0xFFFFFFFF_FFFFFFFF_FF0C0804_03020100,
    0xFFFFFFFF_FFFFFFFF_FFFFFF0C_08050400,
    0xFFFFFFFF_FFFFFFFF_FFFF0C08_05040100,
    0xFFFFFFFF_FFFFFFFF_FF0C0805_04020100,
    0xFFFFFFFF_FFFFFFFF_0C080504_03020100,
    0xFFFFFFFF_FFFFFFFF_FFFF0C08_06050400,
    0xFFFFFFFF_FFFFFFFF_FF0C0806_05040100,
    0xFFFFFFFF_FFFFFFFF_0C080605_04020100,
    0xFFFFFFFF_FFFFFF0C_08060504_03020100,
    0xFFFFFFFF_FFFFFFFF_FF0C0807_06050400,
    0xFFFFFFFF_FFFFFFFF_0C080706_05040100,
    0xFFFFFFFF_FFFFFF0C_08070605_04020100,
    0xFFFFFFFF_FFFF0C08_07060504_03020100,
    0xFFFFFFFF_FFFFFFFF_FFFFFF0C_09080400,
    0xFFFFFFFF_FFFFFFFF_FFFF0C09_08040100,
    0xFFFFFFFF_FFFFFFFF_FF0C0908_04020100,
    0xFFFFFFFF_FFFFFFFF_0C090804_03020100,
    0xFFFFFFFF_FFFFFFFF_FFFF0C09_08050400,
    0xFFFFFFFF_FFFFFFFF_FF0C0908_05040100,
    0xFFFFFFFF_FFFFFFFF_0C090805_04020100,
    0xFFFFFFFF_FFFFFF0C_09080504_03020100,
    0xFFFFFFFF_FFFFFFFF_FF0C0908_06050400,
    0xFFFFFFFF_FFFFFFFF_0C090806_05040100,
    0xFFFFFFFF_FFFFFF0C_09080605_04020100,
    0xFFFFFFFF_FFFF0C09_08060504_03020100,
    0xFFFFFFFF_FFFFFFFF_0C090807_06050400,
    0xFFFFFFFF_FFFFFF0C_09080706_05040100,
    0xFFFFFFFF_FFFF0C09_08070605_04020100,
    0xFFFFFFFF_FF0C0908_07060504_03020100,
    0xFFFFFFFF_FFFFFFFF_FFFF0C0A_09080400,
    0xFFFFFFFF_FFFFFFFF_FF0C0A09_08040100,
    0xFFFFFFFF_FFFFFFFF_0C0A0908_04020100,
    0xFFFFFFFF_FFFFFF0C_0A090804_03020100,
    0xFFFFFFFF_FFFFFFFF_FF0C0A09_08050400,
    0xFFFFFFFF_FFFFFFFF_0C0A0908_05040100,
    0xFFFFFFFF_FFFFFF0C_0A090805_04020100,
    0xFFFFFFFF_FFFF0C0A_09080504_03020100,
    0xFFFFFFFF_FFFFFFFF_0C0A0908_06050400,
    0xFFFFFFFF_FFFFFF0C_0A090806_05040100,
    0xFFFFFFFF_FFFF0C0A_09080605_04020100,
    0xFFFFFFFF_FF0C0A09_08060504_03020100,
    0xFFFFFFFF_FFFFFF0C_0A090807_06050400,
    0xFFFFFFFF_FFFF0C0A_09080706_05040100,
    0xFFFFFFFF_FF0C0A09_08070605_04020100,
    0xFFFFFFFF_0C0A0908_07060504_03020100,
    0xFFFFFFFF_FFFFFFFF_FF0C0B0A_09080400,
    0xFFFFFFFF_FFFFFFFF_0C0B0A09_08040100,
    0xFFFFFFFF_FFFFFF0C_0B0A0908_04020100,
    0xFFFFFFFF_FFFF0C0B_0A090804_03020100,
    0xFFFFFFFF_FFFFFFFF_0C0B0A09_08050400,
    0xFFFFFFFF_FFFFFF0C_0B0A0908_05040100,
    0xFFFFFFFF_FFFF0C0B_0A090805_04020100,
    0xFFFFFFFF_FF0C0B0A_09080504_03020100,
    0xFFFFFFFF_FFFFFF0C_0B0A0908_06050400,
    0xFFFFFFFF_FFFF0C0B_0A090806_05040100,
    0xFFFFFFFF_FF0C0B0A_09080605_04020100,
    0xFFFFFFFF_0C0B0A09_08060504_03020100,
    0xFFFFFFFF_FFFF0C0B_0A090807_06050400,
    0xFFFFFFFF_FF0C0B0A_09080706_05040100,
    0xFFFFFFFF_0C0B0A09_08070605_04020100,
    0xFFFFFF0C_0B0A0908_07060504_03020100,
    0xFFFFFFFF_FFFFFFFF_FFFFFF0D_0C080400,
    0xFFFFFFFF_FFFFFFFF_FFFF0D0C_08040100,
    0xFFFFFFFF_FFFFFFFF_FF0D0C08_04020100,
    0xFFFFFFFF_FFFFFFFF_0D0C0804_03020100,
    0xFFFFFFFF_FFFFFFFF_FFFF0D0C_08050400,
    0xFFFFFFFF_FFFFFFFF_FF0D0C08_05040100,
    0xFFFFFFFF_FFFFFFFF_0D0C0805_04020100,
    0xFFFFFFFF_FFFFFF0D_0C080504_03020100,
    0xFFFFFFFF_FFFFFFFF_FF0D0C08_06050400,
    0xFFFFFFFF_FFFFFFFF_0D0C0806_05040100,
    0xFFFFFFFF_FFFFFF0D_0C080605_04020100,
    0xFFFFFFFF_FFFF0D0C_08060504_03020100,
    0xFFFFFFFF_FFFFFFFF_0D0C0807_06050400,
    0xFFFFFFFF_FFFFFF0D_0C080706_05040100,
    0xFFFFFFFF_FFFF0D0C_08070605_04020100,
    0xFFFFFFFF_FF0D0C08_07060504_03020100,
    0xFFFFFFFF_FFFFFFFF_FFFF0D0C_09080400,
    0xFFFFFFFF_FFFFFFFF_FF0D0C09_08040100,
    0xFFFFFFFF_FFFFFFFF_0D0C0908_04020100,
    0xFFFFFFFF_FFFFFF0D_0C090804_03020100,
    0xFFFFFFFF_FFFFFFFF_FF0D0C09_08050400,
    0xFFFFFFFF_FFFFFFFF_0D0C0908_05040100,
    0xFFFFFFFF_FFFFFF0D_0C090805_04020100,
    0xFFFFFFFF_FFFF0D0C_09080504_03020100,
    0xFFFFFFFF_FFFFFFFF_0D0C0908_06050400,
    0xFFFFFFFF_FFFFFF0D_0C090806_05040100,
    0xFFFFFFFF_FFFF0D0C_09080605_04020100,
    0xFFFFFFFF_FF0D0C09_08060504_03020100,
    0xFFFFFFFF_FFFFFF0D_0C090807_06050400,
    0xFFFFFFFF_FFFF0D0C_09080706_05040100,
    0xFFFFFFFF_FF0D0C09_08070605_04020100,
    0xFFFFFFFF_0D0C0908_07060504_03020100,
    0xFFFFFFFF_FFFFFFFF_FF0D0C0A_09080400,
    0xFFFFFFFF_FFFFFFFF_0D0C0A09_08040100,
    0xFFFFFFFF_FFFFFF0D_0C0A0908_04020100,
    0xFFFFFFFF_FFFF0D0C_0A090804_03020100,
    0xFFFFFFFF_FFFFFFFF_0D0C0A09_08050400,
    0xFFFFFFFF_FFFFFF0D_0C0A0908_05040100,
    0xFFFFFFFF_FFFF0D0C_0A090805_04020100,
    0xFFFFFFFF_FF0D0C0A_09080504_03020100,
    0xFFFFFFFF_FFFFFF0D_0C0A0908_06050400,
    0xFFFFFFFF_FFFF0D0C_0A090806_05040100,
    0xFFFFFFFF_FF0D0C0A_09080605_04020100,
    0xFFFFFFFF_0D0C0A09_08060504_03020100,
    0xFFFFFFFF_FFFF0D0C_0A090807_06050400,
    0xFFFFFFFF_FF0D0C0A_09080706_05040100,
    0xFFFFFFFF_0D0C0A09_08070605_04020100,
    0xFFFFFF0D_0C0A0908_07060504_03020100,
    0xFFFFFFFF_FFFFFFFF_0D0C0B0A_09080400,
    0xFFFFFFFF_FFFFFF0D_0C0B0A09_08040100,
    0xFFFFFFFF_FFFF0D0C_0B0A0908_04020100,
    0xFFFFFFFF_FF0D0C0B_0A090804_03020100,
    0xFFFFFFFF_FFFFFF0D_0C0B0A09_08050400,
    0xFFFFFFFF_FFFF0D0C_0B0A0908_05040100,
    0xFFFFFFFF_FF0D0C0B_0A090805_04020100,
    0xFFFFFFFF_0D0C0B0A_09080504_03020100,
    0xFFFFFFFF_FFFF0D0C_0B0A0908_06050400,
    0xFFFFFFFF_FF0D0C0B_0A090806_05040100,
    0xFFFFFFFF_0D0C0B0A_09080605_04020100,
    0xFFFFFF0D_0C0B0A09_08060504_03020100,
    0xFFFFFFFF_FF0D0C0B_0A090807_06050400,
    0xFFFFFFFF_0D0C0B0A_09080706_05040100,
    0xFFFFFF0D_0C0B0A09_08070605_04020100,
    0xFFFF0D0C_0B0A0908_07060504_03020100,
    0xFFFFFFFF_FFFFFFFF_FFFF0E0D_0C080400,
    0xFFFFFFFF_FFFFFFFF_FF0E0D0C_08040100,
    0xFFFFFFFF_FFFFFFFF_0E0D0C08_04020100,
    0xFFFFFFFF_FFFFFF0E_0D0C0804_03020100,
    0xFFFFFFFF_FFFFFFFF_FF0E0D0C_08050400,
    0xFFFFFFFF_FFFFFFFF_0E0D0C08_05040100,
    0xFFFFFFFF_FFFFFF0E_0D0C0805_04020100,
    0xFFFFFFFF_FFFF0E0D_0C080504_03020100,
    0xFFFFFFFF_FFFFFFFF_0E0D0C08_06050400,
    0xFFFFFFFF_FFFFFF0E_0D0C0806_05040100,
    0xFFFFFFFF_FFFF0E0D_0C080605_04020100,
    0xFFFFFFFF_FF0E0D0C_08060504_03020100,
    0xFFFFFFFF_FFFFFF0E_0D0C0807_06050400,
    0xFFFFFFFF_FFFF0E0D_0C080706_05040100,
    0xFFFFFFFF_FF0E0D0C_08070605_04020100,
    0xFFFFFFFF_0E0D0C08_07060504_03020100,
    0xFFFFFFFF_FFFFFFFF_FF0E0D0C_09080400,
    0xFFFFFFFF_FFFFFFFF_0E0D0C09_08040100,
    0xFFFFFFFF_FFFFFF0E_0D0C0908_04020100,
    0xFFFFFFFF_FFFF0E0D_0C090804_03020100,
    0xFFFFFFFF_FFFFFFFF_0E0D0C09_08050400,
    0xFFFFFFFF_FFFFFF0E_0D0C0908_05040100,
    0xFFFFFFFF_FFFF0E0D_0C090805_04020100,
    0xFFFFFFFF_FF0E0D0C_09080504_03020100,
    0xFFFFFFFF_FFFFFF0E_0D0C0908_06050400,
    0xFFFFFFFF_FFFF0E0D_0C090806_05040100,
    0xFFFFFFFF_FF0E0D0C_09080605_04020100,
    0xFFFFFFFF_0E0D0C09_08060504_03020100,
    0xFFFFFFFF_FFFF0E0D_0C090807_06050400,
    0xFFFFFFFF_FF0E0D0C_09080706_05040100,
    0xFFFFFFFF_0E0D0C09_08070605_04020100,
    0xFFFFFF0E_0D0C0908_07060504_03020100,
    0xFFFFFFFF_FFFFFFFF_0E0D0C0A_09080400,
    0xFFFFFFFF_FFFFFF0E_0D0C0A09_08040100,
    0xFFFFFFFF_FFFF0E0D_0C0A0908_04020100,
    0xFFFFFFFF_FF0E0D0C_0A090804_03020100,
    0xFFFFFFFF_FFFFFF0E_0D0C0A09_08050400,
    0xFFFFFFFF_FFFF0E0D_0C0A0908_05040100,
    0xFFFFFFFF_FF0E0D0C_0A090805_04020100,
    0xFFFFFFFF_0E0D0C0A_09080504_03020100,
    0xFFFFFFFF_FFFF0E0D_0C0A0908_06050400,
    0xFFFFFFFF_FF0E0D0C_0A090806_05040100,
    0xFFFFFFFF_0E0D0C0A_09080605_04020100,
    0xFFFFFF0E_0D0C0A09_08060504_03020100,
    0xFFFFFFFF_FF0E0D0C_0A090807_06050400,
    0xFFFFFFFF_0E0D0C0A_09080706_05040100,
    0xFFFFFF0E_0D0C0A09_08070605_04020100,
    0xFFFF0E0D_0C0A0908_07060504_03020100,
    0xFFFFFFFF_FFFFFF0E_0D0C0B0A_09080400,
    0xFFFFFFFF_FFFF0E0D_0C0B0A09_08040100,
    0xFFFFFFFF_FF0E0D0C_0B0A0908_04020100,
    0xFFFFFFFF_0E0D0C0B_0A090804_03020100,
    0xFFFFFFFF_FFFF0E0D_0C0B0A09_08050400,
    0xFFFFFFFF_FF0E0D0C_0B0A0908_05040100,
    0xFFFFFFFF_0E0D0C0B_0A090805_04020100,
    0xFFFFFF0E_0D0C0B0A_09080504_03020100,
    0xFFFFFFFF_FF0E0D0C_0B0A0908_06050400,
    0xFFFFFFFF_0E0D0C0B_0A090806_05040100,
    0xFFFFFF0E_0D0C0B0A_09080605_04020100,
    0xFFFF0E0D_0C0B0A09_08060504_03020100,
    0xFFFFFFFF_0E0D0C0B_0A090807_06050400,
    0xFFFFFF0E_0D0C0B0A_09080706_05040100,
    0xFFFF0E0D_0C0B0A09_08070605_04020100,
    0xFF0E0D0C_0B0A0908_07060504_03020100,
    0xFFFFFFFF_FFFFFFFF_FF0F0E0D_0C080400,
    0xFFFFFFFF_FFFFFFFF_0F0E0D0C_08040100,
    0xFFFFFFFF_FFFFFF0F_0E0D0C08_04020100,
    0xFFFFFFFF_FFFF0F0E_0D0C0804_03020100,
    0xFFFFFFFF_FFFFFFFF_0F0E0D0C_08050400,
    0xFFFFFFFF_FFFFFF0F_0E0D0C08_05040100,
    0xFFFFFFFF_FFFF0F0E_0D0C0805_04020100,
    0xFFFFFFFF_FF0F0E0D_0C080504_03020100,
    0xFFFFFFFF_FFFFFF0F_0E0D0C08_06050400,
    0xFFFFFFFF_FFFF0F0E_0D0C0806_05040100,
    0xFFFFFFFF_FF0F0E0D_0C080605_04020100,
    0xFFFFFFFF_0F0E0D0C_08060504_03020100,
    0xFFFFFFFF_FFFF0F0E_0D0C0807_06050400,
    0xFFFFFFFF_FF0F0E0D_0C080706_05040100,
    0xFFFFFFFF_0F0E0D0C_08070605_04020100,
    0xFFFFFF0F_0E0D0C08_07060504_03020100,
    0xFFFFFFFF_FFFFFFFF_0F0E0D0C_09080400,
    0xFFFFFFFF_FFFFFF0F_0E0D0C09_08040100,
    0xFFFFFFFF_FFFF0F0E_0D0C0908_04020100,
    0xFFFFFFFF_FF0F0E0D_0C090804_03020100,
    0xFFFFFFFF_FFFFFF0F_0E0D0C09_08050400,
    0xFFFFFFFF_FFFF0F0E_0D0C0908_05040100,
    0xFFFFFFFF_FF0F0E0D_0C090805_04020100,
    0xFFFFFFFF_0F0E0D0C_09080504_03020100,
    0xFFFFFFFF_FFFF0F0E_0D0C0908_06050400,
    0xFFFFFFFF_FF0F0E0D_0C090806_05040100,
    0xFFFFFFFF_0F0E0D0C_09080605_04020100,
    0xFFFFFF0F_0E0D0C09_08060504_03020100,
    0xFFFFFFFF_FF0F0E0D_0C090807_06050400,
    0xFFFFFFFF_0F0E0D0C_09080706_05040100,
    0xFFFFFF0F_0E0D0C09_08070605_04020100,
    0xFFFF0F0E_0D0C0908_07060504_03020100,
    0xFFFFFFFF_FFFFFF0F_0E0D0C0A_09080400,
    0xFFFFFFFF_FFFF0F0E_0D0C0A09_08040100,
    0xFFFFFFFF_FF0F0E0D_0C0A0908_04020100,
    0xFFFFFFFF_0F0E0D0C_0A090804_03020100,
    0xFFFFFFFF_FFFF0F0E_0D0C0A09_08050400,
    0xFFFFFFFF_FF0F0E0D_0C0A0908_05040100,
    0xFFFFFFFF_0F0E0D0C_0A090805_04020100,
    0xFFFFFF0F_0E0D0C0A_09080504_03020100,
    0xFFFFFFFF_FF0F0E0D_0C0A0908_06050400,
    0xFFFFFFFF_0F0E0D0C_0A090806_05040100,
    0xFFFFFF0F_0E0D0C0A_09080605_04020100,
    0xFFFF0F0E_0D0C0A09_08060504_03020100,
    0xFFFFFFFF_0F0E0D0C_0A090807_06050400,
    0xFFFFFF0F_0E0D0C0A_09080706_05040100,
    0xFFFF0F0E_0D0C0A09_08070605_04020100,
    0xFF0F0E0D_0C0A0908_07060504_03020100,
    0xFFFFFFFF_FFFF0F0E_0D0C0B0A_09080400,
    0xFFFFFFFF_FF0F0E0D_0C0B0A09_08040100,
    0xFFFFFFFF_0F0E0D0C_0B0A0908_04020100,
    0xFFFFFF0F_0E0D0C0B_0A090804_03020100,
    0xFFFFFFFF_FF0F0E0D_0C0B0A09_08050400,
    0xFFFFFFFF_0F0E0D0C_0B0A0908_05040100,
    0xFFFFFF0F_0E0D0C0B_0A090805_04020100,
    0xFFFF0F0E_0D0C0B0A_09080504_03020100,
    0xFFFFFFFF_0F0E0D0C_0B0A0908_06050400,
    0xFFFFFF0F_0E0D0C0B_0A090806_05040100,
    0xFFFF0F0E_0D0C0B0A_09080605_04020100,
    0xFF0F0E0D_0C0B0A09_08060504_03020100,
    0xFFFFFF0F_0E0D0C0B_0A090807_06050400,
    0xFFFF0F0E_0D0C0B0A_09080706_05040100,
    0xFF0F0E0D_0C0B0A09_08070605_04020100,
    0x0F0E0D0C_0B0A0908_07060504_03020100,
];

/// The mask of entry `c`, as a word.
pub open spec fn control_mask_word(c: int) -> int {
    encode_mask_word(c % 4, c / 4 % 4, c / 16 % 4, c / 64 % 4)
}

proof fn lemma_encode_masks_0(c: int)
    requires
        0 <= c < 32,
    ensures
        ENCODE_SHUFFLE_TABLE[c] == control_mask_word(c),
{
    if c == 0 {
        assert(ENCODE_SHUFFLE_TABLE[0] == control_mask_word(0));
    } else if c == 1 {
        assert(ENCODE_SHUFFLE_TABLE[1] == control_mask_word(1));
    } else if c == 2 {
        assert(ENCODE_SHUFFLE_TABLE[2] == control_mask_word(2));
    } else if c == 3 {
        assert(ENCODE_SHUFFLE_TABLE[3] == control_mask_word(3));
    } else if c == 4 {
        assert(ENCODE_SHUFFLE_TABLE[4] == control_mask_word(4));
    } else if c == 5 {
        assert(ENCODE_SHUFFLE_TABLE[5] == control_mask_word(5));
    } else if c == 6 {
        assert(ENCODE_SHUFFLE_TABLE[6] == control_mask_word(6));
    } else if c == 7 {
        assert(ENCODE_SHUFFLE_TABLE[7] == control_mask_word(7));
    } else if c == 8 {
        assert(ENCODE_SHUFFLE_TABLE[8] == control_mask_word(8));
    } else if c == 9 {
        assert(ENCODE_SHUFFLE_TABLE[9] == control_mask_word(9));
    } else if c == 10 {
        assert(ENCODE_SHUFFLE_TABLE[10] == control_mask_word(10));
    } else if c == 11 {
        assert(ENCODE_SHUFFLE_TABLE[11] == control_mask_word(11));
    } else if c == 12 {
        assert(ENCODE_SHUFFLE_TABLE[12] == control_mask_word(12));
    } else if c == 13 {
        assert(ENCODE_SHUFFLE_TABLE[13] == control_mask_word(13));
    } else if c == 14 {
        assert(ENCODE_SHUFFLE_TABLE[14] == control_mask_word(14));
    } else if c == 15 {
        assert(ENCODE_SHUFFLE_TABLE[15] == control_mask_word(15));
    } else if c == 16 {
        assert(ENCODE_SHUFFLE_TABLE[16] == control_mask_word(16));
    } else if c == 17 {
        assert(ENCODE_SHUFFLE_TABLE[17] == control_mask_word(17));
    } else if c == 18 {
        assert(ENCODE_SHUFFLE_TABLE[18] == control_mask_word(18));
    } else if c == 19 {
        assert(ENCODE_SHUFFLE_TABLE[19] == control_mask_word(19));
    } else if c == 20 {
        assert(ENCODE_SHUFFLE_TABLE[20] == control_mask_word(20));
    } else if c == 21 {
        assert(ENCODE_SHUFFLE_TABLE[21] == control_mask_word(21));
    } else if c == 22 {
        assert(ENCODE_SHUFFLE_TABLE[22] == control_mask_word(22));
    } else if c == 23 {
        assert(ENCODE_SHUFFLE_TABLE[23] == control_mask_word(23));
    } else if c == 24 {
        assert(ENCODE_SHUFFLE_TABLE[24] == control_mask_word(24));
    } else if c == 25 {
        assert(ENCODE_SHUFFLE_TABLE[25] == control_mask_word(25));
    } else if c == 26 {
        assert(ENCODE_SHUFFLE_TABLE[26] == control_mask_word(26));
    } else if c == 27 {
        assert(ENCODE_SHUFFLE_TABLE[27] == control_mask_word(27));
    } else if c == 28 {
        assert(ENCODE_SHUFFLE_TABLE[28] == control_mask_word(28));
    } else if c == 29 {
        assert(ENCODE_SHUFFLE_TABLE[29] == control_mask_word(29));
    } else if c == 30 {
        assert(ENCODE_SHUFFLE_TABLE[30] == control_mask_word(30));
    } else if c == 31 {
        assert(ENCODE_SHUFFLE_TABLE[31] == control_mask_word(31));
    }
}

proof fn lemma_encode_masks_32(c: int)
    requires
        32 <= c < 64,
    ensures
        ENCODE_SHUFFLE_TABLE[c] == control_mask_word(c),
{
    if c == 32 {
        assert(ENCODE_SHUFFLE_TABLE[32] == control_mask_word(32));
    } else if c == 33 {
        assert(ENCODE_SHUFFLE_TABLE[33] == control_mask_word(33));
    } else if c == 34 {
        assert(ENCODE_SHUFFLE_TABLE[34] == control_mask_word(34));
    } else if c == 35 {
        assert(ENCODE_SHUFFLE_TABLE[35] == control_mask_word(35));
    } else if c == 36 {
        assert(ENCODE_SHUFFLE_TABLE[36] == control_mask_word(36));
    } else if c == 37 {
        assert(ENCODE_SHUFFLE_TABLE[37] == control_mask_word(37));
    } else if c == 38 {
        assert(ENCODE_SHUFFLE_TABLE[38] == control_mask_word(38));
    } else if c == 39 {
        assert(ENCODE_SHUFFLE_TABLE[39] == control_mask_word(39));
    } else if c == 40 {
        assert(ENCODE_SHUFFLE_TABLE[40] == control_mask_word(40));
    } else if c == 41 {
        assert(ENCODE_SHUFFLE_TABLE[41] == control_mask_word(41));
    } else if c == 42 {
        assert(ENCODE_SHUFFLE_TABLE[42] == control_mask_word(42));
    } else if c == 43 {
        assert(ENCODE_SHUFFLE_TABLE[43] == control_mask_word(43));
    } else if c == 44 {
        assert(ENCODE_SHUFFLE_TABLE[44] == control_mask_word(44));
    } else if c == 45 {
        assert(ENCODE_SHUFFLE_TABLE[45] == control_mask_word(45));
    } else if c == 46 {
        assert(ENCODE_SHUFFLE_TABLE[46] == control_mask_word(46));
    } else if c == 47 {
        assert(ENCODE_SHUFFLE_TABLE[47] == control_mask_word(47));
    } else if c == 48 {
        assert(ENCODE_SHUFFLE_TABLE[48] == control_mask_word(48));
    } else if c == 49 {
        assert(ENCODE_SHUFFLE_TABLE[49] == control_mask_word(49));
    } else if c == 50 {
        assert(ENCODE_SHUFFLE_TABLE[50] == control_mask_word(50));
    } else if c == 51 {
        assert(ENCODE_SHUFFLE_TABLE[51] == control_mask_word(51));
    } else if c == 52 {
        assert(ENCODE_SHUFFLE_TABLE[52] == control_mask_word(52));
    } else if c == 53 {
        assert(ENCODE_SHUFFLE_TABLE[53] == control_mask_word(53));
    } else if c == 54 {
        assert(ENCODE_SHUFFLE_TABLE[54] == control_mask_word(54));
    } else if c == 55 {
        assert(ENCODE_SHUFFLE_TABLE[55] == control_mask_word(55));
    } else if c == 56 {
        assert(ENCODE_SHUFFLE_TABLE[56] == control_mask_word(56));
    } else if c == 57 {
        assert(ENCODE_SHUFFLE_TABLE[57] == control_mask_word(57));
    } else if c == 58 {
        assert(ENCODE_SHUFFLE_TABLE[58] == control_mask_word(58));
    } else if c == 59 {
        assert(ENCODE_SHUFFLE_TABLE[59] == control_mask_word(59));
    } else if c == 60 {
        assert(ENCODE_SHUFFLE_TABLE[60] == control_mask_word(60));
    } else if c == 61 {
        assert(ENCODE_SHUFFLE_TABLE[61] == control_mask_word(61));
    } else if c == 62 {
        assert(ENCODE_SHUFFLE_TABLE[62] == control_mask_word(62));
    } else if c == 63 {
        assert(ENCODE_SHUFFLE_TABLE[63] == control_mask_word(63));
    }
}

proof fn lemma_encode_masks_64(c: int)
    requires
        64 <= c < 96,
    ensures
        ENCODE_SHUFFLE_TABLE[c] == control_mask_word(c),
{
    if c == 64 {
        assert(ENCODE_SHUFFLE_TABLE[64] == control_mask_word(64));
    } else if c == 65 {
        assert(ENCODE_SHUFFLE_TABLE[65] == control_mask_word(65));
    } else if c == 66 {
        assert(ENCODE_SHUFFLE_TABLE[66] == control_mask_word(66));
    } else if c == 67 {
        assert(ENCODE_SHUFFLE_TABLE[67] == control_mask_word(67));
    } else if c == 68 {
        assert(ENCODE_SHUFFLE_TABLE[68] == control_mask_word(68));
    } else if c == 69 {
        assert(ENCODE_SHUFFLE_TABLE[69] == control_mask_word(69));
    } else if c == 70 {
        assert(ENCODE_SHUFFLE_TABLE[70] == control_mask_word(70));
    } else if c == 71 {
        assert(ENCODE_SHUFFLE_TABLE[71] == control_mask_word(71));
    } else if c == 72 {
        assert(ENCODE_SHUFFLE_TABLE[72] == control_mask_word(72));
    } else if c == 73 {
        assert(ENCODE_SHUFFLE_TABLE[73] == control_mask_word(73));
    } else if c == 74 {
        assert(ENCODE_SHUFFLE_TABLE[74] == control_mask_word(74));
    } else if c == 75 {
        assert(ENCODE_SHUFFLE_TABLE[75] == control_mask_word(75));
    } else if c == 76 {
        assert(ENCODE_SHUFFLE_TABLE[76] == control_mask_word(76));
    } else if c == 77 {
        assert(ENCODE_SHUFFLE_TABLE[77] == control_mask_word(77));
    } else if c == 78 {
        assert(ENCODE_SHUFFLE_TABLE[78] == control_mask_word(78));
    } else if c == 79 {
        assert(ENCODE_SHUFFLE_TABLE[79] == control_mask_word(79));
    } else if c == 80 {
        assert(ENCODE_SHUFFLE_TABLE[80] == control_mask_word(80));
    } else if c == 81 {
        assert(ENCODE_SHUFFLE_TABLE[81] == control_mask_word(81));
    } else if c == 82 {
        assert(ENCODE_SHUFFLE_TABLE[82] == control_mask_word(82));
    } else if c == 83 {
        assert(ENCODE_SHUFFLE_TABLE[83] == control_mask_word(83));
    } else if c == 84 {
        assert(ENCODE_SHUFFLE_TABLE[84] == control_mask_word(84));
    } else if c == 85 {
        assert(ENCODE_SHUFFLE_TABLE[85] == control_mask_word(85));
    } else if c == 86 {
        assert(ENCODE_SHUFFLE_TABLE[86] == control_mask_word(86));
    } else if c == 87 {
        assert(ENCODE_SHUFFLE_TABLE[87] == control_mask_word(87));
    } else if c == 88 {
        assert(ENCODE_SHUFFLE_TABLE[88] == control_mask_word(88));
    } else if c == 89 {
        assert(ENCODE_SHUFFLE_TABLE[89] == control_mask_word(89));
    } else if c == 90 {
        assert(ENCODE_SHUFFLE_TABLE[90] == control_mask_word(90));
    } else if c == 91 {
        assert(ENCODE_SHUFFLE_TABLE[91] == control_mask_word(91));
    } else if c == 92 {
        assert(ENCODE_SHUFFLE_TABLE[92] == control_mask_word(92));
    } else if c == 93 {
        assert(ENCODE_SHUFFLE_TABLE[93] == control_mask_word(93));
    } else if c == 94 {
        assert(ENCODE_SHUFFLE_TABLE[94] == control_mask_word(94));
    } else if c == 95 {
        assert(ENCODE_SHUFFLE_TABLE[95] == control_mask_word(95));
    }
}

proof fn lemma_encode_masks_96(c: int)
    requires
        96 <= c < 128,
    ensures
        ENCODE_SHUFFLE_TABLE[c] == control_mask_word(c),
{
    if c == 96 {
        assert(ENCODE_SHUFFLE_TABLE[96] == control_mask_word(96));
    } else if c == 97 {
        assert(ENCODE_SHUFFLE_TABLE[97] == control_mask_word(97));
    } else if c == 98 {
        assert(ENCODE_SHUFFLE_TABLE[98] == control_mask_word(98));
    } else if c == 99 {
        assert(ENCODE_SHUFFLE_TABLE[99] == control_mask_word(99));
    } else if c == 100 {
        assert(ENCODE_SHUFFLE_TABLE[100] == control_mask_word(100));
    } else if c == 101 {
        assert(ENCODE_SHUFFLE_TABLE[101] == control_mask_word(101));
    } else if c == 102 {
        assert(ENCODE_SHUFFLE_TABLE[102] == control_mask_word(102));
    } else if c == 103 {
        assert(ENCODE_SHUFFLE_TABLE[103] == control_mask_word(103));
    } else if c == 104 {
        assert(ENCODE_SHUFFLE_TABLE[104] == control_mask_word(104));
    } else if c == 105 {
        assert(ENCODE_SHUFFLE_TABLE[105] == control_mask_word(105));
    } else if c == 106 {
        assert(ENCODE_SHUFFLE_TABLE[106] == control_mask_word(106));
    } else if c == 107 {
        assert(ENCODE_SHUFFLE_TABLE[107] == control_mask_word(107));
    } else if c == 108 {
        assert(ENCODE_SHUFFLE_TABLE[108] == control_mask_word(108));
    } else if c == 109 {
        assert(ENCODE_SHUFFLE_TABLE[109] == control_mask_word(109));
    } else if c == 110 {
        assert(ENCODE_SHUFFLE_TABLE[110] == control_mask_word(110));
    } else if c == 111 {
        assert(ENCODE_SHUFFLE_TABLE[111] == control_mask_word(111));
    } else if c == 112 {
        assert(ENCODE_SHUFFLE_TABLE[112] == control_mask_word(112));
    } else if c == 113 {
        assert(ENCODE_SHUFFLE_TABLE[113] == control_mask_word(113));
    } else if c == 114 {
        assert(ENCODE_SHUFFLE_TABLE[114] == control_mask_word(114));
    } else if c == 115 {
        assert(ENCODE_SHUFFLE_TABLE[115] == control_mask_word(115));
    } else if c == 116 {
        assert(ENCODE_SHUFFLE_TABLE[116] == control_mask_word(116));
    } else if c == 117 {
        assert(ENCODE_SHUFFLE_TABLE[117] == control_mask_word(117));
    } else if c == 118 {
        assert(ENCODE_SHUFFLE_TABLE[118] == control_mask_word(118));
    } else if c == 119 {
        assert(ENCODE_SHUFFLE_TABLE[119] == control_mask_word(119));
    } else if c == 120 {
        assert(ENCODE_SHUFFLE_TABLE[120] == control_mask_word(120));
    } else if c == 121 {
        assert(ENCODE_SHUFFLE_TABLE[121] == control_mask_word(121));
    } else if c == 122 {
        assert(ENCODE_SHUFFLE_TABLE[122] == control_mask_word(122));
    } else if c == 123 {
        assert(ENCODE_SHUFFLE_TABLE[123] == control_mask_word(123));
    } else if c == 124 {
        assert(ENCODE_SHUFFLE_TABLE[124] == control_mask_word(124));
    } else if c == 125 {
        assert(ENCODE_SHUFFLE_TABLE[125] == control_mask_word(125));
    } else if c == 126 {
        assert(ENCODE_SHUFFLE_TABLE[126] == control_mask_word(126));
    } else if c == 127 {
        assert(ENCODE_SHUFFLE_TABLE[127] == control_mask_word(127));
    }
}

proof fn lemma_encode_masks_128(c: int)
    requires
        128 <= c < 160,
    ensures
        ENCODE_SHUFFLE_TABLE[c] == control_mask_word(c),
{
    if c == 128 {
        assert(ENCODE_SHUFFLE_TABLE[128] == control_mask_word(128));
    } else if c == 129 {
        assert(ENCODE_SHUFFLE_TABLE[129] == control_mask_word(129));
    } else if c == 130 {
        assert(ENCODE_SHUFFLE_TABLE[130] == control_mask_word(130));
    } else if c == 131 {
        assert(ENCODE_SHUFFLE_TABLE[131] == control_mask_word(131));
    } else if c == 132 {
        assert(ENCODE_SHUFFLE_TABLE[132] == control_mask_word(132));
    } else if c == 133 {
        assert(ENCODE_SHUFFLE_TABLE[133] == control_mask_word(133));
    } else if c == 134 {
        assert(ENCODE_SHUFFLE_TABLE[134] == control_mask_word(134));
    } else if c == 135 {
        assert(ENCODE_SHUFFLE_TABLE[135] == control_mask_word(135));
    } else if c == 136 {
        assert(ENCODE_SHUFFLE_TABLE[136] == control_mask_word(136));
    } else if c == 137 {
        assert(ENCODE_SHUFFLE_TABLE[137] == control_mask_word(137));
    } else if c == 138 {
        assert(ENCODE_SHUFFLE_TABLE[138] == control_mask_word(138));
    } else if c == 139 {
        assert(ENCODE_SHUFFLE_TABLE[139] == control_mask_word(139));
    } else if c == 140 {
        assert(ENCODE_SHUFFLE_TABLE[140] == control_mask_word(140));
    } else if c == 141 {
        assert(ENCODE_SHUFFLE_TABLE[141] == control_mask_word(141));
    } else if c == 142 {
        assert(ENCODE_SHUFFLE_TABLE[142] == control_mask_word(142));
    } else if c == 143 {
        assert(ENCODE_SHUFFLE_TABLE[143] == control_mask_word(143));
    } else if c == 144 {
        assert(ENCODE_SHUFFLE_TABLE[144] == control_mask_word(144));
    } else if c == 145 {
        assert(ENCODE_SHUFFLE_TABLE[145] == control_mask_word(145));
    } else if c == 146 {
        assert(ENCODE_SHUFFLE_TABLE[146] == control_mask_word(146));
    } else if c == 147 {
        assert(ENCODE_SHUFFLE_TABLE[147] == control_mask_word(147));
    } else if c == 148 {
        assert(ENCODE_SHUFFLE_TABLE[148] == control_mask_word(148));
    } else if c == 149 {
        assert(ENCODE_SHUFFLE_TABLE[149] == control_mask_word(149));
    } else if c == 150 {
        assert(ENCODE_SHUFFLE_TABLE[150] == control_mask_word(150));
    } else if c == 151 {
        assert(ENCODE_SHUFFLE_TABLE[151] == control_mask_word(151));
    } else if c == 152 {
        assert(ENCODE_SHUFFLE_TABLE[152] == control_mask_word(152));
    } else if c == 153 {
        assert(ENCODE_SHUFFLE_TABLE[153] == control_mask_word(153));
    } else if c == 154 {
        assert(ENCODE_SHUFFLE_TABLE[154] == control_mask_word(154));
    } else if c == 155 {
        assert(ENCODE_SHUFFLE_TABLE[155] == control_mask_word(155));
    } else if c == 156 {
        assert(ENCODE_SHUFFLE_TABLE[156] == control_mask_word(156));
    } else if c == 157 {
        assert(ENCODE_SHUFFLE_TABLE[157] == control_mask_word(157));
    } else if c == 158 {
        assert(ENCODE_SHUFFLE_TABLE[158] == control_mask_word(158));
    } else if c == 159 {
        assert(ENCODE_SHUFFLE_TABLE[159] == control_mask_word(159));
    }
}

proof fn lemma_encode_masks_160(c: int)
    requires
        160 <= c < 192,
    ensures
        ENCODE_SHUFFLE_TABLE[c] == control_mask_word(c),
{
    if c == 160 {
        assert(ENCODE_SHUFFLE_TABLE[160] == control_mask_word(160));
    } else if c == 161 {
        assert(ENCODE_SHUFFLE_TABLE[161] == control_mask_word(161));
    } else if c == 162 {
        assert(ENCODE_SHUFFLE_TABLE[162] == control_mask_word(162));
    } else if c == 163 {
        assert(ENCODE_SHUFFLE_TABLE[163] == control_mask_word(163));
    } else if c == 164 {
        assert(ENCODE_SHUFFLE_TABLE[164] == control_mask_word(164));
    } else if c == 165 {
        assert(ENCODE_SHUFFLE_TABLE[165] == control_mask_word(165));
    } else if c == 166 {
        assert(ENCODE_SHUFFLE_TABLE[166] == control_mask_word(166));
    } else if c == 167 {
        assert(ENCODE_SHUFFLE_TABLE[167] == control_mask_word(167));
    } else if c == 168 {
        assert(ENCODE_SHUFFLE_TABLE[168] == control_mask_word(168));
    } else if c == 169 {
        assert(ENCODE_SHUFFLE_TABLE[169] == control_mask_word(169));
    } else if c == 170 {
        assert(ENCODE_SHUFFLE_TABLE[170] == control_mask_word(170));
    } else if c == 171 {
        assert(ENCODE_SHUFFLE_TABLE[171] == control_mask_word(171));
    } else if c == 172 {
        assert(ENCODE_SHUFFLE_TABLE[172] == control_mask_word(172));
    } else if c == 173 {
        assert(ENCODE_SHUFFLE_TABLE[173] == control_mask_word(173));
    } else if c == 174 {
        assert(ENCODE_SHUFFLE_TABLE[174] == control_mask_word(174));
    } else if c == 175 {
        assert(ENCODE_SHUFFLE_TABLE[175] == control_mask_word(175));
    } else if c == 176 {
        assert(ENCODE_SHUFFLE_TABLE[176] == control_mask_word(176));
    } else if c == 177 {
        assert(ENCODE_SHUFFLE_TABLE[177] == control_mask_word(177));
    } else if c == 178 {
        assert(ENCODE_SHUFFLE_TABLE[178] == control_mask_word(178));
    } else if c == 179 {
        assert(ENCODE_SHUFFLE_TABLE[179] == control_mask_word(179));
    } else if c == 180 {
        assert(ENCODE_SHUFFLE_TABLE[180] == control_mask_word(180));
    } else if c == 181 {
        assert(ENCODE_SHUFFLE_TABLE[181] == control_mask_word(181));
    } else if c == 182 {
        assert(ENCODE_SHUFFLE_TABLE[182] == control_mask_word(182));
    } else if c == 183 {
        assert(ENCODE_SHUFFLE_TABLE[183] == control_mask_word(183));
    } else if c == 184 {
        assert(ENCODE_SHUFFLE_TABLE[184] == control_mask_word(184));
    } else if c == 185 {
        assert(ENCODE_SHUFFLE_TABLE[185] == control_mask_word(185));
    } else if c == 186 {
        assert(ENCODE_SHUFFLE_TABLE[186] == control_mask_word(186));
    } else if c == 187 {
        assert(ENCODE_SHUFFLE_TABLE[187] == control_mask_word(187));
    } else if c == 188 {
        assert(ENCODE_SHUFFLE_TABLE[188] == control_mask_word(188));
    } else if c == 189 {
        assert(ENCODE_SHUFFLE_TABLE[189] == control_mask_word(189));
    } else if c == 190 {
        assert(ENCODE_SHUFFLE_TABLE[190] == control_mask_word(190));
    } else if c == 191 {
        assert(ENCODE_SHUFFLE_TABLE[191] == control_mask_word(191));
    }
}

proof fn lemma_encode_masks_192(c: int)
    requires
        192 <= c < 224,
    ensures
        ENCODE_SHUFFLE_TABLE[c] == control_mask_word(c),
{
    if c == 192 {
        assert(ENCODE_SHUFFLE_TABLE[192] == control_mask_word(192));
    } else if c == 193 {
        assert(ENCODE_SHUFFLE_TABLE[193] == control_mask_word(193));
    } else if c == 194 {
        assert(ENCODE_SHUFFLE_TABLE[194] == control_mask_word(194));
    } else if c == 195 {
        assert(ENCODE_SHUFFLE_TABLE[195] == control_mask_word(195));
    } else if c == 196 {
        assert(ENCODE_SHUFFLE_TABLE[196] == control_mask_word(196));
    } else if c == 197 {
        assert(ENCODE_SHUFFLE_TABLE[197] == control_mask_word(197));
    } else if c == 198 {
        assert(ENCODE_SHUFFLE_TABLE[198] == control_mask_word(198));
    } else if c == 199 {
        assert(ENCODE_SHUFFLE_TABLE[199] == control_mask_word(199));
    } else if c == 200 {
        assert(ENCODE_SHUFFLE_TABLE[200] == control_mask_word(200));
    } else if c == 201 {
        assert(ENCODE_SHUFFLE_TABLE[201] == control_mask_word(201));
    } else if c == 202 {
        assert(ENCODE_SHUFFLE_TABLE[202] == control_mask_word(202));
    } else if c == 203 {
        assert(ENCODE_SHUFFLE_TABLE[203] == control_mask_word(203));
    } else if c == 204 {
        assert(ENCODE_SHUFFLE_TABLE[204] == control_mask_word(204));
    } else if c == 205 {
        assert(ENCODE_SHUFFLE_TABLE[205] == control_mask_word(205));
    } else if c == 206 {
        assert(ENCODE_SHUFFLE_TABLE[206] == control_mask_word(206));
    } else if c == 207 {
        assert(ENCODE_SHUFFLE_TABLE[207] == control_mask_word(207));
    } else if c == 208 {
        assert(ENCODE_SHUFFLE_TABLE[208] == control_mask_word(208));
    } else if c == 209 {
        assert(ENCODE_SHUFFLE_TABLE[209] == control_mask_word(209));
    } else if c == 210 {
        assert(ENCODE_SHUFFLE_TABLE[210] == control_mask_word(210));
    } else if c == 211 {
        assert(ENCODE_SHUFFLE_TABLE[211] == control_mask_word(211));
    } else if c == 212 {
        assert(ENCODE_SHUFFLE_TABLE[212] == control_mask_word(212));
    } else if c == 213 {
        assert(ENCODE_SHUFFLE_TABLE[213] == control_mask_word(213));
    } else if c == 214 {
        assert(ENCODE_SHUFFLE_TABLE[214] == control_mask_word(214));
    } else if c == 215 {
        assert(ENCODE_SHUFFLE_TABLE[215] == control_mask_word(215));
    } else if c == 216 {
        assert(ENCODE_SHUFFLE_TABLE[216] == control_mask_word(216));
    } else if c == 217 {
        assert(ENCODE_SHUFFLE_TABLE[217] == control_mask_word(217));
    } else if c == 218 {
        assert(ENCODE_SHUFFLE_TABLE[218] == control_mask_word(218));
    } else if c == 219 {
        assert(ENCODE_SHUFFLE_TABLE[219] == control_mask_word(219));
    } else if c == 220 {
        assert(ENCODE_SHUFFLE_TABLE[220] == control_mask_word(220));
    } else if c == 221 {
        assert(ENCODE_SHUFFLE_TABLE[221] == control_mask_word(221));
    } else if c == 222 {
        assert(ENCODE_SHUFFLE_TABLE[222] == control_mask_word(222));
    } else if c == 223 {
        assert(ENCODE_SHUFFLE_TABLE[223] == control_mask_word(223));
    }
}

proof fn lemma_encode_masks_224(c: int)
    requires
        224 <= c < 256,
    ensures
        ENCODE_SHUFFLE_TABLE[c] == control_mask_word(c),
{
    if c == 224 {
        assert(ENCODE_SHUFFLE_TABLE[224] == control_mask_word(224));
    } else if c == 225 {
        assert(ENCODE_SHUFFLE_TABLE[225] == control_mask_word(225));
    } else if c == 226 {
        assert(ENCODE_SHUFFLE_TABLE[226] == control_mask_word(226));
    } else if c == 227 {
        assert(ENCODE_SHUFFLE_TABLE[227] == control_mask_word(227));
    } else if c == 228 {
        assert(ENCODE_SHUFFLE_TABLE[228] == control_mask_word(228));
    } else if c == 229 {
        assert(ENCODE_SHUFFLE_TABLE[229] == control_mask_word(229));
    } else if c == 230 {
        assert(ENCODE_SHUFFLE_TABLE[230] == control_mask_word(230));
    } else if c == 231 {
        assert(ENCODE_SHUFFLE_TABLE[231] == control_mask_word(231));
    } else if c == 232 {
        assert(ENCODE_SHUFFLE_TABLE[232] == control_mask_word(232));
    } else if c == 233 {
        assert(ENCODE_SHUFFLE_TABLE[233] == control_mask_word(233));
    } else if c == 234 {
        assert(ENCODE_SHUFFLE_TABLE[234] == control_mask_word(234));
    } else if c == 235 {
        assert(ENCODE_SHUFFLE_TABLE[235] == control_mask_word(235));
    } else if c == 236 {
        assert(ENCODE_SHUFFLE_TABLE[236] == control_mask_word(236));
    } else if c == 237 {
        assert(ENCODE_SHUFFLE_TABLE[237] == control_mask_word(237));
    } else if c == 238 {
        assert(ENCODE_SHUFFLE_TABLE[238] == control_mask_word(238));
    } else if c == 239 {
        assert(ENCODE_SHUFFLE_TABLE[239] == control_mask_word(239));
    } else if c == 240 {
        assert(ENCODE_SHUFFLE_TABLE[240] == control_mask_word(240));
    } else if c == 241 {
        assert(ENCODE_SHUFFLE_TABLE[241] == control_mask_word(241));
    } else if c == 242 {
        assert(ENCODE_SHUFFLE_TABLE[242] == control_mask_word(242));
    } else if c == 243 {
        assert(ENCODE_SHUFFLE_TABLE[243] == control_mask_word(243));
    } else if c == 244 {
        assert(ENCODE_SHUFFLE_TABLE[244] == control_mask_word(244));
    } else if c == 245 {
        assert(ENCODE_SHUFFLE_TABLE[245] == control_mask_word(245));
    } else if c == 246 {
        assert(ENCODE_SHUFFLE_TABLE[246] == control_mask_word(246));
    } else if c == 247 {
        assert(ENCODE_SHUFFLE_TABLE[247] == control_mask_word(247));
    } else if c == 248 {
        assert(ENCODE_SHUFFLE_TABLE[248] == control_mask_word(248));
    } else if c == 249 {
        assert(ENCODE_SHUFFLE_TABLE[249] == control_mask_word(249));
    } else if c == 250 {
        assert(ENCODE_SHUFFLE_TABLE[250] == control_mask_word(250));
    } else if c == 251 {
        assert(ENCODE_SHUFFLE_TABLE[251] == control_mask_word(251));
    } else if c == 252 {
        assert(ENCODE_SHUFFLE_TABLE[252] == control_mask_word(252));
    } else if c == 253 {
        assert(ENCODE_SHUFFLE_TABLE[253] == control_mask_word(253));
    } else if c == 254 {
        assert(ENCODE_SHUFFLE_TABLE[254] == control_mask_word(254));
    } else if c == 255 {
        assert(ENCODE_SHUFFLE_TABLE[255] == control_mask_word(255));
    }
}

/// Every entry of the encode shuffle table is the encode mask for the four
/// codes of its control byte.
pub proof fn lemma_encode_shuffle_table(control: u8)
    ensures
        ENCODE_SHUFFLE_TABLE[control as int] == pack_bytes(
            encode_mask(
                ctrl_code(control, 0) as int,
                ctrl_code(control, 1) as int,
                ctrl_code(control, 2) as int,
                ctrl_code(control, 3) as int,
            ),
        ),
{
    let c = control as int;
    if c < 32 {
        lemma_encode_masks_0(c);
    } else if c < 64 {
        lemma_encode_masks_32(c);
    } else if c < 96 {
        lemma_encode_masks_64(c);
    } else if c < 128 {
        lemma_encode_masks_96(c);
    } else if c < 160 {
        lemma_encode_masks_128(c);
    } else if c < 192 {
        lemma_encode_masks_160(c);
    } else if c < 224 {
        lemma_encode_masks_192(c);
    } else {
        lemma_encode_masks_224(c);
    }
    lemma_encode_mask_word(c % 4, c / 4 % 4, c / 16 % 4, c / 64 % 4);
}

/// The encode mask for a control byte, from the table.
pub fn encode_shuffle_mask(control: u8) -> (mask: [u8; 16])
    ensures
        mask@ == encode_mask(
            ctrl_code(control, 0) as int,
            ctrl_code(control, 1) as int,
            ctrl_code(control, 2) as int,
            ctrl_code(control, 3) as int,
        ),
{
    let mask: [u8; 16] = bytes_of_word(ENCODE_SHUFFLE_TABLE[control as usize]);
    proof {
        lemma_encode_shuffle_table(control);
        lemma_pack_bytes_unique(
            mask@,
            encode_mask(
                ctrl_code(control, 0) as int,
                ctrl_code(control, 1) as int,
                ctrl_code(control, 2) as int,
                ctrl_code(control, 3) as int,
            ),
        );
    }
    mask
}

/// Compacts four values into their data bytes and appends those to `output`.
/// `control` holds the codes of the values, `len` is the number of their data
/// bytes.
pub fn store_lane<L: LookupLanes>(
    output: &mut Vec<u8>,
    words: &[u32; 4],
    control: u8,
    len: usize,
)
    requires
        control == pack_codes(code(words@[0]), code(words@[1]), code(words@[2]), code(words@[3])),
        len == code(words@[0]) + code(words@[1]) + code(words@[2]) + code(words@[3]) + 4,
    ensures
        final(output)@ == old(output)@ + value_bytes(words@[0]) + value_bytes(words@[1])
            + value_bytes(words@[2]) + value_bytes(words@[3]),
{
    proof {
        lemma_lane_length(words@, control);
    }
    let databytes: [u8; 16] = bytes_of_words(words);
    let shuffle: [u8; 16] = encode_shuffle_mask(control);
    let compact: [u8; 16] = L::lookup_bytes(&databytes, &shuffle);
    let start: usize = output.len();
    append_bytes(output, &compact);
    assert(output.len() == start + 16);
    output.truncate(start + len);
    proof {
        lemma_lookup_is_shuffle(
            databytes@,
            shuffle@,
            code(words@[0]) as int,
            code(words@[1]) as int,
            code(words@[2]) as int,
            code(words@[3]) as int,
        );
        lemma_compacted(
            old(output)@,
            databytes@,
            words@,
            shuffle@,
            compact@,
            code(words@[3]) as int,
        );
    }
}

/// Encodes `input` behind the control bytes reserved for it, which are the
/// last bytes of `output` and start at index `controls`.
pub fn encode_worker<L: LookupLanes>(input: &[u32], output: &mut Vec<u8>, controls: usize)
    requires
        old(output).len() == controls + control_len(input.len() as nat),
    ensures
        final(output)@ == old(output)@.take(controls as int) + encoded(input@),
{
    let ghost prefix = output@.take(controls as int);
    let items: usize = input.len();
    let full_controls: usize = items / 4;
    proof {
        lemma_building_start(output@, prefix, input@);
    }
    // Four values per iteration: one lane, one control byte.
    let mut group: usize = 0;
    while group < full_controls
        invariant
            items == input.len(),
            full_controls == items / 4,
            group <= full_controls,
            prefix.len() == controls,
            building(output@, prefix, input@, group as int, 4 * group),
        decreases full_controls - group,
    {
        let at: usize = 4 * group;
        let ghost start = output@;
        let data: [u32; 4] = load_words(input, at);
        let (code, len) = lane_code_and_length::<L>(&data);
        store_lane::<L>(output, &data, code as u8, len as usize);
        proof {
            lemma_building_value(start, prefix, input@, group as int, at as int);
            lemma_building_value(
                start + value_bytes(input@[at as int]),
                prefix,
                input@,
                group as int,
                at + 1,
            );
            lemma_building_value(
                start + value_bytes(input@[at as int]) + value_bytes(input@[at + 1]),
                prefix,
                input@,
                group as int,
                at + 2,
            );
            lemma_building_value(
                start + value_bytes(input@[at as int]) + value_bytes(input@[at + 1]) + value_bytes(
                    input@[at + 2],
                ),
                prefix,
                input@,
                group as int,
                at + 3,
            );
            lemma_partial_key(input@, group as int, 4);
            lemma_building_control(output@, prefix, input@, group as int, at + 4);
            lemma_building_len(output@, prefix, input@, group as int, at + 4);
            assert(controls + group < output.len());
        }
        output[controls + group] = code as u8;
        group += 1;
    }
    let rest: usize = items % 4;
    if rest > 0 {
        let mut key: u32 = 0;
        // Handle the rest: a last control byte with fewer than four codes.
        let mut i: usize = 0;
        while i < rest
            invariant
                items == input.len(),
                full_controls == items / 4,
                rest == items % 4,
                group == full_controls,
                i <= rest,
                prefix.len() == controls,
                building(output@, prefix, input@, group as int, 4 * group + i),
                key == partial_key(input@, group as int, i as int),
            decreases rest - i,
        {
            let ghost start = output@;
            let symbol: u32 = store_word(output, input[4 * group + i]);
            proof {
                lemma_building_value(start, prefix, input@, group as int, 4 * group + i);
                lemma_key_slot(key, symbol, i as u32);
            }
            key |= symbol << ((i + i) as u32);
            i += 1;
        }
        proof {
            lemma_partial_key(input@, group as int, rest as int);
            lemma_building_control(output@, prefix, input@, group as int, items as int);
            lemma_building_len(output@, prefix, input@, group as int, items as int);
            assert(controls + group < output.len());
        }
        output[controls + group] = key as u8;
    }
    proof {
        lemma_building_done(output@, prefix, input@);
    }
}

/// The code of a value, computed without branching on the value.
pub fn encode_one(word: u32) -> (symbol: u32)
    ensures
        symbol == code(word),
        symbol <= 3,
{
    crate::scalar::encode::encode_one(word)
}

} // verus!
