//! Lane encoder: eight values per step. The codes of the eight values are
//! read off their bytes with a handful of lane operations, and a byte shuffle
//! compacts every four values into their data bytes.
use crate::bits::{lemma_key_slot, lemma_word_sum};
use crate::common::{control_bytes_len, max_len};
use crate::format::{
    code, control_len, ctrl_code, data_len, encoded, le_byte, le_value, lemma_encoded_len,
    pack_codes, value_bytes,
};
use crate::lanes::{
    append_bytes, bytes_of, bytes_of_word, bytes_of_words, high_bit, lemma_pack_bytes_unique,
    load_words, min_byte, min_signed16, pack_bytes, saturated_byte, saturated_sum16, signed16,
    word16, Portable, ShuffleLanes,
};
use crate::scalar::encode::{
    building, lemma_building_control, lemma_building_done, lemma_building_len, lemma_building_start,
    lemma_building_value, lemma_partial_key, partial_key, reserve_worst_case, store_word,
};
use crate::tables::compact::{
    encode_mask, encode_mask_word, lemma_compacted, lemma_encode_mask_word,
};
use crate::tables::len::{group_length, lemma_lane_length};
pub use crate::transform::{encode_all, Encoder, NoEncode, ZigZagEncode};
use vstd::prelude::*;

verus! {

/// Encodes `input`, after the transform of `E`, into a fresh buffer, on
/// portable lanes. Returns the number of values and the encoded bytes.
pub fn encode_simd<E: Encoder>(input: &[u32]) -> (res: (usize, Vec<u8>))
    ensures
        res.0 == input.len(),
        res.1@ == encoded(encode_all::<E>(input@)),
        res.1.len() == control_len(input.len() as nat) + data_len(encode_all::<E>(input@)),
        res.1.len() <= max_len(input.len() as nat),
{
    encode_simd_on::<E, Portable>(input)
}

/// Encodes `input`, after the transform of `E`, and appends the encoded
/// bytes to `output`, on portable lanes. Returns the number of values.
pub fn encode_into_simd<E: Encoder>(input: &[u32], output: &mut Vec<u8>) -> (items: usize)
    ensures
        items == input.len(),
        final(output)@ == old(output)@ + encoded(encode_all::<E>(input@)),
{
    encode_into_simd_on::<E, Portable>(input, output)
}

/// Encodes `input`, after the transform of `E`, into a fresh buffer, on the
/// lanes `L`. Returns the number of values and the encoded bytes.
pub fn encode_simd_on<E: Encoder, L: ShuffleLanes>(input: &[u32]) -> (res: (usize, Vec<u8>))
    ensures
        res.0 == input.len(),
        res.1@ == encoded(encode_all::<E>(input@)),
        res.1.len() == control_len(input.len() as nat) + data_len(encode_all::<E>(input@)),
        res.1.len() <= max_len(input.len() as nat),
{
    let mut output: Vec<u8> = Vec::new();
    let items: usize = encode_into_simd_on::<E, L>(input, &mut output);
    proof {
        lemma_encoded_len(encode_all::<E>(input@));
        assert(output@ =~= encoded(encode_all::<E>(input@)));
    }
    (items, output)
}

/// Encodes `input`, after the transform of `E`, and appends the encoded
/// bytes to `output`, on the lanes `L`. Returns the number of values.
pub fn encode_into_simd_on<E: Encoder, L: ShuffleLanes>(
    input: &[u32],
    output: &mut Vec<u8>,
) -> (items: usize)
    ensures
        items == input.len(),
        final(output)@ == old(output)@ + encoded(encode_all::<E>(input@)),
{
    let items: usize = input.len();
    if items == 0 {
        assert(output@ =~= output@ + encoded(encode_all::<E>(input@)));
        return 0;
    }
    reserve_worst_case(output, items);
    // The control bytes come first; the worker fills them in as it goes.
    let controls: usize = output.len();
    reserve_controls(output, control_bytes_len(items));
    encode_worker::<E, L>(input, output, controls);
    assert(output@.take(controls as int) =~= old(output)@);
    items
}

/// Appends `count` bytes for the control bytes to come.
pub fn reserve_controls(output: &mut Vec<u8>, count: usize)
    ensures
        final(output)@.len() == old(output)@.len() + count,
        final(output)@.take(old(output)@.len() as int) == old(output)@,
{
    let mut i: usize = 0;
    while i < count
        invariant
            i <= count,
            output@.len() == old(output)@.len() + i,
            output@.take(old(output)@.len() as int) == old(output)@,
        decreases count - i,
    {
        let ghost before = output@;
        output.push(0);
        assert(output@.take(old(output)@.len() as int) =~= before.take(
            old(output)@.len() as int,
        ));
        i += 1;
    }
}

/// The encoding shuffle table: for the codes of three values, held in six
/// bits, the mask that compacts four values of which the last is gathered
/// whole. A mask is sixteen bytes in a 128-bit word, byte 0 in the low bits.
pub const ENCODING_SHUFFLE_TABLE: [u128; 64] = [
    0xFFFFFFFF_FFFFFFFF_FF0F0E0D_0C080400,
    0xFFFFFFFF_FFFFFFFF_0F0E0D0C_08040100,
    0xFFFFFFFF_FFFFFF0F_0E0D0C08_04020100,
    0xFFFFFFFF_FFFF0F0E_0D0C0804_03020100,
    0xFFFFFFFF_FFFFFFFF_0F0E0D0C_08050400,
    0xFFFFFFFF_FFFFFF0F_0E0D0C08_05040100,
    0xFFFFFFFF_FFFF0F0E_0D0C0805_04020100,
    0xFFFFFFFF_FF0F0E0D_0C080504_03020100,
    0xFFFFFFFF_FFFFFF0F_0E0D0C08_06050400,
    0xFFFFFFFF_FFFF0F0E_0D0C0806_05040100,
    0xFFFFFFFF_FF0F0E0D_0C080605_04020100,
    0xFFFFFFFF_0F0E0D0C_08060504_03020100,
    0xFFFFFFFF_FFFF0F0E_0D0C0807_06050400,
    0xFFFFFFFF_FF0F0E0D_0C080706_05040100,
    0xFFFFFFFF_0F0E0D0C_08070605_04020100,
    0xFFFFFF0F_0E0D0C08_07060504_03020100,
    0xFFFFFFFF_FFFFFFFF_0F0E0D0C_09080400,
    0xFFFFFFFF_FFFFFF0F_0E0D0C09_08040100,
    0xFFFFFFFF_FFFF0F0E_0D0C0908_04020100,
    0xFFFFFFFF_FF0F0E0D_0C090804_03020100,
    0xFFFFFFFF_FFFFFF0F_0E0D0C09_08050400,
    0xFFFFFFFF_FFFF0F0E_0D0C0908_05040100,
    0xFFFFFFFF_FF0F0E0D_0C090805_04020100,
    0xFFFFFFFF_0F0E0D0C_09080504_03020100,
    0xFFFFFFFF_FFFF0F0E_0D0C0908_06050400,
    0xFFFFFFFF_FF0F0E0D_0C090806_05040100,
    0xFFFFFFFF_0F0E0D0C_09080605_04020100,
    0xFFFFFF0F_0E0D0C09_08060504_03020100,
    0xFFFFFFFF_FF0F0E0D_0C090807_06050400,
    0xFFFFFFFF_0F0E0D0C_09080706_05040100,
    0xFFFFFF0F_0E0D0C09_08070605_04020100,
    0xFFFF0F0E_0D0C0908_07060504_03020100,
    0xFFFFFFFF_FFFFFF0F_0E0D0C0A_09080400,
    0xFFFFFFFF_FFFF0F0E_0D0C0A09_08040100,
    0xFFFFFFFF_FF0F0E0D_0C0A0908_04020100,
    0xFFFFFFFF_0F0E0D0C_0A090804_03020100,
    0xFFFFFFFF_FFFF0F0E_0D0C0A09_08050400,
    0xFFFFFFFF_FF0F0E0D_0C0A0908_05040100,
    0xFFFFFFFF_0F0E0D0C_0A090805_04020100,
    0xFFFFFF0F_0E0D0C0A_09080504_03020100,
    0xFFFFFFFF_FF0F0E0D_0C0A0908_06050400,
    0xFFFFFFFF_0F0E0D0C_0A090806_05040100,
    0xFFFFFF0F_0E0D0C0A_09080605_04020100,
    0xFFFF0F0E_0D0C0A09_08060504_03020100,
    0xFFFFFFFF_0F0E0D0C_0A090807_06050400,
    0xFFFFFF0F_0E0D0C0A_09080706_05040100,
    0xFFFF0F0E_0D0C0A09_08070605_04020100,
    0xFF0F0E0D_0C0A0908_07060504_03020100,
    0xFFFFFFFF_FFFF0F0E_0D0C0B0A_09080400,
    0xFFFFFFFF_FF0F0E0D_0C0B0A09_08040100,
    0xFFFFFFFF_0F0E0D0C_0B0A0908_04020100,
    0xFFFFFF0F_0E0D0C0B_0A090804_03020100,
    0xFFFFFFFF_FF0F0E0D_0C0B0A09_08050400,
    0xFFFFFFFF_0F0E0D0C_0B0A0908_05040100,
    0xFFFFFF0F_0E0D0C0B_0A090805_04020100,
    0xFFFF0F0E_0D0C0B0A_09080504_03020100,
    0xFFFFFFFF_0F0E0D0C_0B0A0908_06050400,
    0xFFFFFF0F_0E0D0C0B_0A090806_05040100,
    0xFFFF0F0E_0D0C0B0A_09080605_04020100,
    0xFF0F0E0D_0C0B0A09_08060504_03020100,
    0xFFFFFF0F_0E0D0C0B_0A090807_06050400,
    0xFFFF0F0E_0D0C0B0A_09080706_05040100,
    0xFF0F0E0D_0C0B0A09_08070605_04020100,
    0x0F0E0D0C_0B0A0908_07060504_03020100,
];

/// The mask of entry `i`, as a word: the codes of the first three values are
/// the three pairs of bits of `i`; the last value is gathered whole.
pub open spec fn encoding_mask_word(i: int) -> int {
    encode_mask_word(i % 4, i / 4 % 4, i / 16 % 4, 3)
}

proof fn lemma_encoding_masks_0(i: int)
    requires
        0 <= i < 32,
    ensures
        ENCODING_SHUFFLE_TABLE[i] == encoding_mask_word(i),
{
    if i == 0 {
        assert(ENCODING_SHUFFLE_TABLE[0] == encoding_mask_word(0));
    } else if i == 1 {
        assert(ENCODING_SHUFFLE_TABLE[1] == encoding_mask_word(1));
    } else if i == 2 {
        assert(ENCODING_SHUFFLE_TABLE[2] == encoding_mask_word(2));
    } else if i == 3 {
        assert(ENCODING_SHUFFLE_TABLE[3] == encoding_mask_word(3));
    } else if i == 4 {
        assert(ENCODING_SHUFFLE_TABLE[4] == encoding_mask_word(4));
    } else if i == 5 {
        assert(ENCODING_SHUFFLE_TABLE[5] == encoding_mask_word(5));
    } else if i == 6 {
        assert(ENCODING_SHUFFLE_TABLE[6] == encoding_mask_word(6));
    } else if i == 7 {
        assert(ENCODING_SHUFFLE_TABLE[7] == encoding_mask_word(7));
    } else if i == 8 {
        assert(ENCODING_SHUFFLE_TABLE[8] == encoding_mask_word(8));
    } else if i == 9 {
        assert(ENCODING_SHUFFLE_TABLE[9] == encoding_mask_word(9));
    } else if i == 10 {
        assert(ENCODING_SHUFFLE_TABLE[10] == encoding_mask_word(10));
    } else if i == 11 {
        assert(ENCODING_SHUFFLE_TABLE[11] == encoding_mask_word(11));
    } else if i == 12 {
        assert(ENCODING_SHUFFLE_TABLE[12] == encoding_mask_word(12));
    } else if i == 13 {
        assert(ENCODING_SHUFFLE_TABLE[13] == encoding_mask_word(13));
    } else if i == 14 {
        assert(ENCODING_SHUFFLE_TABLE[14] == encoding_mask_word(14));
    } else if i == 15 {
        assert(ENCODING_SHUFFLE_TABLE[15] == encoding_mask_word(15));
    } else if i == 16 {
        assert(ENCODING_SHUFFLE_TABLE[16] == encoding_mask_word(16));
    } else if i == 17 {
        assert(ENCODING_SHUFFLE_TABLE[17] == encoding_mask_word(17));
    } else if i == 18 {
        assert(ENCODING_SHUFFLE_TABLE[18] == encoding_mask_word(18));
    } else if i == 19 {
        assert(ENCODING_SHUFFLE_TABLE[19] == encoding_mask_word(19));
    } else if i == 20 {
        assert(ENCODING_SHUFFLE_TABLE[20] == encoding_mask_word(20));
    } else if i == 21 {
        assert(ENCODING_SHUFFLE_TABLE[21] == encoding_mask_word(21));
    } else if i == 22 {
        assert(ENCODING_SHUFFLE_TABLE[22] == encoding_mask_word(22));
    } else if i == 23 {
        assert(ENCODING_SHUFFLE_TABLE[23] == encoding_mask_word(23));
    } else if i == 24 {
        assert(ENCODING_SHUFFLE_TABLE[24] == encoding_mask_word(24));
    } else if i == 25 {
        assert(ENCODING_SHUFFLE_TABLE[25] == encoding_mask_word(25));
    } else if i == 26 {
        assert(ENCODING_SHUFFLE_TABLE[26] == encoding_mask_word(26));
    } else if i == 27 {
        assert(ENCODING_SHUFFLE_TABLE[27] == encoding_mask_word(27));
    } else if i == 28 {
        assert(ENCODING_SHUFFLE_TABLE[28] == encoding_mask_word(28));
    } else if i == 29 {
        assert(ENCODING_SHUFFLE_TABLE[29] == encoding_mask_word(29));
    } else if i == 30 {
        assert(ENCODING_SHUFFLE_TABLE[30] == encoding_mask_word(30));
    } else if i == 31 {
        assert(ENCODING_SHUFFLE_TABLE[31] == encoding_mask_word(31));
    }
}

proof fn lemma_encoding_masks_32(i: int)
    requires
        32 <= i < 64,
    ensures
        ENCODING_SHUFFLE_TABLE[i] == encoding_mask_word(i),
{
    if i == 32 {
        assert(ENCODING_SHUFFLE_TABLE[32] == encoding_mask_word(32));
    } else if i == 33 {
        assert(ENCODING_SHUFFLE_TABLE[33] == encoding_mask_word(33));
    } else if i == 34 {
        assert(ENCODING_SHUFFLE_TABLE[34] == encoding_mask_word(34));
    } else if i == 35 {
        assert(ENCODING_SHUFFLE_TABLE[35] == encoding_mask_word(35));
    } else if i == 36 {
        assert(ENCODING_SHUFFLE_TABLE[36] == encoding_mask_word(36));
    } else if i == 37 {
        assert(ENCODING_SHUFFLE_TABLE[37] == encoding_mask_word(37));
    } else if i == 38 {
        assert(ENCODING_SHUFFLE_TABLE[38] == encoding_mask_word(38));
    } else if i == 39 {
        assert(ENCODING_SHUFFLE_TABLE[39] == encoding_mask_word(39));
    } else if i == 40 {
        assert(ENCODING_SHUFFLE_TABLE[40] == encoding_mask_word(40));
    } else if i == 41 {
        assert(ENCODING_SHUFFLE_TABLE[41] == encoding_mask_word(41));
    } else if i == 42 {
        assert(ENCODING_SHUFFLE_TABLE[42] == encoding_mask_word(42));
    } else if i == 43 {
        assert(ENCODING_SHUFFLE_TABLE[43] == encoding_mask_word(43));
    } else if i == 44 {
        assert(ENCODING_SHUFFLE_TABLE[44] == encoding_mask_word(44));
    } else if i == 45 {
        assert(ENCODING_SHUFFLE_TABLE[45] == encoding_mask_word(45));
    } else if i == 46 {
        assert(ENCODING_SHUFFLE_TABLE[46] == encoding_mask_word(46));
    } else if i == 47 {
        assert(ENCODING_SHUFFLE_TABLE[47] == encoding_mask_word(47));
    } else if i == 48 {
        assert(ENCODING_SHUFFLE_TABLE[48] == encoding_mask_word(48));
    } else if i == 49 {
        assert(ENCODING_SHUFFLE_TABLE[49] == encoding_mask_word(49));
    } else if i == 50 {
        assert(ENCODING_SHUFFLE_TABLE[50] == encoding_mask_word(50));
    } else if i == 51 {
        assert(ENCODING_SHUFFLE_TABLE[51] == encoding_mask_word(51));
    } else if i == 52 {
        assert(ENCODING_SHUFFLE_TABLE[52] == encoding_mask_word(52));
    } else if i == 53 {
        assert(ENCODING_SHUFFLE_TABLE[53] == encoding_mask_word(53));
    } else if i == 54 {
        assert(ENCODING_SHUFFLE_TABLE[54] == encoding_mask_word(54));
    } else if i == 55 {
        assert(ENCODING_SHUFFLE_TABLE[55] == encoding_mask_word(55));
    } else if i == 56 {
        assert(ENCODING_SHUFFLE_TABLE[56] == encoding_mask_word(56));
    } else if i == 57 {
        assert(ENCODING_SHUFFLE_TABLE[57] == encoding_mask_word(57));
    } else if i == 58 {
        assert(ENCODING_SHUFFLE_TABLE[58] == encoding_mask_word(58));
    } else if i == 59 {
        assert(ENCODING_SHUFFLE_TABLE[59] == encoding_mask_word(59));
    } else if i == 60 {
        assert(ENCODING_SHUFFLE_TABLE[60] == encoding_mask_word(60));
    } else if i == 61 {
        assert(ENCODING_SHUFFLE_TABLE[61] == encoding_mask_word(61));
    } else if i == 62 {
        assert(ENCODING_SHUFFLE_TABLE[62] == encoding_mask_word(62));
    } else if i == 63 {
        assert(ENCODING_SHUFFLE_TABLE[63] == encoding_mask_word(63));
    }
}

/// Every entry of the encoding shuffle table is the encode mask for the codes
/// that its index holds, with the last value gathered whole.
pub proof fn lemma_encoding_shuffle_table(i: int)
    requires
        0 <= i < 64,
    ensures
        ENCODING_SHUFFLE_TABLE[i] == pack_bytes(encode_mask(i % 4, i / 4 % 4, i / 16 % 4, 3)),
{
    if i < 32 {
        lemma_encoding_masks_0(i);
    } else {
        lemma_encoding_masks_32(i);
    }
    lemma_encode_mask_word(i % 4, i / 4 % 4, i / 16 % 4, 3);
}

/// The encode mask for the codes that `index` holds, from the table.
pub fn encoding_shuffle_mask(index: usize) -> (mask: [u8; 16])
    requires
        index < 64,
    ensures
        mask@ == encode_mask(
            (index % 4) as int,
            (index / 4 % 4) as int,
            (index / 16 % 4) as int,
            3,
        ),
{
    let mask: [u8; 16] = bytes_of_word(ENCODING_SHUFFLE_TABLE[index]);
    proof {
        lemma_encoding_shuffle_table(index as int);
        lemma_pack_bytes_unique(
            mask@,
            encode_mask(
                (index % 4) as int,
                (index / 4 % 4) as int,
                (index / 16 % 4) as int,
                3,
            ),
        );
    }
    mask
}

/// The control byte for the four little-endian words that sixteen bytes
/// hold.
#[verifier::opaque]
pub open spec fn lanes_key(bytes: Seq<u8>) -> nat {
    code(le_value(bytes, 0, 4)) + 4 * code(le_value(bytes, 4, 4)) + 16 * code(
        le_value(bytes, 8, 4),
    ) + 64 * code(le_value(bytes, 12, 4))
}

/// What the lane operations of the key computation make of the four bytes
/// of one value: a 16-bit lane whose two high bits are the code of the value.
pub open spec fn key_lane(b0: u8, b1: u8, b2: u8, b3: u8) -> int {
    let low = saturated_byte(signed16(min_byte(1, b0) + 0x100 * min_byte(1, b1)));
    let high = saturated_byte(signed16(min_byte(1, b2) + 0x100 * min_byte(1, b3)));
    saturated_sum16(min_signed16(low + 0x100 * high, 0x0101), 0x7f00)
}

/// The high bits of the two bytes of a key lane are the code of the value.
pub proof fn lemma_key_lane(b0: u8, b1: u8, b2: u8, b3: u8, low: u8, high: u8)
    requires
        low + 0x100 * high == key_lane(b0, b1, b2, b3),
    ensures
        high_bit(low) + 2 * high_bit(high) == code(
            (b0 + b1 * 0x100 + b2 * 0x1_0000 + b3 * 0x100_0000) as u32,
        ),
{
}

/// One 16-bit lane of the key computation, for value `t` of the eight.
proof fn lemma_key_lanes(
    r: Seq<u8>,
    ones: Seq<u8>,
    floor: Seq<u8>,
    flags: Seq<u8>,
    packed: Seq<u8>,
    capped: Seq<u8>,
    summed: Seq<u8>,
    t: int,
    at: int,
)
    requires
        r.len() == 16,
        ones.len() == 16,
        floor.len() == 16,
        flags.len() == 16,
        packed.len() == 16,
        capped.len() == 16,
        summed.len() == 16,
        0 <= t < 4,
        at == 0 || at == 4,
        forall|i: int| 0 <= i < 16 ==> ones[i] == 1,
        forall|i: int| 0 <= i < 8 ==> word16(floor, i) == 0x7f00,
        forall|i: int| 0 <= i < 16 ==> #[trigger] flags[i] == min_byte(ones[i], r[i]),
        forall|i: int|
            0 <= i < 8 ==> #[trigger] packed[2 * at + i] == saturated_byte(
                signed16(word16(flags, i)),
            ),
        forall|i: int|
            0 <= i < 8 ==> #[trigger] word16(capped, i) == min_signed16(
                word16(packed, i),
                word16(ones, i),
            ),
        forall|i: int|
            0 <= i < 8 ==> #[trigger] word16(summed, i) == saturated_sum16(
                word16(capped, i),
                word16(floor, i),
            ),
    ensures
        high_bit(summed[2 * (at + t)]) + 2 * high_bit(summed[2 * (at + t) + 1]) == code(
            le_value(r, 4 * t, 4),
        ),
{
    assert(flags[4 * t] == min_byte(ones[4 * t], r[4 * t]));
    assert(flags[4 * t + 1] == min_byte(ones[4 * t + 1], r[4 * t + 1]));
    assert(flags[4 * t + 2] == min_byte(ones[4 * t + 2], r[4 * t + 2]));
    assert(flags[4 * t + 3] == min_byte(ones[4 * t + 3], r[4 * t + 3]));
    assert(packed[2 * at + 2 * t] == saturated_byte(signed16(word16(flags, 2 * t))));
    assert(packed[2 * at + (2 * t + 1)] == saturated_byte(signed16(word16(flags, 2 * t + 1))));
    assert(word16(capped, at + t) == min_signed16(word16(packed, at + t), word16(ones, at + t)));
    assert(word16(summed, at + t) == saturated_sum16(
        word16(capped, at + t),
        word16(floor, at + t),
    ));
    lemma_key_lane(
        r[4 * t],
        r[4 * t + 1],
        r[4 * t + 2],
        r[4 * t + 3],
        summed[2 * (at + t)],
        summed[2 * (at + t) + 1],
    );
}

/// The codes of eight values, two bits each, read off the bytes of the
/// values: `r0` holds the first four values, `r1` the last four.
pub fn lane_keys<L: ShuffleLanes>(r0: &[u8; 16], r1: &[u8; 16]) -> (keys: u32)
    ensures
        keys == lanes_key(r0@) + 0x100 * lanes_key(r1@),
        keys <= 0xffff,
{
    let mask_01: [u8; 16] = [0x01u8; 16];
    let mask_7f00: [u8; 16] = [
        0x00,
        0x7f,
        0x00,
        0x7f,
        0x00,
        0x7f,
        0x00,
        0x7f,
        0x00,
        0x7f,
        0x00,
        0x7f,
        0x00,
        0x7f,
        0x00,
        0x7f,
    ];
    // Turn all non-zero bytes into 1, the rest stay at 0.
    let r2: [u8; 16] = L::min_bytes(&mask_01, r0);
    let r3: [u8; 16] = L::min_bytes(&mask_01, r1);
    // Per value, two bytes: 0xff where the high byte of a half was set, else
    // what the low byte of the half was turned into.
    let packed: [u8; 16] = L::pack_words_saturating(&r2, &r3);
    // Turn any 0x01ff into 0x0101.
    let capped: [u8; 16] = L::min_words_signed(&packed, &mask_01);
    // Converts 0x0101 to 0x8001, 0xff01 to 0xffff.
    let summed: [u8; 16] = L::add_words_saturating(&capped, &mask_7f00);
    proof {
        assert forall|i: int| 0 <= i < 8 implies #[trigger] packed@[2 * 4 + i] == saturated_byte(
            signed16(word16(r3@, i)),
        ) by {
            assert(packed@[8 + i] == saturated_byte(signed16(word16(r3@, i))));
        }
        assert forall|i: int| 0 <= i < 8 implies #[trigger] packed@[2 * 0 + i] == saturated_byte(
            signed16(word16(r2@, i)),
        ) by {
            assert(packed@[i] == saturated_byte(signed16(word16(r2@, i))));
        }
        lemma_key_lanes(r0@, mask_01@, mask_7f00@, r2@, packed@, capped@, summed@, 0, 0);
        lemma_key_lanes(r0@, mask_01@, mask_7f00@, r2@, packed@, capped@, summed@, 1, 0);
        lemma_key_lanes(r0@, mask_01@, mask_7f00@, r2@, packed@, capped@, summed@, 2, 0);
        lemma_key_lanes(r0@, mask_01@, mask_7f00@, r2@, packed@, capped@, summed@, 3, 0);
        lemma_key_lanes(r1@, mask_01@, mask_7f00@, r3@, packed@, capped@, summed@, 0, 4);
        lemma_key_lanes(r1@, mask_01@, mask_7f00@, r3@, packed@, capped@, summed@, 1, 4);
        lemma_key_lanes(r1@, mask_01@, mask_7f00@, r3@, packed@, capped@, summed@, 2, 4);
        lemma_key_lanes(r1@, mask_01@, mask_7f00@, r3@, packed@, capped@, summed@, 3, 4);
    }
    proof {
        reveal(lanes_key);
    }
    // Takes the highest bit from each byte.
    L::high_bits(&summed)
}

/// Compacts the four values of a lane into their data bytes and appends
/// those to `output`. `bytes` holds the values, `control` their codes.
pub fn store_lane<L: ShuffleLanes>(
    output: &mut Vec<u8>,
    words: &[u32; 4],
    bytes: &[u8; 16],
    control: u8,
)
    requires
        bytes@ == bytes_of(words@),
        control == pack_codes(code(words@[0]), code(words@[1]), code(words@[2]), code(words@[3])),
    ensures
        final(output)@ == old(output)@ + value_bytes(words@[0]) + value_bytes(words@[1])
            + value_bytes(words@[2]) + value_bytes(words@[3]),
{
    proof {
        lemma_lane_length(words@, control);
        lemma_low_codes(control);
    }
    let mask: [u8; 16] = encoding_shuffle_mask((control % 64) as usize);
    let shuffled: [u8; 16] = L::shuffle_bytes(bytes, &mask);
    let len: usize = group_length(control);
    let start: usize = output.len();
    append_bytes(output, &shuffled);
    assert(output.len() == start + 16);
    output.truncate(start + len);
    proof {
        lemma_compacted(old(output)@, bytes@, words@, mask@, shuffled@, 3);
    }
}

/// The low six bits of a control byte hold its first three codes.
proof fn lemma_low_codes(control: u8)
    ensures
        ((control % 64) as usize) % 4 == ctrl_code(control, 0),
        ((control % 64) as usize) / 4 % 4 == ctrl_code(control, 1),
        ((control % 64) as usize) / 16 % 4 == ctrl_code(control, 2),
{
    assert((control % 64) % 4 == control % 4 && (control % 64) / 4 % 4 == control / 4 % 4 && (
    control % 64) / 16 % 4 == control / 16 % 4) by (bit_vector);
}

/// Encodes `input`, after the transform of `E`, behind the control bytes
/// reserved for it, which are the last bytes of `output` and start at index
/// `controls`.
pub fn encode_worker<E: Encoder, L: ShuffleLanes>(
    input: &[u32],
    output: &mut Vec<u8>,
    controls: usize,
)
    requires
        old(output).len() == controls + control_len(input.len() as nat),
    ensures
        final(output)@ == old(output)@.take(controls as int) + encoded(
            encode_all::<E>(input@),
        ),
{
    let ghost prefix = output@.take(controls as int);
    let ghost values = encode_all::<E>(input@);
    let items: usize = input.len();
    let pairs: usize = items / 8;
    proof {
        lemma_building_start(output@, prefix, values);
    }
    // Eight values per iteration: two lanes, two control bytes.
    let mut pair: usize = 0;
    while pair < pairs
        invariant
            items == input.len(),
            pairs == items / 8,
            pair <= pairs,
            prefix.len() == controls,
            values == encode_all::<E>(input@),
            building(output@, prefix, values, 2 * pair, 8 * pair),
        decreases pairs - pair,
    {
        append_pair::<E, L>(input, output, Ghost(prefix), controls, pair);
        pair += 1;
    }
    // The rest, value by value, with a control byte after every fourth.
    let mut group: usize = 2 * pairs;
    let mut done: usize = 8 * pairs;
    let mut key: u32 = 0;
    let mut slot: usize = 0;
    while done < items
        invariant
            items == input.len(),
            prefix.len() == controls,
            values == encode_all::<E>(input@),
            done <= items,
            slot < 4,
            done == 4 * group + slot,
            building(output@, prefix, values, group as int, done as int),
            key == partial_key(values, group as int, slot as int),
        decreases items - done,
    {
        let ghost start = output@;
        let word: u32 = E::encode_1(input[done]);
        let symbol: u32 = store_word(output, word);
        proof {
            lemma_building_value(start, prefix, values, group as int, done as int);
            lemma_key_slot(key, symbol, slot as u32);
        }
        key |= symbol << ((slot + slot) as u32);
        slot += 1;
        done += 1;
        if slot == 4 {
            proof {
                lemma_partial_key(values, group as int, 4);
                lemma_building_control(output@, prefix, values, group as int, done as int);
                lemma_building_len(output@, prefix, values, group as int, done as int);
            assert(controls + group < output.len());
            }
            output[controls + group] = key as u8;
            group += 1;
            key = 0;
            slot = 0;
        }
    }
    if slot > 0 {
        proof {
            lemma_partial_key(values, group as int, slot as int);
            lemma_building_control(output@, prefix, values, group as int, done as int);
            lemma_building_len(output@, prefix, values, group as int, done as int);
            assert(controls + group < output.len());
        }
        output[controls + group] = key as u8;
    }
    proof {
        lemma_building_done(output@, prefix, values);
    }
}

/// Encodes the eight values of pair `pair`: appends their data bytes and
/// writes their two control bytes.
fn append_pair<E: Encoder, L: ShuffleLanes>(
    input: &[u32],
    output: &mut Vec<u8>,
    Ghost(prefix): Ghost<Seq<u8>>,
    controls: usize,
    pair: usize,
)
    requires
        prefix.len() == controls,
        8 * pair + 8 <= input.len(),
        building(old(output)@, prefix, encode_all::<E>(input@), 2 * pair, 8 * pair),
    ensures
        building(final(output)@, prefix, encode_all::<E>(input@), 2 * pair + 2, 8 * pair + 8),
{
    let at: usize = 8 * pair;
    // Load 8 values into r0, r1.
    let words0: [u32; 4] = E::simd_encode_4x32(load_words(input, at));
    let words1: [u32; 4] = E::simd_encode_4x32(load_words(input, at + 4));
    let r0: [u8; 16] = bytes_of_words(&words0);
    let r1: [u8; 16] = bytes_of_words(&words1);
    let keys: u32 = lane_keys::<L>(&r0, &r1);
    let control0: u8 = (keys % 0x100) as u8;
    let control1: u8 = (keys / 0x100) as u8;
    proof {
        lemma_lane_words::<E>(input@, at as int, words0@, r0@);
        lemma_lane_words::<E>(input@, at + 4, words1@, r1@);
        assert(control0 == lanes_key(r0@));
        assert(control1 == lanes_key(r1@));
    }
    append_lane::<E, L>(
        input,
        output,
        Ghost(prefix),
        controls,
        2 * pair,
        &words0,
        &r0,
        control0,
    );
    append_lane::<E, L>(
        input,
        output,
        Ghost(prefix),
        controls,
        2 * pair + 1,
        &words1,
        &r1,
        control1,
    );
}

/// The lanes loaded for group `at / 4` hold the transformed values of the
/// group.
proof fn lemma_lane_words<E: Encoder>(input: Seq<u32>, at: int, words: Seq<u32>, bytes: Seq<u8>)
    requires
        0 <= at,
        at + 4 <= input.len(),
        words.len() == 4,
        bytes.len() == 16,
        words[0] == E::spec_encode_1(input[at]),
        words[1] == E::spec_encode_1(input[at + 1]),
        words[2] == E::spec_encode_1(input[at + 2]),
        words[3] == E::spec_encode_1(input[at + 3]),
        bytes == bytes_of(words),
    ensures
        words[0] == encode_all::<E>(input)[at],
        words[1] == encode_all::<E>(input)[at + 1],
        words[2] == encode_all::<E>(input)[at + 2],
        words[3] == encode_all::<E>(input)[at + 3],
        lanes_key(bytes) == pack_codes(
            code(words[0]),
            code(words[1]),
            code(words[2]),
            code(words[3]),
        ),
        lanes_key(bytes) < 0x100,
{
    reveal(lanes_key);
    lemma_lane_value(words, bytes, 0);
    lemma_lane_value(words, bytes, 1);
    lemma_lane_value(words, bytes, 2);
    lemma_lane_value(words, bytes, 3);
}

/// The four bytes of lane `s` hold value `s`.
pub proof fn lemma_lane_value(words: Seq<u32>, bytes: Seq<u8>, s: int)
    requires
        words.len() == 4,
        bytes.len() == 16,
        0 <= s < 4,
        bytes == bytes_of(words),
    ensures
        le_value(bytes, 4 * s, 4) == words[s],
{
    lemma_word_sum(words[s]);
    if s == 0 {
        assert(bytes[0] == le_byte(words[0int / 4], 0int % 4));
        assert(bytes[1] == le_byte(words[1int / 4], 1int % 4));
        assert(bytes[2] == le_byte(words[2int / 4], 2int % 4));
        assert(bytes[3] == le_byte(words[3int / 4], 3int % 4));
    } else if s == 1 {
        assert(bytes[4] == le_byte(words[4int / 4], 4int % 4));
        assert(bytes[5] == le_byte(words[5int / 4], 5int % 4));
        assert(bytes[6] == le_byte(words[6int / 4], 6int % 4));
        assert(bytes[7] == le_byte(words[7int / 4], 7int % 4));
    } else if s == 2 {
        assert(bytes[8] == le_byte(words[8int / 4], 8int % 4));
        assert(bytes[9] == le_byte(words[9int / 4], 9int % 4));
        assert(bytes[10] == le_byte(words[10int / 4], 10int % 4));
        assert(bytes[11] == le_byte(words[11int / 4], 11int % 4));
    } else {
        assert(bytes[12] == le_byte(words[12int / 4], 12int % 4));
        assert(bytes[13] == le_byte(words[13int / 4], 13int % 4));
        assert(bytes[14] == le_byte(words[14int / 4], 14int % 4));
        assert(bytes[15] == le_byte(words[15int / 4], 15int % 4));
    }
}

/// Appends the data bytes of the four values of group `group` and writes
/// the control byte of the group.
fn append_lane<E: Encoder, L: ShuffleLanes>(
    input: &[u32],
    output: &mut Vec<u8>,
    Ghost(prefix): Ghost<Seq<u8>>,
    controls: usize,
    group: usize,
    words: &[u32; 4],
    bytes: &[u8; 16],
    control: u8,
)
    requires
        prefix.len() == controls,
        4 * group + 4 <= input.len(),
        building(old(output)@, prefix, encode_all::<E>(input@), group as int, 4 * group),
        words@[0] == encode_all::<E>(input@)[4 * group],
        words@[1] == encode_all::<E>(input@)[4 * group + 1],
        words@[2] == encode_all::<E>(input@)[4 * group + 2],
        words@[3] == encode_all::<E>(input@)[4 * group + 3],
        bytes@ == bytes_of(words@),
        control == pack_codes(code(words@[0]), code(words@[1]), code(words@[2]), code(words@[3])),
    ensures
        building(final(output)@, prefix, encode_all::<E>(input@), group + 1, 4 * group + 4),
{
    let ghost values = encode_all::<E>(input@);
    let ghost start = output@;
    store_lane::<L>(output, words, bytes, control);
    proof {
        let at = 4 * group as int;
        lemma_building_value(start, prefix, values, group as int, at);
        lemma_building_value(start + value_bytes(values[at]), prefix, values, group as int, at + 1);
        lemma_building_value(
            start + value_bytes(values[at]) + value_bytes(values[at + 1]),
            prefix,
            values,
            group as int,
            at + 2,
        );
        lemma_building_value(
            start + value_bytes(values[at]) + value_bytes(values[at + 1]) + value_bytes(
                values[at + 2],
            ),
            prefix,
            values,
            group as int,
            at + 3,
        );
        assert(output@ == start + value_bytes(values[at]) + value_bytes(values[at + 1])
            + value_bytes(values[at + 2]) + value_bytes(values[at + 3]));
        lemma_partial_key(values, group as int, 4);
        lemma_building_control(output@, prefix, values, group as int, at + 4);
        lemma_building_len(output@, prefix, values, group as int, at + 4);
        assert(controls + group < output.len());
    }
    output[controls + group] = control;
}

} // verus!
