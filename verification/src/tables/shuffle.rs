//! The decode shuffle table: for every control byte, the byte-gather mask
//! that spreads the data bytes of a group over four 32-bit lanes.
//!
//! A mask is sixteen bytes, held in a 128-bit word with byte 0 in the low
//! bits. Byte `4 * s + b` of the mask for control byte `c` is the position,
//! in the data of the group, of byte `b` of value `s`; it is `0xFF`, which a
//! shuffle turns into zero, where value `s` has no byte `b`.
use crate::format::{ctrl_code, group_offset, le_value};
use crate::lanes::{bytes_of_word, lemma_pack_bytes_unique, pack_bytes, NO_SOURCE};
use vstd::prelude::*;

verus! {

/// The decode shuffle table: for every control byte, the mask that spreads
/// the data bytes of its group over four lanes. A mask is sixteen bytes in a
/// 128-bit word, byte 0 in the low bits.
pub const DECODE_SHUFFLE_TABLE: [u128; 256] = [
    0xFFFFFF03_FFFFFF02_FFFFFF01_FFFFFF00,
    0xFFFFFF04_FFFFFF03_FFFFFF02_FFFF0100,
    0xFFFFFF05_FFFFFF04_FFFFFF03_FF020100,
    0xFFFFFF06_FFFFFF05_FFFFFF04_03020100,
    0xFFFFFF04_FFFFFF03_FFFF0201_FFFFFF00,
    0xFFFFFF05_FFFFFF04_FFFF0302_FFFF0100,
    0xFFFFFF06_FFFFFF05_FFFF0403_FF020100,
    0xFFFFFF07_FFFFFF06_FFFF0504_03020100,
    0xFFFFFF05_FFFFFF04_FF030201_FFFFFF00,
    0xFFFFFF06_FFFFFF05_FF040302_FFFF0100,
    0xFFFFFF07_FFFFFF06_FF050403_FF020100,
    0xFFFFFF08_FFFFFF07_FF060504_03020100,
    0xFFFFFF06_FFFFFF05_04030201_FFFFFF00,
    0xFFFFFF07_FFFFFF06_05040302_FFFF0100,
    0xFFFFFF08_FFFFFF07_06050403_FF020100,
    0xFFFFFF09_FFFFFF08_07060504_03020100,
    0xFFFFFF04_FFFF0302_FFFFFF01_FFFFFF00,
    0xFFFFFF05_FFFF0403_FFFFFF02_FFFF0100,
    0xFFFFFF06_FFFF0504_FFFFFF03_FF020100,
    0xFFFFFF07_FFFF0605_FFFFFF04_03020100,
    0xFFFFFF05_FFFF0403_FFFF0201_FFFFFF00,
    0xFFFFFF06_FFFF0504_FFFF0302_FFFF0100,
    0xFFFFFF07_FFFF0605_FFFF0403_FF020100,
    0xFFFFFF08_FFFF0706_FFFF0504_03020100,
    0xFFFFFF06_FFFF0504_FF030201_FFFFFF00,
    0xFFFFFF07_FFFF0605_FF040302_FFFF0100,
    0xFFFFFF08_FFFF0706_FF050403_FF020100,
    0xFFFFFF09_FFFF0807_FF060504_03020100,
    0xFFFFFF07_FFFF0605_04030201_FFFFFF00,
    0xFFFFFF08_FFFF0706_05040302_FFFF0100,
    0xFFFFFF09_FFFF0807_06050403_FF020100,
    0xFFFFFF0A_FFFF0908_07060504_03020100,
    0xFFFFFF05_FF040302_FFFFFF01_FFFFFF00,
    0xFFFFFF06_FF050403_FFFFFF02_FFFF0100,
    0xFFFFFF07_FF060504_FFFFFF03_FF020100,
    0xFFFFFF08_FF070605_FFFFFF04_03020100,
    0xFFFFFF06_FF050403_FFFF0201_FFFFFF00,
    0xFFFFFF07_FF060504_FFFF0302_FFFF0100,
    0xFFFFFF08_FF070605_FFFF0403_FF020100,
    0xFFFFFF09_FF080706_FFFF0504_03020100,
    0xFFFFFF07_FF060504_FF030201_FFFFFF00,
    0xFFFFFF08_FF070605_FF040302_FFFF0100,
    0xFFFFFF09_FF080706_FF050403_FF020100,
    0xFFFFFF0A_FF090807_FF060504_03020100,
    0xFFFFFF08_FF070605_04030201_FFFFFF00,
    0xFFFFFF09_FF080706_05040302_FFFF0100,
    0xFFFFFF0A_FF090807_06050403_FF020100,
    0xFFFFFF0B_FF0A0908_07060504_03020100,
    0xFFFFFF06_05040302_FFFFFF01_FFFFFF00,
    0xFFFFFF07_06050403_FFFFFF02_FFFF0100,
    0xFFFFFF08_07060504_FFFFFF03_FF020100,
    0xFFFFFF09_08070605_FFFFFF04_03020100,
    0xFFFFFF07_06050403_FFFF0201_FFFFFF00,
    0xFFFFFF08_07060504_FFFF0302_FFFF0100,
    0xFFFFFF09_08070605_FFFF0403_FF020100,
    0xFFFFFF0A_09080706_FFFF0504_03020100,
    0xFFFFFF08_07060504_FF030201_FFFFFF00,
    0xFFFFFF09_08070605_FF040302_FFFF0100,
    0xFFFFFF0A_09080706_FF050403_FF020100,
    0xFFFFFF0B_0A090807_FF060504_03020100,
    0xFFFFFF09_08070605_04030201_FFFFFF00,
    0xFFFFFF0A_09080706_05040302_FFFF0100,
    0xFFFFFF0B_0A090807_06050403_FF020100,
    0xFFFFFF0C_0B0A0908_07060504_03020100,
    0xFFFF0403_FFFFFF02_FFFFFF01_FFFFFF00,
    0xFFFF0504_FFFFFF03_FFFFFF02_FFFF0100,
    0xFFFF0605_FFFFFF04_FFFFFF03_FF020100,
    0xFFFF0706_FFFFFF05_FFFFFF04_03020100,
    0xFFFF0504_FFFFFF03_FFFF0201_FFFFFF00,
    0xFFFF0605_FFFFFF04_FFFF0302_FFFF0100,
    0xFFFF0706_FFFFFF05_FFFF0403_FF020100,
    0xFFFF0807_FFFFFF06_FFFF0504_03020100,
    0xFFFF0605_FFFFFF04_FF030201_FFFFFF00,
    0xFFFF0706_FFFFFF05_FF040302_FFFF0100,
    0xFFFF0807_FFFFFF06_FF050403_FF020100,
    0xFFFF0908_FFFFFF07_FF060504_03020100,
    0xFFFF0706_FFFFFF05_04030201_FFFFFF00,
    0xFFFF0807_FFFFFF06_05040302_FFFF0100,
    0xFFFF0908_FFFFFF07_06050403_FF020100,
    0xFFFF0A09_FFFFFF08_07060504_03020100,
    0xFFFF0504_FFFF0302_FFFFFF01_FFFFFF00,
    0xFFFF0605_FFFF0403_FFFFFF02_FFFF0100,
    0xFFFF0706_FFFF0504_FFFFFF03_FF020100,
    0xFFFF0807_FFFF0605_FFFFFF04_03020100,
    0xFFFF0605_FFFF0403_FFFF0201_FFFFFF00,
    0xFFFF0706_FFFF0504_FFFF0302_FFFF0100,
    0xFFFF0807_FFFF0605_FFFF0403_FF020100,
    0xFFFF0908_FFFF0706_FFFF0504_03020100,
    0xFFFF0706_FFFF0504_FF030201_FFFFFF00,
    0xFFFF0807_FFFF0605_FF040302_FFFF0100,
    0xFFFF0908_FFFF0706_FF050403_FF020100,
    0xFFFF0A09_FFFF0807_FF060504_03020100,
    0xFFFF0807_FFFF0605_04030201_FFFFFF00,
    0xFFFF0908_FFFF0706_05040302_FFFF0100,
    0xFFFF0A09_FFFF0807_06050403_FF020100,
    0xFFFF0B0A_FFFF0908_07060504_03020100,
    0xFFFF0605_FF040302_FFFFFF01_FFFFFF00,
    0xFFFF0706_FF050403_FFFFFF02_FFFF0100,
    0xFFFF0807_FF060504_FFFFFF03_FF020100,
    0xFFFF0908_FF070605_FFFFFF04_03020100,
    0xFFFF0706_FF050403_FFFF0201_FFFFFF00,
    0xFFFF0807_FF060504_FFFF0302_FFFF0100,
    0xFFFF0908_FF070605_FFFF0403_FF020100,
    0xFFFF0A09_FF080706_FFFF0504_03020100,
    0xFFFF0807_FF060504_FF030201_FFFFFF00,
    0xFFFF0908_FF070605_FF040302_FFFF0100,
    0xFFFF0A09_FF080706_FF050403_FF020100,
    0xFFFF0B0A_FF090807_FF060504_03020100,
    0xFFFF0908_FF070605_04030201_FFFFFF00,
    0xFFFF0A09_FF080706_05040302_FFFF0100,
    0xFFFF0B0A_FF090807_06050403_FF020100,
    0xFFFF0C0B_FF0A0908_07060504_03020100,
    0xFFFF0706_05040302_FFFFFF01_FFFFFF00,
    0xFFFF0807_06050403_FFFFFF02_FFFF0100,
    0xFFFF0908_07060504_FFFFFF03_FF020100,
    0xFFFF0A09_08070605_FFFFFF04_03020100,
    0xFFFF0807_06050403_FFFF0201_FFFFFF00,
    0xFFFF0908_07060504_FFFF0302_FFFF0100,
    0xFFFF0A09_08070605_FFFF0403_FF020100,
    0xFFFF0B0A_09080706_FFFF0504_03020100,
    0xFFFF0908_07060504_FF030201_FFFFFF00,
    0xFFFF0A09_08070605_FF040302_FFFF0100,
    0xFFFF0B0A_09080706_FF050403_FF020100,
    0xFFFF0C0B_0A090807_FF060504_03020100,
    0xFFFF0A09_08070605_04030201_FFFFFF00,
    0xFFFF0B0A_09080706_05040302_FFFF0100,
    0xFFFF0C0B_0A090807_06050403_FF020100,
    0xFFFF0D0C_0B0A0908_07060504_03020100,
    0xFF050403_FFFFFF02_FFFFFF01_FFFFFF00,
    0xFF060504_FFFFFF03_FFFFFF02_FFFF0100,
    0xFF070605_FFFFFF04_FFFFFF03_FF020100,
    0xFF080706_FFFFFF05_FFFFFF04_03020100,
    0xFF060504_FFFFFF03_FFFF0201_FFFFFF00,
    0xFF070605_FFFFFF04_FFFF0302_FFFF0100,
    0xFF080706_FFFFFF05_FFFF0403_FF020100,
    0xFF090807_FFFFFF06_FFFF0504_03020100,
    0xFF070605_FFFFFF04_FF030201_FFFFFF00,
    0xFF080706_FFFFFF05_FF040302_FFFF0100,
    0xFF090807_FFFFFF06_FF050403_FF020100,
    0xFF0A0908_FFFFFF07_FF060504_03020100,
    0xFF080706_FFFFFF05_04030201_FFFFFF00,
    0xFF090807_FFFFFF06_05040302_FFFF0100,
    0xFF0A0908_FFFFFF07_06050403_FF020100,
    0xFF0B0A09_FFFFFF08_07060504_03020100,
    0xFF060504_FFFF0302_FFFFFF01_FFFFFF00,
    0xFF070605_FFFF0403_FFFFFF02_FFFF0100,
    0xFF080706_FFFF0504_FFFFFF03_FF020100,
    0xFF090807_FFFF0605_FFFFFF04_03020100,
    0xFF070605_FFFF0403_FFFF0201_FFFFFF00,
    0xFF080706_FFFF0504_FFFF0302_FFFF0100,
    0xFF090807_FFFF0605_FFFF0403_FF020100,
    0xFF0A0908_FFFF0706_FFFF0504_03020100,
    0xFF080706_FFFF0504_FF030201_FFFFFF00,
    0xFF090807_FFFF0605_FF040302_FFFF0100,
    0xFF0A0908_FFFF0706_FF050403_FF020100,
    0xFF0B0A09_FFFF0807_FF060504_03020100,
    0xFF090807_FFFF0605_04030201_FFFFFF00,
    0xFF0A0908_FFFF0706_05040302_FFFF0100,
    0xFF0B0A09_FFFF0807_06050403_FF020100,
    0xFF0C0B0A_FFFF0908_07060504_03020100,
    0xFF070605_FF040302_FFFFFF01_FFFFFF00,
    0xFF080706_FF050403_FFFFFF02_FFFF0100,
    0xFF090807_FF060504_FFFFFF03_FF020100,
    0xFF0A0908_FF070605_FFFFFF04_03020100,
    0xFF080706_FF050403_FFFF0201_FFFFFF00,
    0xFF090807_FF060504_FFFF0302_FFFF0100,
    0xFF0A0908_FF070605_FFFF0403_FF020100,
    0xFF0B0A09_FF080706_FFFF0504_03020100,
    0xFF090807_FF060504_FF030201_FFFFFF00,
    0xFF0A0908_FF070605_FF040302_FFFF0100,
    0xFF0B0A09_FF080706_FF050403_FF020100,
    0xFF0C0B0A_FF090807_FF060504_03020100,
    0xFF0A0908_FF070605_04030201_FFFFFF00,
    0xFF0B0A09_FF080706_05040302_FFFF0100,
    0xFF0C0B0A_FF090807_06050403_FF020100,
    0xFF0D0C0B_FF0A0908_07060504_03020100,
    0xFF080706_05040302_FFFFFF01_FFFFFF00,
    0xFF090807_06050403_FFFFFF02_FFFF0100,
    0xFF0A0908_07060504_FFFFFF03_FF020100,
    0xFF0B0A09_08070605_FFFFFF04_03020100,
    0xFF090807_06050403_FFFF0201_FFFFFF00,
    0xFF0A0908_07060504_FFFF0302_FFFF0100,
    0xFF0B0A09_08070605_FFFF0403_FF020100,
    0xFF0C0B0A_09080706_FFFF0504_03020100,
    0xFF0A0908_07060504_FF030201_FFFFFF00,
    0xFF0B0A09_08070605_FF040302_FFFF0100,
    0xFF0C0B0A_09080706_FF050403_FF020100,
    0xFF0D0C0B_0A090807_FF060504_03020100,
    0xFF0B0A09_08070605_04030201_FFFFFF00,
    0xFF0C0B0A_09080706_05040302_FFFF0100,
    0xFF0D0C0B_0A090807_06050403_FF020100,
    0xFF0E0D0C_0B0A0908_07060504_03020100,
    0x06050403_FFFFFF02_FFFFFF01_FFFFFF00,
    0x07060504_FFFFFF03_FFFFFF02_FFFF0100,
    0x08070605_FFFFFF04_FFFFFF03_FF020100,
    0x09080706_FFFFFF05_FFFFFF04_03020100,
    0x07060504_FFFFFF03_FFFF0201_FFFFFF00,
    0x08070605_FFFFFF04_FFFF0302_FFFF0100,
    0x09080706_FFFFFF05_FFFF0403_FF020100,
    0x0A090807_FFFFFF06_FFFF0504_03020100,
    0x08070605_FFFFFF04_FF030201_FFFFFF00,
    0x09080706_FFFFFF05_FF040302_FFFF0100,
    0x0A090807_FFFFFF06_FF050403_FF020100,
    0x0B0A0908_FFFFFF07_FF060504_03020100,
    0x09080706_FFFFFF05_04030201_FFFFFF00,
    0x0A090807_FFFFFF06_05040302_FFFF0100,
    0x0B0A0908_FFFFFF07_06050403_FF020100,
    0x0C0B0A09_FFFFFF08_07060504_03020100,
    0x07060504_FFFF0302_FFFFFF01_FFFFFF00,
    0x08070605_FFFF0403_FFFFFF02_FFFF0100,
    0x09080706_FFFF0504_FFFFFF03_FF020100,
    0x0A090807_FFFF0605_FFFFFF04_03020100,
    0x08070605_FFFF0403_FFFF0201_FFFFFF00,
    0x09080706_FFFF0504_FFFF0302_FFFF0100,
    0x0A090807_FFFF0605_FFFF0403_FF020100,
    0x0B0A0908_FFFF0706_FFFF0504_03020100,
    0x09080706_FFFF0504_FF030201_FFFFFF00,
    0x0A090807_FFFF0605_FF040302_FFFF0100,
    0x0B0A0908_FFFF0706_FF050403_FF020100,
    0x0C0B0A09_FFFF0807_FF060504_03020100,
    0x0A090807_FFFF0605_04030201_FFFFFF00,
    0x0B0A0908_FFFF0706_05040302_FFFF0100,
    0x0C0B0A09_FFFF0807_06050403_FF020100,
    0x0D0C0B0A_FFFF0908_07060504_03020100,
    0x08070605_FF040302_FFFFFF01_FFFFFF00,
    0x09080706_FF050403_FFFFFF02_FFFF0100,
    0x0A090807_FF060504_FFFFFF03_FF020100,
    0x0B0A0908_FF070605_FFFFFF04_03020100,
    0x09080706_FF050403_FFFF0201_FFFFFF00,
    0x0A090807_FF060504_FFFF0302_FFFF0100,
    0x0B0A0908_FF070605_FFFF0403_FF020100,
    0x0C0B0A09_FF080706_FFFF0504_03020100,
    0x0A090807_FF060504_FF030201_FFFFFF00,
    0x0B0A0908_FF070605_FF040302_FFFF0100,
    0x0C0B0A09_FF080706_FF050403_FF020100,
    0x0D0C0B0A_FF090807_FF060504_03020100,
    0x0B0A0908_FF070605_04030201_FFFFFF00,
    0x0C0B0A09_FF080706_05040302_FFFF0100,
    0x0D0C0B0A_FF090807_06050403_FF020100,
    0x0E0D0C0B_FF0A0908_07060504_03020100,
    0x09080706_05040302_FFFFFF01_FFFFFF00,
    0x0A090807_06050403_FFFFFF02_FFFF0100,
    0x0B0A0908_07060504_FFFFFF03_FF020100,
    0x0C0B0A09_08070605_FFFFFF04_03020100,
    0x0A090807_06050403_FFFF0201_FFFFFF00,
    0x0B0A0908_07060504_FFFF0302_FFFF0100,
    0x0C0B0A09_08070605_FFFF0403_FF020100,
    0x0D0C0B0A_09080706_FFFF0504_03020100,
    0x0B0A0908_07060504_FF030201_FFFFFF00,
    0x0C0B0A09_08070605_FF040302_FFFF0100,
    0x0D0C0B0A_09080706_FF050403_FF020100,
    0x0E0D0C0B_0A090807_FF060504_03020100,
    0x0C0B0A09_08070605_04030201_FFFFFF00,
    0x0D0C0B0A_09080706_05040302_FFFF0100,
    0x0E0D0C0B_0A090807_06050403_FF020100,
    0x0F0E0D0C_0B0A0908_07060504_03020100,
];

/// Byte `i` of the decode mask for control byte `c`.
pub open spec fn decode_mask_byte(c: u8, i: int) -> u8 {
    if i % 4 <= ctrl_code(c, i / 4) {
        (group_offset(c, i / 4) + i % 4) as u8
    } else {
        NO_SOURCE
    }
}

/// The decode mask for control byte `c`.
pub open spec fn decode_mask(c: u8) -> Seq<u8> {
    Seq::new(16, |i: int| decode_mask_byte(c, i))
}

/// The four mask bytes of a lane, as a 32-bit word: the value has code `k`
/// and its bytes start at position `off` of the data.
pub open spec fn lane_mask(k: int, off: int) -> int {
    if k == 0 {
        off + 0xFFFF_FF00
    } else if k == 1 {
        off * 0x101 + 0xFFFF_0100
    } else if k == 2 {
        off * 0x1_0101 + 0xFF02_0100
    } else {
        off * 0x101_0101 + 0x0302_0100
    }
}

/// The mask for the four codes of a control byte, as a 128-bit word.
pub open spec fn mask_word(k0: int, k1: int, k2: int, k3: int) -> int {
    lane_mask(k0, 0) + lane_mask(k1, k0 + 1) * 0x1_0000_0000 + lane_mask(k2, k0 + k1 + 2)
        * 0x1_0000_0000_0000_0000 + lane_mask(k3, k0 + k1 + k2 + 3)
        * 0x1_0000_0000_0000_0000_0000_0000
}

/// The mask for control byte `c`, as a 128-bit word.
pub open spec fn control_mask_word(c: int) -> int {
    mask_word(c % 4, c / 4 % 4, c / 16 % 4, c / 64 % 4)
}

proof fn lemma_decode_masks_0(c: int)
    requires
        0 <= c < 32,
    ensures
        DECODE_SHUFFLE_TABLE[c] == control_mask_word(c),
{
    if c == 0 {
        assert(DECODE_SHUFFLE_TABLE[0] == control_mask_word(0));
    } else if c == 1 {
        assert(DECODE_SHUFFLE_TABLE[1] == control_mask_word(1));
    } else if c == 2 {
        assert(DECODE_SHUFFLE_TABLE[2] == control_mask_word(2));
    } else if c == 3 {
        assert(DECODE_SHUFFLE_TABLE[3] == control_mask_word(3));
    } else if c == 4 {
        assert(DECODE_SHUFFLE_TABLE[4] == control_mask_word(4));
    } else if c == 5 {
        assert(DECODE_SHUFFLE_TABLE[5] == control_mask_word(5));
    } else if c == 6 {
        assert(DECODE_SHUFFLE_TABLE[6] == control_mask_word(6));
    } else if c == 7 {
        assert(DECODE_SHUFFLE_TABLE[7] == control_mask_word(7));
    } else if c == 8 {
        assert(DECODE_SHUFFLE_TABLE[8] == control_mask_word(8));
    } else if c == 9 {
        assert(DECODE_SHUFFLE_TABLE[9] == control_mask_word(9));
    } else if c == 10 {
        assert(DECODE_SHUFFLE_TABLE[10] == control_mask_word(10));
    } else if c == 11 {
        assert(DECODE_SHUFFLE_TABLE[11] == control_mask_word(11));
    } else if c == 12 {
        assert(DECODE_SHUFFLE_TABLE[12] == control_mask_word(12));
    } else if c == 13 {
        assert(DECODE_SHUFFLE_TABLE[13] == control_mask_word(13));
    } else if c == 14 {
        assert(DECODE_SHUFFLE_TABLE[14] == control_mask_word(14));
    } else if c == 15 {
        assert(DECODE_SHUFFLE_TABLE[15] == control_mask_word(15));
    } else if c == 16 {
        assert(DECODE_SHUFFLE_TABLE[16] == control_mask_word(16));
    } else if c == 17 {
        assert(DECODE_SHUFFLE_TABLE[17] == control_mask_word(17));
    } else if c == 18 {
        assert(DECODE_SHUFFLE_TABLE[18] == control_mask_word(18));
    } else if c == 19 {
        assert(DECODE_SHUFFLE_TABLE[19] == control_mask_word(19));
    } else if c == 20 {
        assert(DECODE_SHUFFLE_TABLE[20] == control_mask_word(20));
    } else if c == 21 {
        assert(DECODE_SHUFFLE_TABLE[21] == control_mask_word(21));
    } else if c == 22 {
        assert(DECODE_SHUFFLE_TABLE[22] == control_mask_word(22));
    } else if c == 23 {
        assert(DECODE_SHUFFLE_TABLE[23] == control_mask_word(23));
    } else if c == 24 {
        assert(DECODE_SHUFFLE_TABLE[24] == control_mask_word(24));
    } else if c == 25 {
        assert(DECODE_SHUFFLE_TABLE[25] == control_mask_word(25));
    } else if c == 26 {
        assert(DECODE_SHUFFLE_TABLE[26] == control_mask_word(26));
    } else if c == 27 {
        assert(DECODE_SHUFFLE_TABLE[27] == control_mask_word(27));
    } else if c == 28 {
        assert(DECODE_SHUFFLE_TABLE[28] == control_mask_word(28));
    } else if c == 29 {
        assert(DECODE_SHUFFLE_TABLE[29] == control_mask_word(29));
    } else if c == 30 {
        assert(DECODE_SHUFFLE_TABLE[30] == control_mask_word(30));
    } else if c == 31 {
        assert(DECODE_SHUFFLE_TABLE[31] == control_mask_word(31));
    }
}

proof fn lemma_decode_masks_32(c: int)
    requires
        32 <= c < 64,
    ensures
        DECODE_SHUFFLE_TABLE[c] == control_mask_word(c),
{
    if c == 32 {
        assert(DECODE_SHUFFLE_TABLE[32] == control_mask_word(32));
    } else if c == 33 {
        assert(DECODE_SHUFFLE_TABLE[33] == control_mask_word(33));
    } else if c == 34 {
        assert(DECODE_SHUFFLE_TABLE[34] == control_mask_word(34));
    } else if c == 35 {
        assert(DECODE_SHUFFLE_TABLE[35] == control_mask_word(35));
    } else if c == 36 {
        assert(DECODE_SHUFFLE_TABLE[36] == control_mask_word(36));
    } else if c == 37 {
        assert(DECODE_SHUFFLE_TABLE[37] == control_mask_word(37));
    } else if c == 38 {
        assert(DECODE_SHUFFLE_TABLE[38] == control_mask_word(38));
    } else if c == 39 {
        assert(DECODE_SHUFFLE_TABLE[39] == control_mask_word(39));
    } else if c == 40 {
        assert(DECODE_SHUFFLE_TABLE[40] == control_mask_word(40));
    } else if c == 41 {
        assert(DECODE_SHUFFLE_TABLE[41] == control_mask_word(41));
    } else if c == 42 {
        assert(DECODE_SHUFFLE_TABLE[42] == control_mask_word(42));
    } else if c == 43 {
        assert(DECODE_SHUFFLE_TABLE[43] == control_mask_word(43));
    } else if c == 44 {
        assert(DECODE_SHUFFLE_TABLE[44] == control_mask_word(44));
    } else if c == 45 {
        assert(DECODE_SHUFFLE_TABLE[45] == control_mask_word(45));
    } else if c == 46 {
        assert(DECODE_SHUFFLE_TABLE[46] == control_mask_word(46));
    } else if c == 47 {
        assert(DECODE_SHUFFLE_TABLE[47] == control_mask_word(47));
    } else if c == 48 {
        assert(DECODE_SHUFFLE_TABLE[48] == control_mask_word(48));
    } else if c == 49 {
        assert(DECODE_SHUFFLE_TABLE[49] == control_mask_word(49));
    } else if c == 50 {
        assert(DECODE_SHUFFLE_TABLE[50] == control_mask_word(50));
    } else if c == 51 {
        assert(DECODE_SHUFFLE_TABLE[51] == control_mask_word(51));
    } else if c == 52 {
        assert(DECODE_SHUFFLE_TABLE[52] == control_mask_word(52));
    } else if c == 53 {
        assert(DECODE_SHUFFLE_TABLE[53] == control_mask_word(53));
    } else if c == 54 {
        assert(DECODE_SHUFFLE_TABLE[54] == control_mask_word(54));
    } else if c == 55 {
        assert(DECODE_SHUFFLE_TABLE[55] == control_mask_word(55));
    } else if c == 56 {
        assert(DECODE_SHUFFLE_TABLE[56] == control_mask_word(56));
    } else if c == 57 {
        assert(DECODE_SHUFFLE_TABLE[57] == control_mask_word(57));
    } else if c == 58 {
        assert(DECODE_SHUFFLE_TABLE[58] == control_mask_word(58));
    } else if c == 59 {
        assert(DECODE_SHUFFLE_TABLE[59] == control_mask_word(59));
    } else if c == 60 {
        assert(DECODE_SHUFFLE_TABLE[60] == control_mask_word(60));
    } else if c == 61 {
        assert(DECODE_SHUFFLE_TABLE[61] == control_mask_word(61));
    } else if c == 62 {
        assert(DECODE_SHUFFLE_TABLE[62] == control_mask_word(62));
    } else if c == 63 {
        assert(DECODE_SHUFFLE_TABLE[63] == control_mask_word(63));
    }
}

proof fn lemma_decode_masks_64(c: int)
    requires
        64 <= c < 96,
    ensures
        DECODE_SHUFFLE_TABLE[c] == control_mask_word(c),
{
    if c == 64 {
        assert(DECODE_SHUFFLE_TABLE[64] == control_mask_word(64));
    } else if c == 65 {
        assert(DECODE_SHUFFLE_TABLE[65] == control_mask_word(65));
    } else if c == 66 {
        assert(DECODE_SHUFFLE_TABLE[66] == control_mask_word(66));
    } else if c == 67 {
        assert(DECODE_SHUFFLE_TABLE[67] == control_mask_word(67));
    } else if c == 68 {
        assert(DECODE_SHUFFLE_TABLE[68] == control_mask_word(68));
    } else if c == 69 {
        assert(DECODE_SHUFFLE_TABLE[69] == control_mask_word(69));
    } else if c == 70 {
        assert(DECODE_SHUFFLE_TABLE[70] == control_mask_word(70));
    } else if c == 71 {
        assert(DECODE_SHUFFLE_TABLE[71] == control_mask_word(71));
    } else if c == 72 {
        assert(DECODE_SHUFFLE_TABLE[72] == control_mask_word(72));
    } else if c == 73 {
        assert(DECODE_SHUFFLE_TABLE[73] == control_mask_word(73));
    } else if c == 74 {
        assert(DECODE_SHUFFLE_TABLE[74] == control_mask_word(74));
    } else if c == 75 {
        assert(DECODE_SHUFFLE_TABLE[75] == control_mask_word(75));
    } else if c == 76 {
        assert(DECODE_SHUFFLE_TABLE[76] == control_mask_word(76));
    } else if c == 77 {
        assert(DECODE_SHUFFLE_TABLE[77] == control_mask_word(77));
    } else if c == 78 {
        assert(DECODE_SHUFFLE_TABLE[78] == control_mask_word(78));
    } else if c == 79 {
        assert(DECODE_SHUFFLE_TABLE[79] == control_mask_word(79));
    } else if c == 80 {
        assert(DECODE_SHUFFLE_TABLE[80] == control_mask_word(80));
    } else if c == 81 {
        assert(DECODE_SHUFFLE_TABLE[81] == control_mask_word(81));
    } else if c == 82 {
        assert(DECODE_SHUFFLE_TABLE[82] == control_mask_word(82));
    } else if c == 83 {
        assert(DECODE_SHUFFLE_TABLE[83] == control_mask_word(83));
    } else if c == 84 {
        assert(DECODE_SHUFFLE_TABLE[84] == control_mask_word(84));
    } else if c == 85 {
        assert(DECODE_SHUFFLE_TABLE[85] == control_mask_word(85));
    } else if c == 86 {
        assert(DECODE_SHUFFLE_TABLE[86] == control_mask_word(86));
    } else if c == 87 {
        assert(DECODE_SHUFFLE_TABLE[87] == control_mask_word(87));
    } else if c == 88 {
        assert(DECODE_SHUFFLE_TABLE[88] == control_mask_word(88));
    } else if c == 89 {
        assert(DECODE_SHUFFLE_TABLE[89] == control_mask_word(89));
    } else if c == 90 {
        assert(DECODE_SHUFFLE_TABLE[90] == control_mask_word(90));
    } else if c == 91 {
        assert(DECODE_SHUFFLE_TABLE[91] == control_mask_word(91));
    } else if c == 92 {
        assert(DECODE_SHUFFLE_TABLE[92] == control_mask_word(92));
    } else if c == 93 {
        assert(DECODE_SHUFFLE_TABLE[93] == control_mask_word(93));
    } else if c == 94 {
        assert(DECODE_SHUFFLE_TABLE[94] == control_mask_word(94));
    } else if c == 95 {
        assert(DECODE_SHUFFLE_TABLE[95] == control_mask_word(95));
    }
}

proof fn lemma_decode_masks_96(c: int)
    requires
        96 <= c < 128,
    ensures
        DECODE_SHUFFLE_TABLE[c] == control_mask_word(c),
{
    if c == 96 {
        assert(DECODE_SHUFFLE_TABLE[96] == control_mask_word(96));
    } else if c == 97 {
        assert(DECODE_SHUFFLE_TABLE[97] == control_mask_word(97));
    } else if c == 98 {
        assert(DECODE_SHUFFLE_TABLE[98] == control_mask_word(98));
    } else if c == 99 {
        assert(DECODE_SHUFFLE_TABLE[99] == control_mask_word(99));
    } else if c == 100 {
        assert(DECODE_SHUFFLE_TABLE[100] == control_mask_word(100));
    } else if c == 101 {
        assert(DECODE_SHUFFLE_TABLE[101] == control_mask_word(101));
    } else if c == 102 {
        assert(DECODE_SHUFFLE_TABLE[102] == control_mask_word(102));
    } else if c == 103 {
        assert(DECODE_SHUFFLE_TABLE[103] == control_mask_word(103));
    } else if c == 104 {
        assert(DECODE_SHUFFLE_TABLE[104] == control_mask_word(104));
    } else if c == 105 {
        assert(DECODE_SHUFFLE_TABLE[105] == control_mask_word(105));
    } else if c == 106 {
        assert(DECODE_SHUFFLE_TABLE[106] == control_mask_word(106));
    } else if c == 107 {
        assert(DECODE_SHUFFLE_TABLE[107] == control_mask_word(107));
    } else if c == 108 {
        assert(DECODE_SHUFFLE_TABLE[108] == control_mask_word(108));
    } else if c == 109 {
        assert(DECODE_SHUFFLE_TABLE[109] == control_mask_word(109));
    } else if c == 110 {
        assert(DECODE_SHUFFLE_TABLE[110] == control_mask_word(110));
    } else if c == 111 {
        assert(DECODE_SHUFFLE_TABLE[111] == control_mask_word(111));
    } else if c == 112 {
        assert(DECODE_SHUFFLE_TABLE[112] == control_mask_word(112));
    } else if c == 113 {
        assert(DECODE_SHUFFLE_TABLE[113] == control_mask_word(113));
    } else if c == 114 {
        assert(DECODE_SHUFFLE_TABLE[114] == control_mask_word(114));
    } else if c == 115 {
        assert(DECODE_SHUFFLE_TABLE[115] == control_mask_word(115));
    } else if c == 116 {
        assert(DECODE_SHUFFLE_TABLE[116] == control_mask_word(116));
    } else if c == 117 {
        assert(DECODE_SHUFFLE_TABLE[117] == control_mask_word(117));
    } else if c == 118 {
        assert(DECODE_SHUFFLE_TABLE[118] == control_mask_word(118));
    } else if c == 119 {
        assert(DECODE_SHUFFLE_TABLE[119] == control_mask_word(119));
    } else if c == 120 {
        assert(DECODE_SHUFFLE_TABLE[120] == control_mask_word(120));
    } else if c == 121 {
        assert(DECODE_SHUFFLE_TABLE[121] == control_mask_word(121));
    } else if c == 122 {
        assert(DECODE_SHUFFLE_TABLE[122] == control_mask_word(122));
    } else if c == 123 {
        assert(DECODE_SHUFFLE_TABLE[123] == control_mask_word(123));
    } else if c == 124 {
        assert(DECODE_SHUFFLE_TABLE[124] == control_mask_word(124));
    } else if c == 125 {
        assert(DECODE_SHUFFLE_TABLE[125] == control_mask_word(125));
    } else if c == 126 {
        assert(DECODE_SHUFFLE_TABLE[126] == control_mask_word(126));
    } else if c == 127 {
        assert(DECODE_SHUFFLE_TABLE[127] == control_mask_word(127));
    }
}

proof fn lemma_decode_masks_128(c: int)
    requires
        128 <= c < 160,
    ensures
        DECODE_SHUFFLE_TABLE[c] == control_mask_word(c),
{
    if c == 128 {
        assert(DECODE_SHUFFLE_TABLE[128] == control_mask_word(128));
    } else if c == 129 {
        assert(DECODE_SHUFFLE_TABLE[129] == control_mask_word(129));
    } else if c == 130 {
        assert(DECODE_SHUFFLE_TABLE[130] == control_mask_word(130));
    } else if c == 131 {
        assert(DECODE_SHUFFLE_TABLE[131] == control_mask_word(131));
    } else if c == 132 {
        assert(DECODE_SHUFFLE_TABLE[132] == control_mask_word(132));
    } else if c == 133 {
        assert(DECODE_SHUFFLE_TABLE[133] == control_mask_word(133));
    } else if c == 134 {
        assert(DECODE_SHUFFLE_TABLE[134] == control_mask_word(134));
    } else if c == 135 {
        assert(DECODE_SHUFFLE_TABLE[135] == control_mask_word(135));
    } else if c == 136 {
        assert(DECODE_SHUFFLE_TABLE[136] == control_mask_word(136));
    } else if c == 137 {
        assert(DECODE_SHUFFLE_TABLE[137] == control_mask_word(137));
    } else if c == 138 {
        assert(DECODE_SHUFFLE_TABLE[138] == control_mask_word(138));
    } else if c == 139 {
        assert(DECODE_SHUFFLE_TABLE[139] == control_mask_word(139));
    } else if c == 140 {
        assert(DECODE_SHUFFLE_TABLE[140] == control_mask_word(140));
    } else if c == 141 {
        assert(DECODE_SHUFFLE_TABLE[141] == control_mask_word(141));
    } else if c == 142 {
        assert(DECODE_SHUFFLE_TABLE[142] == control_mask_word(142));
    } else if c == 143 {
        assert(DECODE_SHUFFLE_TABLE[143] == control_mask_word(143));
    } else if c == 144 {
        assert(DECODE_SHUFFLE_TABLE[144] == control_mask_word(144));
    } else if c == 145 {
        assert(DECODE_SHUFFLE_TABLE[145] == control_mask_word(145));
    } else if c == 146 {
        assert(DECODE_SHUFFLE_TABLE[146] == control_mask_word(146));
    } else if c == 147 {
        assert(DECODE_SHUFFLE_TABLE[147] == control_mask_word(147));
    } else if c == 148 {
        assert(DECODE_SHUFFLE_TABLE[148] == control_mask_word(148));
    } else if c == 149 {
        assert(DECODE_SHUFFLE_TABLE[149] == control_mask_word(149));
    } else if c == 150 {
        assert(DECODE_SHUFFLE_TABLE[150] == control_mask_word(150));
    } else if c == 151 {
        assert(DECODE_SHUFFLE_TABLE[151] == control_mask_word(151));
    } else if c == 152 {
        assert(DECODE_SHUFFLE_TABLE[152] == control_mask_word(152));
    } else if c == 153 {
        assert(DECODE_SHUFFLE_TABLE[153] == control_mask_word(153));
    } else if c == 154 {
        assert(DECODE_SHUFFLE_TABLE[154] == control_mask_word(154));
    } else if c == 155 {
        assert(DECODE_SHUFFLE_TABLE[155] == control_mask_word(155));
    } else if c == 156 {
        assert(DECODE_SHUFFLE_TABLE[156] == control_mask_word(156));
    } else if c == 157 {
        assert(DECODE_SHUFFLE_TABLE[157] == control_mask_word(157));
    } else if c == 158 {
        assert(DECODE_SHUFFLE_TABLE[158] == control_mask_word(158));
    } else if c == 159 {
        assert(DECODE_SHUFFLE_TABLE[159] == control_mask_word(159));
    }
}

proof fn lemma_decode_masks_160(c: int)
    requires
        160 <= c < 192,
    ensures
        DECODE_SHUFFLE_TABLE[c] == control_mask_word(c),
{
    if c == 160 {
        assert(DECODE_SHUFFLE_TABLE[160] == control_mask_word(160));
    } else if c == 161 {
        assert(DECODE_SHUFFLE_TABLE[161] == control_mask_word(161));
    } else if c == 162 {
        assert(DECODE_SHUFFLE_TABLE[162] == control_mask_word(162));
    } else if c == 163 {
        assert(DECODE_SHUFFLE_TABLE[163] == control_mask_word(163));
    } else if c == 164 {
        assert(DECODE_SHUFFLE_TABLE[164] == control_mask_word(164));
    } else if c == 165 {
        assert(DECODE_SHUFFLE_TABLE[165] == control_mask_word(165));
    } else if c == 166 {
        assert(DECODE_SHUFFLE_TABLE[166] == control_mask_word(166));
    } else if c == 167 {
        assert(DECODE_SHUFFLE_TABLE[167] == control_mask_word(167));
    } else if c == 168 {
        assert(DECODE_SHUFFLE_TABLE[168] == control_mask_word(168));
    } else if c == 169 {
        assert(DECODE_SHUFFLE_TABLE[169] == control_mask_word(169));
    } else if c == 170 {
        assert(DECODE_SHUFFLE_TABLE[170] == control_mask_word(170));
    } else if c == 171 {
        assert(DECODE_SHUFFLE_TABLE[171] == control_mask_word(171));
    } else if c == 172 {
        assert(DECODE_SHUFFLE_TABLE[172] == control_mask_word(172));
    } else if c == 173 {
        assert(DECODE_SHUFFLE_TABLE[173] == control_mask_word(173));
    } else if c == 174 {
        assert(DECODE_SHUFFLE_TABLE[174] == control_mask_word(174));
    } else if c == 175 {
        assert(DECODE_SHUFFLE_TABLE[175] == control_mask_word(175));
    } else if c == 176 {
        assert(DECODE_SHUFFLE_TABLE[176] == control_mask_word(176));
    } else if c == 177 {
        assert(DECODE_SHUFFLE_TABLE[177] == control_mask_word(177));
    } else if c == 178 {
        assert(DECODE_SHUFFLE_TABLE[178] == control_mask_word(178));
    } else if c == 179 {
        assert(DECODE_SHUFFLE_TABLE[179] == control_mask_word(179));
    } else if c == 180 {
        assert(DECODE_SHUFFLE_TABLE[180] == control_mask_word(180));
    } else if c == 181 {
        assert(DECODE_SHUFFLE_TABLE[181] == control_mask_word(181));
    } else if c == 182 {
        assert(DECODE_SHUFFLE_TABLE[182] == control_mask_word(182));
    } else if c == 183 {
        assert(DECODE_SHUFFLE_TABLE[183] == control_mask_word(183));
    } else if c == 184 {
        assert(DECODE_SHUFFLE_TABLE[184] == control_mask_word(184));
    } else if c == 185 {
        assert(DECODE_SHUFFLE_TABLE[185] == control_mask_word(185));
    } else if c == 186 {
        assert(DECODE_SHUFFLE_TABLE[186] == control_mask_word(186));
    } else if c == 187 {
        assert(DECODE_SHUFFLE_TABLE[187] == control_mask_word(187));
    } else if c == 188 {
        assert(DECODE_SHUFFLE_TABLE[188] == control_mask_word(188));
    } else if c == 189 {
        assert(DECODE_SHUFFLE_TABLE[189] == control_mask_word(189));
    } else if c == 190 {
        assert(DECODE_SHUFFLE_TABLE[190] == control_mask_word(190));
    } else if c == 191 {
        assert(DECODE_SHUFFLE_TABLE[191] == control_mask_word(191));
    }
}

proof fn lemma_decode_masks_192(c: int)
    requires
        192 <= c < 224,
    ensures
        DECODE_SHUFFLE_TABLE[c] == control_mask_word(c),
{
    if c == 192 {
        assert(DECODE_SHUFFLE_TABLE[192] == control_mask_word(192));
    } else if c == 193 {
        assert(DECODE_SHUFFLE_TABLE[193] == control_mask_word(193));
    } else if c == 194 {
        assert(DECODE_SHUFFLE_TABLE[194] == control_mask_word(194));
    } else if c == 195 {
        assert(DECODE_SHUFFLE_TABLE[195] == control_mask_word(195));
    } else if c == 196 {
        assert(DECODE_SHUFFLE_TABLE[196] == control_mask_word(196));
    } else if c == 197 {
        assert(DECODE_SHUFFLE_TABLE[197] == control_mask_word(197));
    } else if c == 198 {
        assert(DECODE_SHUFFLE_TABLE[198] == control_mask_word(198));
    } else if c == 199 {
        assert(DECODE_SHUFFLE_TABLE[199] == control_mask_word(199));
    } else if c == 200 {
        assert(DECODE_SHUFFLE_TABLE[200] == control_mask_word(200));
    } else if c == 201 {
        assert(DECODE_SHUFFLE_TABLE[201] == control_mask_word(201));
    } else if c == 202 {
        assert(DECODE_SHUFFLE_TABLE[202] == control_mask_word(202));
    } else if c == 203 {
        assert(DECODE_SHUFFLE_TABLE[203] == control_mask_word(203));
    } else if c == 204 {
        assert(DECODE_SHUFFLE_TABLE[204] == control_mask_word(204));
    } else if c == 205 {
        assert(DECODE_SHUFFLE_TABLE[205] == control_mask_word(205));
    } else if c == 206 {
        assert(DECODE_SHUFFLE_TABLE[206] == control_mask_word(206));
    } else if c == 207 {
        assert(DECODE_SHUFFLE_TABLE[207] == control_mask_word(207));
    } else if c == 208 {
        assert(DECODE_SHUFFLE_TABLE[208] == control_mask_word(208));
    } else if c == 209 {
        assert(DECODE_SHUFFLE_TABLE[209] == control_mask_word(209));
    } else if c == 210 {
        assert(DECODE_SHUFFLE_TABLE[210] == control_mask_word(210));
    } else if c == 211 {
        assert(DECODE_SHUFFLE_TABLE[211] == control_mask_word(211));
    } else if c == 212 {
        assert(DECODE_SHUFFLE_TABLE[212] == control_mask_word(212));
    } else if c == 213 {
        assert(DECODE_SHUFFLE_TABLE[213] == control_mask_word(213));
    } else if c == 214 {
        assert(DECODE_SHUFFLE_TABLE[214] == control_mask_word(214));
    } else if c == 215 {
        assert(DECODE_SHUFFLE_TABLE[215] == control_mask_word(215));
    } else if c == 216 {
        assert(DECODE_SHUFFLE_TABLE[216] == control_mask_word(216));
    } else if c == 217 {
        assert(DECODE_SHUFFLE_TABLE[217] == control_mask_word(217));
    } else if c == 218 {
        assert(DECODE_SHUFFLE_TABLE[218] == control_mask_word(218));
    } else if c == 219 {
        assert(DECODE_SHUFFLE_TABLE[219] == control_mask_word(219));
    } else if c == 220 {
        assert(DECODE_SHUFFLE_TABLE[220] == control_mask_word(220));
    } else if c == 221 {
        assert(DECODE_SHUFFLE_TABLE[221] == control_mask_word(221));
    } else if c == 222 {
        assert(DECODE_SHUFFLE_TABLE[222] == control_mask_word(222));
    } else if c == 223 {
        assert(DECODE_SHUFFLE_TABLE[223] == control_mask_word(223));
    }
}

proof fn lemma_decode_masks_224(c: int)
    requires
        224 <= c < 256,
    ensures
        DECODE_SHUFFLE_TABLE[c] == control_mask_word(c),
{
    if c == 224 {
        assert(DECODE_SHUFFLE_TABLE[224] == control_mask_word(224));
    } else if c == 225 {
        assert(DECODE_SHUFFLE_TABLE[225] == control_mask_word(225));
    } else if c == 226 {
        assert(DECODE_SHUFFLE_TABLE[226] == control_mask_word(226));
    } else if c == 227 {
        assert(DECODE_SHUFFLE_TABLE[227] == control_mask_word(227));
    } else if c == 228 {
        assert(DECODE_SHUFFLE_TABLE[228] == control_mask_word(228));
    } else if c == 229 {
        assert(DECODE_SHUFFLE_TABLE[229] == control_mask_word(229));
    } else if c == 230 {
        assert(DECODE_SHUFFLE_TABLE[230] == control_mask_word(230));
    } else if c == 231 {
        assert(DECODE_SHUFFLE_TABLE[231] == control_mask_word(231));
    } else if c == 232 {
        assert(DECODE_SHUFFLE_TABLE[232] == control_mask_word(232));
    } else if c == 233 {
        assert(DECODE_SHUFFLE_TABLE[233] == control_mask_word(233));
    } else if c == 234 {
        assert(DECODE_SHUFFLE_TABLE[234] == control_mask_word(234));
    } else if c == 235 {
        assert(DECODE_SHUFFLE_TABLE[235] == control_mask_word(235));
    } else if c == 236 {
        assert(DECODE_SHUFFLE_TABLE[236] == control_mask_word(236));
    } else if c == 237 {
        assert(DECODE_SHUFFLE_TABLE[237] == control_mask_word(237));
    } else if c == 238 {
        assert(DECODE_SHUFFLE_TABLE[238] == control_mask_word(238));
    } else if c == 239 {
        assert(DECODE_SHUFFLE_TABLE[239] == control_mask_word(239));
    } else if c == 240 {
        assert(DECODE_SHUFFLE_TABLE[240] == control_mask_word(240));
    } else if c == 241 {
        assert(DECODE_SHUFFLE_TABLE[241] == control_mask_word(241));
    } else if c == 242 {
        assert(DECODE_SHUFFLE_TABLE[242] == control_mask_word(242));
    } else if c == 243 {
        assert(DECODE_SHUFFLE_TABLE[243] == control_mask_word(243));
    } else if c == 244 {
        assert(DECODE_SHUFFLE_TABLE[244] == control_mask_word(244));
    } else if c == 245 {
        assert(DECODE_SHUFFLE_TABLE[245] == control_mask_word(245));
    } else if c == 246 {
        assert(DECODE_SHUFFLE_TABLE[246] == control_mask_word(246));
    } else if c == 247 {
        assert(DECODE_SHUFFLE_TABLE[247] == control_mask_word(247));
    } else if c == 248 {
        assert(DECODE_SHUFFLE_TABLE[248] == control_mask_word(248));
    } else if c == 249 {
        assert(DECODE_SHUFFLE_TABLE[249] == control_mask_word(249));
    } else if c == 250 {
        assert(DECODE_SHUFFLE_TABLE[250] == control_mask_word(250));
    } else if c == 251 {
        assert(DECODE_SHUFFLE_TABLE[251] == control_mask_word(251));
    } else if c == 252 {
        assert(DECODE_SHUFFLE_TABLE[252] == control_mask_word(252));
    } else if c == 253 {
        assert(DECODE_SHUFFLE_TABLE[253] == control_mask_word(253));
    } else if c == 254 {
        assert(DECODE_SHUFFLE_TABLE[254] == control_mask_word(254));
    } else if c == 255 {
        assert(DECODE_SHUFFLE_TABLE[255] == control_mask_word(255));
    }
}

/// The four bytes of lane `s` of a mask, as a 32-bit word.
pub open spec fn lane_word(m: Seq<u8>, s: int) -> int {
    m[4 * s] + m[4 * s + 1] * 0x100 + m[4 * s + 2] * 0x1_0000 + m[4 * s + 3] * 0x100_0000
}

/// A lane of the decode mask, as a word, is the mask of the lane's value.
proof fn lemma_lane_mask(c: u8, s: int)
    requires
        0 <= s < 4,
    ensures
        lane_word(decode_mask(c), s) == lane_mask(
            ctrl_code(c, s) as int,
            group_offset(c, s) as int,
        ),
{
    let m = decode_mask(c);
    if s == 0 {
        assert(m[0] == decode_mask_byte(c, 0));
        assert(m[1] == decode_mask_byte(c, 1));
        assert(m[2] == decode_mask_byte(c, 2));
        assert(m[3] == decode_mask_byte(c, 3));
    } else if s == 1 {
        assert(m[4] == decode_mask_byte(c, 4));
        assert(m[5] == decode_mask_byte(c, 5));
        assert(m[6] == decode_mask_byte(c, 6));
        assert(m[7] == decode_mask_byte(c, 7));
    } else if s == 2 {
        assert(m[8] == decode_mask_byte(c, 8));
        assert(m[9] == decode_mask_byte(c, 9));
        assert(m[10] == decode_mask_byte(c, 10));
        assert(m[11] == decode_mask_byte(c, 11));
    } else {
        assert(m[12] == decode_mask_byte(c, 12));
        assert(m[13] == decode_mask_byte(c, 13));
        assert(m[14] == decode_mask_byte(c, 14));
        assert(m[15] == decode_mask_byte(c, 15));
    }
}

/// The word form of a mask holds the bytes of the mask.
proof fn lemma_mask_word(c: u8)
    ensures
        control_mask_word(c as int) == pack_bytes(decode_mask(c)),
{
    let m = decode_mask(c);
    lemma_lane_mask(c, 0);
    lemma_lane_mask(c, 1);
    lemma_lane_mask(c, 2);
    lemma_lane_mask(c, 3);
    lemma_pack_lanes(m);
}

/// Sixteen bytes as a word are their four lanes as words, each at its place.
proof fn lemma_pack_lanes(m: Seq<u8>)
    ensures
        pack_bytes(m) == lane_word(m, 0) + lane_word(m, 1) * 0x1_0000_0000 + lane_word(m, 2)
            * 0x1_0000_0000_0000_0000 + lane_word(m, 3) * 0x1_0000_0000_0000_0000_0000_0000,
{
}

/// Every entry of the decode shuffle table is the mask of its control byte.
pub proof fn lemma_decode_shuffle_table(control: u8)
    ensures
        DECODE_SHUFFLE_TABLE[control as int] == pack_bytes(decode_mask(control)),
{
    let c = control as int;
    if c < 32 {
        lemma_decode_masks_0(c);
    } else if c < 64 {
        lemma_decode_masks_32(c);
    } else if c < 96 {
        lemma_decode_masks_64(c);
    } else if c < 128 {
        lemma_decode_masks_96(c);
    } else if c < 160 {
        lemma_decode_masks_128(c);
    } else if c < 192 {
        lemma_decode_masks_160(c);
    } else if c < 224 {
        lemma_decode_masks_192(c);
    } else {
        lemma_decode_masks_224(c);
    }
    lemma_mask_word(control);
}

/// What gathering by mask byte `m` puts in a lane byte: the data byte at
/// position `m`, or zero where the mask names no source.
pub open spec fn gathered_byte(data: Seq<u8>, m: u8) -> u8 {
    if m == NO_SOURCE {
        0
    } else {
        data[m as int]
    }
}

/// A byte of a decode mask is a position within the sixteen data bytes, or
/// names no source.
pub proof fn lemma_decode_mask_byte(c: u8, i: int)
    requires
        0 <= i < 16,
    ensures
        decode_mask_byte(c, i) < 16 || decode_mask_byte(c, i) == NO_SOURCE,
{
}

/// Gathering sixteen data bytes by the decode mask of a control byte yields,
/// lane by lane, the four values that the control byte describes.
pub proof fn lemma_decode_mask_gathers(data: Seq<u8>, c: u8, lanes: Seq<u8>, s: int)
    requires
        data.len() == 16,
        lanes.len() == 16,
        0 <= s < 4,
        forall|i: int|
            0 <= i < 16 ==> #[trigger] lanes[i] == gathered_byte(data, decode_mask_byte(c, i)),
    ensures
        le_value(lanes, 4 * s, 4) == le_value(
            data,
            group_offset(c, s) as int,
            ctrl_code(c, s) + 1,
        ),
        group_offset(c, s) + ctrl_code(c, s) + 1 <= 16,
{
    if s == 0 {
        assert(lanes[0] == gathered_byte(data, decode_mask_byte(c, 0)));
        assert(lanes[1] == gathered_byte(data, decode_mask_byte(c, 1)));
        assert(lanes[2] == gathered_byte(data, decode_mask_byte(c, 2)));
        assert(lanes[3] == gathered_byte(data, decode_mask_byte(c, 3)));
    } else if s == 1 {
        assert(lanes[4] == gathered_byte(data, decode_mask_byte(c, 4)));
        assert(lanes[5] == gathered_byte(data, decode_mask_byte(c, 5)));
        assert(lanes[6] == gathered_byte(data, decode_mask_byte(c, 6)));
        assert(lanes[7] == gathered_byte(data, decode_mask_byte(c, 7)));
    } else if s == 2 {
        assert(lanes[8] == gathered_byte(data, decode_mask_byte(c, 8)));
        assert(lanes[9] == gathered_byte(data, decode_mask_byte(c, 9)));
        assert(lanes[10] == gathered_byte(data, decode_mask_byte(c, 10)));
        assert(lanes[11] == gathered_byte(data, decode_mask_byte(c, 11)));
    } else {
        assert(lanes[12] == gathered_byte(data, decode_mask_byte(c, 12)));
        assert(lanes[13] == gathered_byte(data, decode_mask_byte(c, 13)));
        assert(lanes[14] == gathered_byte(data, decode_mask_byte(c, 14)));
        assert(lanes[15] == gathered_byte(data, decode_mask_byte(c, 15)));
    }
}

/// The decode mask for a control byte, from the table.
pub fn decode_shuffle_mask(control: u8) -> (mask: [u8; 16])
    ensures
        mask@ == decode_mask(control),
{
    let mask: [u8; 16] = bytes_of_word(DECODE_SHUFFLE_TABLE[control as usize]);
    proof {
        lemma_decode_shuffle_table(control);
        lemma_pack_bytes_unique(mask@, decode_mask(control));
    }
    mask
}

} // verus!
