//! Facts that tie the bit operations of the codecs to the arithmetic of the
//! format.
use vstd::prelude::*;

verus! {

/// Shifting and masking a word yields its little-endian bytes.
pub proof fn lemma_word_bytes(v: u32)
    ensures
        v & 0xff == v % 0x100,
        (v >> 8) & 0xff == v / 0x100 % 0x100,
        (v >> 16) & 0xff == v / 0x1_0000 % 0x100,
        (v >> 24) & 0xff == v / 0x100_0000 % 0x100,
{
    assert(v & 0xff == v % 0x100) by (bit_vector);
    assert((v >> 8) & 0xff == v / 0x100 % 0x100) by (bit_vector);
    assert((v >> 16) & 0xff == v / 0x1_0000 % 0x100) by (bit_vector);
    assert((v >> 24) & 0xff == v / 0x100_0000 % 0x100) by (bit_vector);
}

/// A word is the sum of its little-endian bytes at their weights.
pub proof fn lemma_word_sum(v: u32)
    ensures
        v == v % 0x100 + (v / 0x100 % 0x100) * 0x100 + (v / 0x1_0000 % 0x100) * 0x1_0000 + (v
            / 0x100_0000 % 0x100) * 0x100_0000,
{
    assert(v == v % 0x100 + (v / 0x100 % 0x100) * 0x100 + (v / 0x1_0000 % 0x100) * 0x1_0000 + (v
        / 0x100_0000 % 0x100) * 0x100_0000) by (bit_vector);
}

/// Or-ing a code into a free slot of a key adds it at the slot's weight.
pub proof fn lemma_key_slot(key: u32, symbol: u32, slot: u32)
    requires
        slot < 4,
        symbol <= 3,
        slot == 0 ==> key == 0,
        slot == 1 ==> key < 4,
        slot == 2 ==> key < 16,
        slot == 3 ==> key < 64,
    ensures
        slot == 0 ==> key | (symbol << (slot + slot)) == symbol,
        slot == 1 ==> key | (symbol << (slot + slot)) == key + 4 * symbol,
        slot == 2 ==> key | (symbol << (slot + slot)) == key + 16 * symbol,
        slot == 3 ==> key | (symbol << (slot + slot)) == key + 64 * symbol,
{
    assert(slot == 0 && key == 0 ==> key | (symbol << (slot + slot)) == symbol) by (bit_vector);
    assert(slot == 1 && key < 4 && symbol <= 3 ==> key | (symbol << (slot + slot)) == key + 4
        * symbol) by (bit_vector);
    assert(slot == 2 && key < 16 && symbol <= 3 ==> key | (symbol << (slot + slot)) == key + 16
        * symbol) by (bit_vector);
    assert(slot == 3 && key < 64 && symbol <= 3 ==> key | (symbol << (slot + slot)) == key + 64
        * symbol) by (bit_vector);
}

/// Four bytes or-ed into a word at their positions add up little-endian.
pub proof fn lemma_bytes_word(b0: u8, b1: u8, b2: u8, b3: u8)
    ensures
        (b0 as u32) | (b1 as u32) << 8 | (b2 as u32) << 16 | (b3 as u32) << 24 == b0 + b1 * 0x100
            + b2 * 0x1_0000 + b3 * 0x100_0000,
{
    assert((b0 as u32) | (b1 as u32) << 8 | (b2 as u32) << 16 | (b3 as u32) << 24 == b0 + b1
        * 0x100 + b2 * 0x1_0000 + b3 * 0x100_0000) by (bit_vector);
}

/// Masking a word by a code keeps its low `code + 1` bytes.
pub proof fn lemma_mask_word(val: u32, k: u32)
    requires
        k <= 3,
    ensures
        k == 0 ==> val & !((!0xffu32) << (8 * k)) == val % 0x100,
        k == 1 ==> val & !((!0xffu32) << (8 * k)) == val % 0x1_0000,
        k == 2 ==> val & !((!0xffu32) << (8 * k)) == val % 0x100_0000,
        k == 3 ==> val & !((!0xffu32) << (8 * k)) == val,
{
    assert(k <= 3 ==> (k == 0 ==> val & !((!0xffu32) << (8 * k)) == val % 0x100) && (k == 1
        ==> val & !((!0xffu32) << (8 * k)) == val % 0x1_0000) && (k == 2 ==> val & !((!0xffu32) << (
    8 * k)) == val % 0x100_0000) && (k == 3 ==> val & !((!0xffu32) << (8 * k)) == val))
        by (bit_vector);
}

/// Shifting and masking a control byte yields its four codes.
pub proof fn lemma_key_codes(key: u32)
    requires
        key <= 0xff,
    ensures
        key & 0x3 == key % 4,
        (key >> 2) & 0x3 == key / 4 % 4,
        (key >> 4) & 0x3 == key / 16 % 4,
        key >> 6 == key / 64 % 4,
{
    assert(key <= 0xff ==> key & 0x3 == key % 4 && (key >> 2) & 0x3 == key / 4 % 4 && (key >> 4)
        & 0x3 == key / 16 % 4 && key >> 6 == key / 64 % 4) by (bit_vector);
}

/// The code in a slot of a control byte, by a shift of twice the slot.
pub proof fn lemma_key_code_at(key: u8, shift: u8)
    requires
        shift == 0 || shift == 2 || shift == 4 || shift == 6,
    ensures
        shift == 0 ==> (key >> shift) & 0x3 == key % 4,
        shift == 2 ==> (key >> shift) & 0x3 == key / 4 % 4,
        shift == 4 ==> (key >> shift) & 0x3 == key / 16 % 4,
        shift == 6 ==> (key >> shift) & 0x3 == key / 64 % 4,
{
    assert((shift == 0 ==> (key >> shift) & 0x3 == key % 4) && (shift == 2 ==> (key >> shift) & 0x3
        == key / 4 % 4) && (shift == 4 ==> (key >> shift) & 0x3 == key / 16 % 4) && (shift == 6
        ==> (key >> shift) & 0x3 == key / 64 % 4)) by (bit_vector);
}

/// The zig-zag transforms in bit operations and in arithmetic.
pub proof fn lemma_zigzag_bits(x: u32)
    ensures
        x % 2 == 0 ==> (x >> 1) ^ (0u32.wrapping_sub(x & 1)) == x / 2,
        x % 2 == 1 ==> (x >> 1) ^ (0u32.wrapping_sub(x & 1)) == 0xffff_ffff - x / 2,
        x < 0x8000_0000 ==> (x.wrapping_add(x)) ^ (0u32.wrapping_sub(x >> 31)) == 2 * x,
        x >= 0x8000_0000 ==> (x.wrapping_add(x)) ^ (0u32.wrapping_sub(x >> 31)) == 0x1_ffff_ffff
            - 2 * x,
{
    assert(x & 1 == x % 2) by (bit_vector);
    assert(x >> 31 == x / 0x8000_0000) by (bit_vector);
    assert(x % 2 == 0 ==> (x >> 1) ^ 0u32 == x / 2) by (bit_vector);
    assert(x % 2 == 1 ==> (x >> 1) ^ 0xffff_ffffu32 == 0xffff_ffff - x / 2) by (bit_vector);
    assert(x < 0x8000_0000 ==> (x << 1) ^ 0u32 == 2 * x) by (bit_vector);
    assert(x >= 0x8000_0000 ==> (x << 1) ^ 0xffff_ffffu32 == 0x1_ffff_ffff - 2 * x)
        by (bit_vector);
    assert(x.wrapping_add(x) == x << 1) by {
        assert(x < 0x8000_0000 ==> x << 1 == 2 * x) by (bit_vector);
        assert(x >= 0x8000_0000 ==> x << 1 == 2 * x - 0x1_0000_0000) by (bit_vector);
    }
}

} // verus!
