//! Sixteen-byte lanes: the vectors that the lane codecs load, shuffle and
//! store, with the byte order fixed as little-endian.
//!
//! Every operation here has the meaning of one vector instruction, which its
//! comment names, so that a lane codec reads as its vector form does. The
//! lane codecs take their operations from [`ShuffleLanes`] and
//! [`LookupLanes`]: [`Portable`] carries them out in plain code, and who has
//! a vector unit at hand may carry them out with its instructions.
use crate::bits::{lemma_bytes_word, lemma_word_bytes};
use crate::format::{le_byte, le_value};
use vstd::prelude::*;
use vstd::std_specs::bits::u32_leading_zeros;

verus! {

/// The mask byte that names no source: a byte shuffle and a table lookup put
/// zero where they find it.
pub const NO_SOURCE: u8 = 0xFF;

/// The 128-bit word that holds sixteen bytes, byte 0 in the low bits.
pub open spec fn pack_bytes(m: Seq<u8>) -> int {
    m[0] + m[1] * 0x100 + m[2] * 0x1_0000 + m[3] * 0x100_0000 + m[4] * 0x1_0000_0000 + m[5]
        * 0x100_0000_0000 + m[6] * 0x1_0000_0000_0000 + m[7] * 0x100_0000_0000_0000 + m[8]
        * 0x1_0000_0000_0000_0000 + m[9] * 0x100_0000_0000_0000_0000 + m[10]
        * 0x1_0000_0000_0000_0000_0000 + m[11] * 0x100_0000_0000_0000_0000_0000 + m[12]
        * 0x1_0000_0000_0000_0000_0000_0000 + m[13] * 0x100_0000_0000_0000_0000_0000_0000 + m[14]
        * 0x1_0000_0000_0000_0000_0000_0000_0000 + m[15]
        * 0x100_0000_0000_0000_0000_0000_0000_0000
}

/// What a byte shuffle puts in a lane byte whose mask byte is `m`: zero when
/// the high bit of `m` is set, else the data byte that the low four bits pick.
pub open spec fn shuffled_byte(data: Seq<u8>, m: u8) -> u8 {
    if m >= 0x80 {
        0
    } else {
        data[(m % 16) as int]
    }
}

/// Sixteen bytes after a byte shuffle by `mask`.
pub open spec fn shuffled(data: Seq<u8>, mask: Seq<u8>) -> Seq<u8> {
    Seq::new(16, |i: int| shuffled_byte(data, mask[i]))
}

/// What a table lookup puts in a lane byte whose index byte is `m`: the data
/// byte at that index, or zero when the index is past the table.
pub open spec fn looked_up_byte(data: Seq<u8>, m: u8) -> u8 {
    if m >= 16 {
        0
    } else {
        data[m as int]
    }
}

/// Sixteen bytes after a table lookup by `indices`.
pub open spec fn looked_up(data: Seq<u8>, indices: Seq<u8>) -> Seq<u8> {
    Seq::new(16, |i: int| looked_up_byte(data, indices[i]))
}

/// The sixteen bytes that hold four 32-bit words, every word little-endian.
pub open spec fn bytes_of(words: Seq<u32>) -> Seq<u8> {
    Seq::new(16, |i: int| le_byte(words[i / 4], i % 4))
}

proof fn lemma_word_is_packed(w: u128)
    ensures
        w == (w & 0xff) + ((w >> 8) & 0xff) * 0x100 + ((w >> 16) & 0xff) * 0x1_0000 + ((w >> 24)
            & 0xff) * 0x100_0000 + ((w >> 32) & 0xff) * 0x1_0000_0000 + ((w >> 40) & 0xff)
            * 0x100_0000_0000 + ((w >> 48) & 0xff) * 0x1_0000_0000_0000 + ((w >> 56) & 0xff)
            * 0x100_0000_0000_0000 + ((w >> 64) & 0xff) * 0x1_0000_0000_0000_0000 + ((w >> 72)
            & 0xff) * 0x100_0000_0000_0000_0000 + ((w >> 80) & 0xff)
            * 0x1_0000_0000_0000_0000_0000 + ((w >> 88) & 0xff)
            * 0x100_0000_0000_0000_0000_0000 + ((w >> 96) & 0xff)
            * 0x1_0000_0000_0000_0000_0000_0000 + ((w >> 104) & 0xff)
            * 0x100_0000_0000_0000_0000_0000_0000 + ((w >> 112) & 0xff)
            * 0x1_0000_0000_0000_0000_0000_0000_0000 + ((w >> 120) & 0xff)
            * 0x100_0000_0000_0000_0000_0000_0000_0000,
        w & 0xff < 0x100,
        (w >> 8) & 0xff < 0x100,
        (w >> 16) & 0xff < 0x100,
        (w >> 24) & 0xff < 0x100,
        (w >> 32) & 0xff < 0x100,
        (w >> 40) & 0xff < 0x100,
        (w >> 48) & 0xff < 0x100,
        (w >> 56) & 0xff < 0x100,
        (w >> 64) & 0xff < 0x100,
        (w >> 72) & 0xff < 0x100,
        (w >> 80) & 0xff < 0x100,
        (w >> 88) & 0xff < 0x100,
        (w >> 96) & 0xff < 0x100,
        (w >> 104) & 0xff < 0x100,
        (w >> 112) & 0xff < 0x100,
        (w >> 120) & 0xff < 0x100,
{
    assert(w == (w & 0xff) + ((w >> 8) & 0xff) * 0x100 + ((w >> 16) & 0xff) * 0x1_0000 + ((w
        >> 24) & 0xff) * 0x100_0000 + ((w >> 32) & 0xff) * 0x1_0000_0000 + ((w >> 40) & 0xff)
        * 0x100_0000_0000 + ((w >> 48) & 0xff) * 0x1_0000_0000_0000 + ((w >> 56) & 0xff)
        * 0x100_0000_0000_0000 + ((w >> 64) & 0xff) * 0x1_0000_0000_0000_0000 + ((w >> 72) & 0xff)
        * 0x100_0000_0000_0000_0000 + ((w >> 80) & 0xff) * 0x1_0000_0000_0000_0000_0000 + ((w
        >> 88) & 0xff) * 0x100_0000_0000_0000_0000_0000 + ((w >> 96) & 0xff)
        * 0x1_0000_0000_0000_0000_0000_0000 + ((w >> 104) & 0xff)
        * 0x100_0000_0000_0000_0000_0000_0000 + ((w >> 112) & 0xff)
        * 0x1_0000_0000_0000_0000_0000_0000_0000 + ((w >> 120) & 0xff)
        * 0x100_0000_0000_0000_0000_0000_0000_0000 && w & 0xff < 0x100 && (w >> 8) & 0xff < 0x100
        && (w >> 16) & 0xff < 0x100 && (w >> 24) & 0xff < 0x100 && (w >> 32) & 0xff < 0x100 && (w
        >> 40) & 0xff < 0x100 && (w >> 48) & 0xff < 0x100 && (w >> 56) & 0xff < 0x100 && (w >> 64)
        & 0xff < 0x100 && (w >> 72) & 0xff < 0x100 && (w >> 80) & 0xff < 0x100 && (w >> 88) & 0xff
        < 0x100 && (w >> 96) & 0xff < 0x100 && (w >> 104) & 0xff < 0x100 && (w >> 112) & 0xff
        < 0x100 && (w >> 120) & 0xff < 0x100) by (bit_vector);
}

/// The sixteen bytes of a 128-bit word, byte 0 from the low bits.
pub fn bytes_of_word(word: u128) -> (bytes: [u8; 16])
    ensures
        pack_bytes(bytes@) == word,
{
    proof {
        lemma_word_is_packed(word);
    }
    [
        (word & 0xff) as u8,
        ((word >> 8) & 0xff) as u8,
        ((word >> 16) & 0xff) as u8,
        ((word >> 24) & 0xff) as u8,
        ((word >> 32) & 0xff) as u8,
        ((word >> 40) & 0xff) as u8,
        ((word >> 48) & 0xff) as u8,
        ((word >> 56) & 0xff) as u8,
        ((word >> 64) & 0xff) as u8,
        ((word >> 72) & 0xff) as u8,
        ((word >> 80) & 0xff) as u8,
        ((word >> 88) & 0xff) as u8,
        ((word >> 96) & 0xff) as u8,
        ((word >> 104) & 0xff) as u8,
        ((word >> 112) & 0xff) as u8,
        ((word >> 120) & 0xff) as u8,
    ]
}

/// Sixteen bytes are determined by the word that holds them.
pub proof fn lemma_pack_bytes_unique(a: Seq<u8>, b: Seq<u8>)
    requires
        a.len() == 16,
        b.len() == 16,
        pack_bytes(a) == pack_bytes(b),
    ensures
        a == b,
{
    lemma_low_half_unique(a, b);
    assert(a =~= b);
}

proof fn lemma_low_half_unique(a: Seq<u8>, b: Seq<u8>)
    requires
        a.len() == 16,
        b.len() == 16,
        pack_bytes(a) == pack_bytes(b),
    ensures
        forall|i: int| 0 <= i < 16 ==> a[i] == b[i],
{
    let lo_a = a[0] + a[1] * 0x100 + a[2] * 0x1_0000 + a[3] * 0x100_0000 + a[4] * 0x1_0000_0000
        + a[5] * 0x100_0000_0000 + a[6] * 0x1_0000_0000_0000 + a[7] * 0x100_0000_0000_0000;
    let lo_b = b[0] + b[1] * 0x100 + b[2] * 0x1_0000 + b[3] * 0x100_0000 + b[4] * 0x1_0000_0000
        + b[5] * 0x100_0000_0000 + b[6] * 0x1_0000_0000_0000 + b[7] * 0x100_0000_0000_0000;
    let hi_a = a[8] + a[9] * 0x100 + a[10] * 0x1_0000 + a[11] * 0x100_0000 + a[12] * 0x1_0000_0000
        + a[13] * 0x100_0000_0000 + a[14] * 0x1_0000_0000_0000 + a[15] * 0x100_0000_0000_0000;
    let hi_b = b[8] + b[9] * 0x100 + b[10] * 0x1_0000 + b[11] * 0x100_0000 + b[12] * 0x1_0000_0000
        + b[13] * 0x100_0000_0000 + b[14] * 0x1_0000_0000_0000 + b[15] * 0x100_0000_0000_0000;
    assert(pack_bytes(a) == lo_a + hi_a * 0x1_0000_0000_0000_0000);
    assert(pack_bytes(b) == lo_b + hi_b * 0x1_0000_0000_0000_0000);
    lemma_halves_unique(lo_a as u64, hi_a as u64, lo_b as u64, hi_b as u64);
    lemma_eight_unique(
        a[0],
        a[1],
        a[2],
        a[3],
        a[4],
        a[5],
        a[6],
        a[7],
        b[0],
        b[1],
        b[2],
        b[3],
        b[4],
        b[5],
        b[6],
        b[7],
    );
    lemma_eight_unique(
        a[8],
        a[9],
        a[10],
        a[11],
        a[12],
        a[13],
        a[14],
        a[15],
        b[8],
        b[9],
        b[10],
        b[11],
        b[12],
        b[13],
        b[14],
        b[15],
    );
}

proof fn lemma_halves_unique(lo_a: u64, hi_a: u64, lo_b: u64, hi_b: u64)
    requires
        lo_a + hi_a * 0x1_0000_0000_0000_0000 == lo_b + hi_b * 0x1_0000_0000_0000_0000,
    ensures
        lo_a == lo_b,
        hi_a == hi_b,
{
    assert(lo_a + hi_a * 0x1_0000_0000_0000_0000 == lo_b + hi_b * 0x1_0000_0000_0000_0000
        ==> lo_a == lo_b && hi_a == hi_b) by (bit_vector);
}

proof fn lemma_eight_unique(
    a0: u8,
    a1: u8,
    a2: u8,
    a3: u8,
    a4: u8,
    a5: u8,
    a6: u8,
    a7: u8,
    b0: u8,
    b1: u8,
    b2: u8,
    b3: u8,
    b4: u8,
    b5: u8,
    b6: u8,
    b7: u8,
)
    requires
        a0 + a1 * 0x100 + a2 * 0x1_0000 + a3 * 0x100_0000 + a4 * 0x1_0000_0000 + a5
            * 0x100_0000_0000 + a6 * 0x1_0000_0000_0000 + a7 * 0x100_0000_0000_0000 == b0 + b1
            * 0x100 + b2 * 0x1_0000 + b3 * 0x100_0000 + b4 * 0x1_0000_0000 + b5 * 0x100_0000_0000
            + b6 * 0x1_0000_0000_0000 + b7 * 0x100_0000_0000_0000,
    ensures
        a0 == b0,
        a1 == b1,
        a2 == b2,
        a3 == b3,
        a4 == b4,
        a5 == b5,
        a6 == b6,
        a7 == b7,
{
    assert(a0 + a1 * 0x100 + a2 * 0x1_0000 + a3 * 0x100_0000 + a4 * 0x1_0000_0000 + a5
        * 0x100_0000_0000 + a6 * 0x1_0000_0000_0000 + a7 * 0x100_0000_0000_0000 == b0 + b1 * 0x100
        + b2 * 0x1_0000 + b3 * 0x100_0000 + b4 * 0x1_0000_0000 + b5 * 0x100_0000_0000 + b6
        * 0x1_0000_0000_0000 + b7 * 0x100_0000_0000_0000 ==> a0 == b0 && a1 == b1 && a2 == b2 && a3
        == b3 && a4 == b4 && a5 == b5 && a6 == b6 && a7 == b7) by (bit_vector);
}

/// Loads the sixteen bytes of `input` that start at `pos`.
pub fn load_bytes(input: &[u8], pos: usize) -> (lanes: [u8; 16])
    requires
        pos + 16 <= input.len(),
    ensures
        lanes@ == input@.subrange(pos as int, pos + 16),
{
    let mut lanes: [u8; 16] = [0u8; 16];
    let mut i: usize = 0;
    while i < 16
        invariant
            i <= 16,
            pos + 16 <= input.len(),
            forall|j: int| 0 <= j < i ==> lanes@[j] == input@[pos + j],
        decreases 16 - i,
    {
        lanes[i] = input[pos + i];
        i += 1;
    }
    assert(lanes@ =~= input@.subrange(pos as int, pos + 16));
    lanes
}

/// The four little-endian 32-bit words that sixteen bytes hold.
pub fn words_of_bytes(bytes: &[u8; 16]) -> (words: [u32; 4])
    ensures
        words@[0] == le_value(bytes@, 0, 4),
        words@[1] == le_value(bytes@, 4, 4),
        words@[2] == le_value(bytes@, 8, 4),
        words@[3] == le_value(bytes@, 12, 4),
{
    proof {
        lemma_bytes_word(bytes@[0], bytes@[1], bytes@[2], bytes@[3]);
        lemma_bytes_word(bytes@[4], bytes@[5], bytes@[6], bytes@[7]);
        lemma_bytes_word(bytes@[8], bytes@[9], bytes@[10], bytes@[11]);
        lemma_bytes_word(bytes@[12], bytes@[13], bytes@[14], bytes@[15]);
    }
    [
        (bytes[0] as u32) | (bytes[1] as u32) << 8 | (bytes[2] as u32) << 16 | (bytes[3] as u32)
            << 24,
        (bytes[4] as u32) | (bytes[5] as u32) << 8 | (bytes[6] as u32) << 16 | (bytes[7] as u32)
            << 24,
        (bytes[8] as u32) | (bytes[9] as u32) << 8 | (bytes[10] as u32) << 16 | (bytes[11] as u32)
            << 24,
        (bytes[12] as u32) | (bytes[13] as u32) << 8 | (bytes[14] as u32) << 16 | (
        bytes[15] as u32) << 24,
    ]
}

/// The sixteen bytes of four 32-bit words, every word little-endian.
pub fn bytes_of_words(words: &[u32; 4]) -> (bytes: [u8; 16])
    ensures
        bytes@ == bytes_of(words@),
{
    proof {
        lemma_word_bytes(words@[0]);
        lemma_word_bytes(words@[1]);
        lemma_word_bytes(words@[2]);
        lemma_word_bytes(words@[3]);
    }
    let bytes: [u8; 16] = [
        (words[0] & 0xff) as u8,
        ((words[0] >> 8) & 0xff) as u8,
        ((words[0] >> 16) & 0xff) as u8,
        ((words[0] >> 24) & 0xff) as u8,
        (words[1] & 0xff) as u8,
        ((words[1] >> 8) & 0xff) as u8,
        ((words[1] >> 16) & 0xff) as u8,
        ((words[1] >> 24) & 0xff) as u8,
        (words[2] & 0xff) as u8,
        ((words[2] >> 8) & 0xff) as u8,
        ((words[2] >> 16) & 0xff) as u8,
        ((words[2] >> 24) & 0xff) as u8,
        (words[3] & 0xff) as u8,
        ((words[3] >> 8) & 0xff) as u8,
        ((words[3] >> 16) & 0xff) as u8,
        ((words[3] >> 24) & 0xff) as u8,
    ];
    assert(bytes@ =~= bytes_of(words@));
    bytes
}

/// Loads the four values of `input` that start at index `at`.
pub fn load_words(input: &[u32], at: usize) -> (words: [u32; 4])
    requires
        at + 4 <= input.len(),
    ensures
        words@[0] == input@[at as int],
        words@[1] == input@[at + 1],
        words@[2] == input@[at + 2],
        words@[3] == input@[at + 3],
{
    [input[at], input[at + 1], input[at + 2], input[at + 3]]
}

/// The smaller of two bytes.
pub open spec fn min_byte(a: u8, b: u8) -> u8 {
    if a < b {
        a
    } else {
        b
    }
}

/// The 16-bit lane `i` of sixteen bytes, as an unsigned number.
pub open spec fn word16(a: Seq<u8>, i: int) -> int {
    a[2 * i] + 0x100 * a[2 * i + 1]
}

/// A 16-bit lane read as a signed number.
pub open spec fn signed16(w: int) -> int {
    if w >= 0x8000 {
        w - 0x1_0000
    } else {
        w
    }
}

/// A signed number forced into the range of a byte.
pub open spec fn saturated_byte(s: int) -> u8 {
    if s < 0 {
        0
    } else if s > 0xff {
        0xff
    } else {
        s as u8
    }
}

/// The 16-bit lane that is the smaller of two, both read as signed numbers.
pub open spec fn min_signed16(a: int, b: int) -> int {
    if signed16(a) < signed16(b) {
        a
    } else {
        b
    }
}

/// The sum of two 16-bit lanes, capped at the largest 16-bit number.
pub open spec fn saturated_sum16(a: int, b: int) -> int {
    if a + b > 0xffff {
        0xffff
    } else {
        a + b
    }
}

/// The high bit of a byte.
pub open spec fn high_bit(b: u8) -> int {
    if b >= 0x80 {
        1
    } else {
        0
    }
}

/// The high bits of sixteen bytes, the bit of byte 0 lowest.
pub open spec fn high_bits_of(a: Seq<u8>) -> int {
    high_bit(a[0]) + 2 * high_bit(a[1]) + 4 * high_bit(a[2]) + 8 * high_bit(a[3]) + 16 * high_bit(
        a[4],
    ) + 32 * high_bit(a[5]) + 64 * high_bit(a[6]) + 128 * high_bit(a[7]) + 256 * high_bit(a[8])
        + 512 * high_bit(a[9]) + 1024 * high_bit(a[10]) + 2048 * high_bit(a[11]) + 4096 * high_bit(
        a[12],
    ) + 8192 * high_bit(a[13]) + 16384 * high_bit(a[14]) + 32768 * high_bit(a[15])
}

/// Reads 16-bit lane `i` of `a`.
fn lane16(a: &[u8; 16], i: usize) -> (w: u32)
    requires
        i < 8,
    ensures
        w == word16(a@, i as int),
        w <= 0xffff,
{
    a[2 * i] as u32 + 0x100 * (a[2 * i + 1] as u32)
}

/// The high bit of a byte, as a number.
fn top(b: u8) -> (r: u32)
    ensures
        r == high_bit(b),
{
    if b >= 0x80 {
        1
    } else {
        0
    }
}

/// Appends sixteen bytes to `output`.
pub fn append_bytes(output: &mut Vec<u8>, lanes: &[u8; 16])
    ensures
        final(output)@ == old(output)@ + lanes@,
{
    let mut i: usize = 0;
    while i < 16
        invariant
            i <= 16,
            output@ == old(output)@ + lanes@.take(i as int),
        decreases 16 - i,
    {
        let ghost before = output@;
        output.push(lanes[i]);
        assert(output@ =~= old(output)@ + lanes@.take(i + 1));
        i += 1;
    }
    assert(lanes@.take(16) =~= lanes@);
}

/// The lane operations of the codec in its byte-shuffle form.
///
/// What is proved of the codec on some lanes holds where every operation of
/// the lanes does what its contract says.
pub trait ShuffleLanes {
    /// Byte shuffle (`PSHUFB`): every byte of the result is picked from
    /// `data` by the byte of `mask` at the same position.
    fn shuffle_bytes(data: &[u8; 16], mask: &[u8; 16]) -> (lanes: [u8; 16])
        ensures
            lanes@ == shuffled(data@, mask@),
    ;

    /// Byte-wise unsigned minimum (`PMINUB`).
    fn min_bytes(a: &[u8; 16], b: &[u8; 16]) -> (lanes: [u8; 16])
        ensures
            forall|i: int| 0 <= i < 16 ==> #[trigger] lanes@[i] == min_byte(a@[i], b@[i]),
    ;

    /// Packs the sixteen 16-bit lanes of `a` and `b`, read as signed
    /// numbers, into bytes, saturating (`PACKUSWB`): the lanes of `a` fill
    /// the low eight bytes, those of `b` the high eight.
    fn pack_words_saturating(a: &[u8; 16], b: &[u8; 16]) -> (lanes: [u8; 16])
        ensures
            forall|i: int|
                0 <= i < 8 ==> #[trigger] lanes@[i] == saturated_byte(signed16(word16(a@, i))),
            forall|i: int|
                0 <= i < 8 ==> #[trigger] lanes@[8 + i] == saturated_byte(
                    signed16(word16(b@, i)),
                ),
    ;

    /// Lane-wise minimum of the eight 16-bit lanes, read as signed numbers
    /// (`PMINSW`).
    fn min_words_signed(a: &[u8; 16], b: &[u8; 16]) -> (lanes: [u8; 16])
        ensures
            forall|i: int|
                0 <= i < 8 ==> #[trigger] word16(lanes@, i) == min_signed16(
                    word16(a@, i),
                    word16(b@, i),
                ),
    ;

    /// Lane-wise sum of the eight unsigned 16-bit lanes, saturating
    /// (`PADDUSW`).
    fn add_words_saturating(a: &[u8; 16], b: &[u8; 16]) -> (lanes: [u8; 16])
        ensures
            forall|i: int|
                0 <= i < 8 ==> #[trigger] word16(lanes@, i) == saturated_sum16(
                    word16(a@, i),
                    word16(b@, i),
                ),
    ;

    /// Collects the high bit of every byte into a 16-bit mask, the bit of
    /// byte 0 lowest (`PMOVMSKB`).
    fn high_bits(a: &[u8; 16]) -> (bits: u32)
        ensures
            bits == high_bits_of(a@),
            bits <= 0xffff,
    ;
}

/// The lane operations of the codec in its table-lookup form.
///
/// What is proved of the codec on some lanes holds where every operation of
/// the lanes does what its contract says.
pub trait LookupLanes {
    /// Table lookup (`TBL`): every byte of the result is the byte of `data`
    /// at the index that `indices` holds at the same position, or zero for an
    /// index past `data`.
    fn lookup_bytes(data: &[u8; 16], indices: &[u8; 16]) -> (lanes: [u8; 16])
        ensures
            lanes@ == looked_up(data@, indices@),
    ;

    /// Table lookup with eight indices (`TBL`).
    fn lookup_low_bytes(data: &[u8; 16], indices: &[u8; 8]) -> (lanes: [u8; 8])
        ensures
            forall|i: int|
                0 <= i < 8 ==> lanes@[i] == looked_up_byte(data@, #[trigger] indices@[i]),
    ;

    /// Lane-wise count of leading zero bits (`CLZ`).
    fn leading_zeros(words: &[u32; 4]) -> (counts: [u32; 4])
        ensures
            counts@[0] == u32_leading_zeros(words@[0]),
            counts@[1] == u32_leading_zeros(words@[1]),
            counts@[2] == u32_leading_zeros(words@[2]),
            counts@[3] == u32_leading_zeros(words@[3]),
    ;

    /// Lane-wise shift to the right by three bits (`USHR`).
    fn shift_right_3(words: &[u32; 4]) -> (shifted: [u32; 4])
        ensures
            shifted@[0] == words@[0] >> 3,
            shifted@[1] == words@[1] >> 3,
            shifted@[2] == words@[2] >> 3,
            shifted@[3] == words@[3] >> 3,
    ;

    /// Lane-wise difference, but not less than zero (`UQSUB`).
    fn saturating_sub(a: &[u32; 4], b: &[u32; 4]) -> (lanes: [u32; 4])
        ensures
            lanes@[0] == saturated_difference(a@[0], b@[0]),
            lanes@[1] == saturated_difference(a@[1], b@[1]),
            lanes@[2] == saturated_difference(a@[2], b@[2]),
            lanes@[3] == saturated_difference(a@[3], b@[3]),
    ;

    /// Lane-wise product of two lanes, cut to 32 bits (`MUL`).
    fn multiply_low(a: &[u32; 2], b: &[u32; 2]) -> (lanes: [u32; 2])
        ensures
            lanes@[0] == (a@[0] * b@[0]) % 0x1_0000_0000,
            lanes@[1] == (a@[1] * b@[1]) % 0x1_0000_0000,
    ;
}

/// The difference of two lanes, or zero where it would be negative.
pub open spec fn saturated_difference(a: u32, b: u32) -> u32 {
    if a >= b {
        (a - b) as u32
    } else {
        0
    }
}

/// The lane operations in plain code, for every processor.
pub struct Portable;

impl ShuffleLanes for Portable {
    fn shuffle_bytes(data: &[u8; 16], mask: &[u8; 16]) -> (lanes: [u8; 16]) {
        let mut lanes: [u8; 16] = [0u8; 16];
        let mut i: usize = 0;
        while i < 16
            invariant
                i <= 16,
                forall|j: int|
                    0 <= j < i ==> lanes@[j] == shuffled_byte(data@, #[trigger] mask@[j]),
            decreases 16 - i,
        {
            let m: u8 = mask[i];
            lanes[i] = if m >= 0x80 { 0 } else { data[(m % 16) as usize] };
            i += 1;
        }
        assert(lanes@ =~= shuffled(data@, mask@));
        lanes
    }

    fn min_bytes(a: &[u8; 16], b: &[u8; 16]) -> (lanes: [u8; 16]) {
        let mut lanes: [u8; 16] = [0u8; 16];
        let mut i: usize = 0;
        while i < 16
            invariant
                i <= 16,
                forall|j: int| 0 <= j < i ==> #[trigger] lanes@[j] == min_byte(a@[j], b@[j]),
            decreases 16 - i,
        {
            lanes[i] = if a[i] < b[i] { a[i] } else { b[i] };
            i += 1;
        }
        lanes
    }

    fn pack_words_saturating(a: &[u8; 16], b: &[u8; 16]) -> (lanes: [u8; 16]) {
        let mut lanes: [u8; 16] = [0u8; 16];
        let mut i: usize = 0;
        while i < 8
            invariant
                i <= 8,
                forall|j: int|
                    0 <= j < i ==> #[trigger] lanes@[j] == saturated_byte(signed16(word16(a@, j))),
                forall|j: int|
                    0 <= j < i ==> #[trigger] lanes@[8 + j] == saturated_byte(
                        signed16(word16(b@, j)),
                    ),
            decreases 8 - i,
        {
            let wa: u32 = lane16(a, i);
            let wb: u32 = lane16(b, i);
            lanes[i] = if wa >= 0x8000 { 0 } else if wa > 0xff { 0xff } else { wa as u8 };
            lanes[8 + i] = if wb >= 0x8000 { 0 } else if wb > 0xff { 0xff } else { wb as u8 };
            i += 1;
        }
        lanes
    }

    fn min_words_signed(a: &[u8; 16], b: &[u8; 16]) -> (lanes: [u8; 16]) {
        let mut lanes: [u8; 16] = [0u8; 16];
        let mut i: usize = 0;
        while i < 8
            invariant
                i <= 8,
                forall|j: int|
                    0 <= j < i ==> #[trigger] word16(lanes@, j) == min_signed16(
                        word16(a@, j),
                        word16(b@, j),
                    ),
            decreases 8 - i,
        {
            let wa: u32 = lane16(a, i);
            let wb: u32 = lane16(b, i);
            // As signed numbers, lanes with the high bit set come first.
            let a_first: bool = if (wa >= 0x8000) == (wb >= 0x8000) {
                wa < wb
            } else {
                wa >= 0x8000
            };
            let w: u32 = if a_first { wa } else { wb };
            let ghost before = lanes@;
            lanes[2 * i] = (w % 0x100) as u8;
            lanes[2 * i + 1] = (w / 0x100) as u8;
            assert(word16(lanes@, i as int) == w);
            assert forall|j: int| 0 <= j < i implies #[trigger] word16(lanes@, j) == word16(
                before,
                j,
            ) by {
                assert(lanes@[2 * j] == before[2 * j]);
                assert(lanes@[2 * j + 1] == before[2 * j + 1]);
            }
            i += 1;
        }
        lanes
    }

    fn add_words_saturating(a: &[u8; 16], b: &[u8; 16]) -> (lanes: [u8; 16]) {
        let mut lanes: [u8; 16] = [0u8; 16];
        let mut i: usize = 0;
        while i < 8
            invariant
                i <= 8,
                forall|j: int|
                    0 <= j < i ==> #[trigger] word16(lanes@, j) == saturated_sum16(
                        word16(a@, j),
                        word16(b@, j),
                    ),
            decreases 8 - i,
        {
            let sum: u32 = lane16(a, i) + lane16(b, i);
            let w: u32 = if sum > 0xffff { 0xffff } else { sum };
            let ghost before = lanes@;
            lanes[2 * i] = (w % 0x100) as u8;
            lanes[2 * i + 1] = (w / 0x100) as u8;
            assert(word16(lanes@, i as int) == w);
            assert forall|j: int| 0 <= j < i implies #[trigger] word16(lanes@, j) == word16(
                before,
                j,
            ) by {
                assert(lanes@[2 * j] == before[2 * j]);
                assert(lanes@[2 * j + 1] == before[2 * j + 1]);
            }
            i += 1;
        }
        lanes
    }

    fn high_bits(a: &[u8; 16]) -> (bits: u32) {
        top(a[0]) + 2 * top(a[1]) + 4 * top(a[2]) + 8 * top(a[3]) + 16 * top(a[4]) + 32 * top(
            a[5],
        ) + 64 * top(a[6]) + 128 * top(a[7]) + 256 * top(a[8]) + 512 * top(a[9]) + 1024 * top(
            a[10],
        ) + 2048 * top(a[11]) + 4096 * top(a[12]) + 8192 * top(a[13]) + 16384 * top(a[14])
            + 32768 * top(a[15])
    }
}

impl LookupLanes for Portable {
    fn lookup_bytes(data: &[u8; 16], indices: &[u8; 16]) -> (lanes: [u8; 16]) {
        let mut lanes: [u8; 16] = [0u8; 16];
        let mut i: usize = 0;
        while i < 16
            invariant
                i <= 16,
                forall|j: int|
                    0 <= j < i ==> lanes@[j] == looked_up_byte(data@, #[trigger] indices@[j]),
            decreases 16 - i,
        {
            let m: u8 = indices[i];
            lanes[i] = if m >= 16 { 0 } else { data[m as usize] };
            i += 1;
        }
        assert(lanes@ =~= looked_up(data@, indices@));
        lanes
    }

    fn lookup_low_bytes(data: &[u8; 16], indices: &[u8; 8]) -> (lanes: [u8; 8]) {
        let mut lanes: [u8; 8] = [0u8; 8];
        let mut i: usize = 0;
        while i < 8
            invariant
                i <= 8,
                forall|j: int|
                    0 <= j < i ==> lanes@[j] == looked_up_byte(data@, #[trigger] indices@[j]),
            decreases 8 - i,
        {
            let m: u8 = indices[i];
            lanes[i] = if m >= 16 { 0 } else { data[m as usize] };
            i += 1;
        }
        lanes
    }

    fn leading_zeros(words: &[u32; 4]) -> (counts: [u32; 4]) {
        [
            words[0].leading_zeros(),
            words[1].leading_zeros(),
            words[2].leading_zeros(),
            words[3].leading_zeros(),
        ]
    }

    fn shift_right_3(words: &[u32; 4]) -> (shifted: [u32; 4]) {
        [words[0] >> 3, words[1] >> 3, words[2] >> 3, words[3] >> 3]
    }

    fn saturating_sub(a: &[u32; 4], b: &[u32; 4]) -> (lanes: [u32; 4]) {
        [
            a[0].saturating_sub(b[0]),
            a[1].saturating_sub(b[1]),
            a[2].saturating_sub(b[2]),
            a[3].saturating_sub(b[3]),
        ]
    }

    fn multiply_low(a: &[u32; 2], b: &[u32; 2]) -> (lanes: [u32; 2]) {
        [a[0].wrapping_mul(b[0]), a[1].wrapping_mul(b[1])]
    }
}

} // verus!
