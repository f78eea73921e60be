//! Encode masks: the byte-gather masks that compact four 32-bit values into
//! the concatenation of their data bytes.
//!
//! A mask is sixteen bytes. For four values with codes `k0` to `k3`, the
//! first `k0 + 1` bytes of the mask name the low bytes of value 0, the next
//! `k1 + 1` those of value 1, and so on; the bytes behind the last value name
//! no source. Value `s` sits in bytes `4 * s` to `4 * s + 3` of the lanes that
//! the mask is applied to.
use crate::format::{code, le_byte, value_bytes};
use crate::lanes::{
    bytes_of, looked_up, looked_up_byte, pack_bytes, shuffled, shuffled_byte, NO_SOURCE,
};
use vstd::prelude::*;

verus! {

/// Byte `j` of the encode mask for the codes `k0` to `k3`.
pub open spec fn encode_mask_byte(k0: int, k1: int, k2: int, k3: int, j: int) -> u8 {
    if j < k0 + 1 {
        j as u8
    } else if j < k0 + k1 + 2 {
        (4 + j - (k0 + 1)) as u8
    } else if j < k0 + k1 + k2 + 3 {
        (8 + j - (k0 + k1 + 2)) as u8
    } else if j < k0 + k1 + k2 + k3 + 4 {
        (12 + j - (k0 + k1 + k2 + 3)) as u8
    } else {
        NO_SOURCE
    }
}

/// The encode mask for the codes `k0` to `k3`.
pub open spec fn encode_mask(k0: int, k1: int, k2: int, k3: int) -> Seq<u8> {
    Seq::new(16, |j: int| encode_mask_byte(k0, k1, k2, k3, j))
}

/// The weight of byte `e` in a word: 256 to the power `e`.
pub open spec fn pow256(e: int) -> int {
    if e <= 0 {
        1
    } else if e == 1 {
        0x100
    } else if e == 2 {
        0x1_0000
    } else if e == 3 {
        0x100_0000
    } else if e == 4 {
        0x1_0000_0000
    } else if e == 5 {
        0x100_0000_0000
    } else if e == 6 {
        0x1_0000_0000_0000
    } else if e == 7 {
        0x100_0000_0000_0000
    } else if e == 8 {
        0x1_0000_0000_0000_0000
    } else if e == 9 {
        0x100_0000_0000_0000_0000
    } else if e == 10 {
        0x1_0000_0000_0000_0000_0000
    } else if e == 11 {
        0x100_0000_0000_0000_0000_0000
    } else if e == 12 {
        0x1_0000_0000_0000_0000_0000_0000
    } else if e == 13 {
        0x100_0000_0000_0000_0000_0000_0000
    } else if e == 14 {
        0x1_0000_0000_0000_0000_0000_0000_0000
    } else if e == 15 {
        0x100_0000_0000_0000_0000_0000_0000_0000
    } else {
        0x1_0000_0000_0000_0000_0000_0000_0000_0000int
    }
}

/// The mask bytes of one value, as a word: the value has code `k` and its
/// first byte sits at position `src` of the lanes.
pub open spec fn value_mask(k: int, src: int) -> int {
    if k == 0 {
        src
    } else if k == 1 {
        src * 0x101 + 0x100
    } else if k == 2 {
        src * 0x1_0101 + 0x2_0100
    } else {
        src * 0x101_0101 + 0x302_0100
    }
}

/// The word `x` moved up by `e` bytes.
pub open spec fn moved_up(x: int, e: int) -> int {
    if e <= 0 {
        x
    } else if e == 1 {
        x * 0x100
    } else if e == 2 {
        x * 0x1_0000
    } else if e == 3 {
        x * 0x100_0000
    } else if e == 4 {
        x * 0x1_0000_0000
    } else if e == 5 {
        x * 0x100_0000_0000
    } else if e == 6 {
        x * 0x1_0000_0000_0000
    } else if e == 7 {
        x * 0x100_0000_0000_0000
    } else if e == 8 {
        x * 0x1_0000_0000_0000_0000
    } else if e == 9 {
        x * 0x100_0000_0000_0000_0000
    } else if e == 10 {
        x * 0x1_0000_0000_0000_0000_0000
    } else if e == 11 {
        x * 0x100_0000_0000_0000_0000_0000
    } else {
        x * 0x1_0000_0000_0000_0000_0000_0000
    }
}

/// The encode mask for the codes `k0` to `k3`, as a 128-bit word.
pub open spec fn encode_mask_word(k0: int, k1: int, k2: int, k3: int) -> int {
    value_mask(k0, 0) + moved_up(value_mask(k1, 4), k0 + 1) + moved_up(
        value_mask(k2, 8),
        k0 + k1 + 2,
    ) + moved_up(value_mask(k3, 12), k0 + k1 + k2 + 3) + pow256(16) - pow256(
        k0 + k1 + k2 + k3 + 4,
    )
}

proof fn lemma_moved_up(x: int, e: int)
    requires
        0 <= e <= 12,
    ensures
        moved_up(x, e) == x * pow256(e),
{
}

/// The word that holds the first `n` bytes of `m`.
pub open spec fn packed_below(m: Seq<u8>, n: int) -> int
    decreases n,
{
    if n <= 0 {
        0
    } else {
        packed_below(m, n - 1) + m[n - 1] * pow256(n - 1)
    }
}

proof fn lemma_pow256_step(e: int)
    requires
        0 <= e < 16,
    ensures
        pow256(e + 1) == 0x100 * pow256(e),
        pow256(e) > 0,
{
}

proof fn lemma_packed_value(m: Seq<u8>, o: int, k: int, src: int)
    requires
        0 <= o,
        0 <= k <= 3,
        o + k + 1 <= 16,
        0 <= src <= 12,
        forall|b: int| 0 <= b <= k ==> #[trigger] m[o + b] == src + b,
    ensures
        packed_below(m, o + k + 1) == packed_below(m, o) + value_mask(k, src) * pow256(o),
{
    let p = pow256(o);
    let q = src * p;
    assert(m[o + 0] == src + 0);
    assert(packed_below(m, o + 1) == packed_below(m, o) + m[o] * p);
    assert((src + 0) * p == q) by (nonlinear_arith)
        requires
            q == src * p,
    ;
    if k >= 1 {
        lemma_pow256_step(o);
        assert(m[o + 1] == src + 1);
        assert(packed_below(m, o + 2) == packed_below(m, o + 1) + m[o + 1] * pow256(o + 1));
        assert((src + 1) * (0x100 * p) == 0x100 * q + 0x100 * p) by (nonlinear_arith)
            requires
                q == src * p,
        ;
        assert((src * 0x101 + 0x100) * p == 0x101 * q + 0x100 * p) by (nonlinear_arith)
            requires
                q == src * p,
        ;
    }
    if k >= 2 {
        lemma_pow256_step(o + 1);
        assert(m[o + 2] == src + 2);
        assert(packed_below(m, o + 3) == packed_below(m, o + 2) + m[o + 2] * pow256(o + 2));
        assert((src + 2) * (0x1_0000 * p) == 0x1_0000 * q + 0x2_0000 * p) by (nonlinear_arith)
            requires
                q == src * p,
        ;
        assert((src * 0x1_0101 + 0x2_0100) * p == 0x1_0101 * q + 0x2_0100 * p)
            by (nonlinear_arith)
            requires
                q == src * p,
        ;
    }
    if k >= 3 {
        lemma_pow256_step(o + 2);
        assert(m[o + 3] == src + 3);
        assert(packed_below(m, o + 4) == packed_below(m, o + 3) + m[o + 3] * pow256(o + 3));
        assert((src + 3) * (0x100_0000 * p) == 0x100_0000 * q + 0x300_0000 * p)
            by (nonlinear_arith)
            requires
                q == src * p,
        ;
        assert((src * 0x101_0101 + 0x302_0100) * p == 0x101_0101 * q + 0x302_0100 * p)
            by (nonlinear_arith)
            requires
                q == src * p,
        ;
    }
}

proof fn lemma_packed_padding(m: Seq<u8>, a: int, n: int)
    requires
        0 <= a <= n <= 16,
        forall|j: int| a <= j < n ==> #[trigger] m[j] == NO_SOURCE,
    ensures
        packed_below(m, n) == packed_below(m, a) + pow256(n) - pow256(a),
    decreases n - a,
{
    if a < n {
        lemma_packed_padding(m, a, n - 1);
        lemma_pow256_step(n - 1);
        assert(m[n - 1] == NO_SOURCE);
    }
}

proof fn lemma_packed_all(m: Seq<u8>)
    requires
        m.len() == 16,
    ensures
        packed_below(m, 16) == pack_bytes(m),
{
    reveal_with_fuel(packed_below, 17);
}

/// The word form of an encode mask holds the bytes of the mask.
pub proof fn lemma_encode_mask_word(k0: int, k1: int, k2: int, k3: int)
    requires
        0 <= k0 <= 3,
        0 <= k1 <= 3,
        0 <= k2 <= 3,
        0 <= k3 <= 3,
    ensures
        pack_bytes(encode_mask(k0, k1, k2, k3)) == encode_mask_word(k0, k1, k2, k3),
{
    let m = encode_mask(k0, k1, k2, k3);
    let o1 = k0 + 1;
    let o2 = o1 + k1 + 1;
    let o3 = o2 + k2 + 1;
    let o4 = o3 + k3 + 1;
    assert forall|b: int| 0 <= b <= k0 implies #[trigger] m[0 + b] == 0 + b by {}
    lemma_packed_value(m, 0, k0, 0);
    assert forall|b: int| 0 <= b <= k1 implies #[trigger] m[o1 + b] == 4 + b by {}
    lemma_packed_value(m, o1, k1, 4);
    assert forall|b: int| 0 <= b <= k2 implies #[trigger] m[o2 + b] == 8 + b by {}
    lemma_packed_value(m, o2, k2, 8);
    assert forall|b: int| 0 <= b <= k3 implies #[trigger] m[o3 + b] == 12 + b by {}
    lemma_packed_value(m, o3, k3, 12);
    lemma_moved_up(value_mask(k1, 4), o1);
    lemma_moved_up(value_mask(k2, 8), o2);
    lemma_moved_up(value_mask(k3, 12), o3);
    assert forall|j: int| o4 <= j < 16 implies #[trigger] m[j] == NO_SOURCE by {}
    lemma_packed_padding(m, o4, 16);
    lemma_packed_all(m);
}

/// Where the data bytes of value `s` start among the data bytes of four
/// values with the codes `k0` to `k3`.
pub open spec fn value_start(k0: int, k1: int, k2: int, s: int) -> int {
    if s <= 0 {
        0
    } else if s == 1 {
        k0 + 1
    } else if s == 2 {
        k0 + k1 + 2
    } else {
        k0 + k1 + k2 + 3
    }
}

/// The code of value `s` among the codes `k0` to `k3`.
pub open spec fn value_code(k0: int, k1: int, k2: int, k3: int, s: int) -> int {
    if s <= 0 {
        k0
    } else if s == 1 {
        k1
    } else if s == 2 {
        k2
    } else {
        k3
    }
}

/// The encode mask names, where the data bytes of value `s` belong, the
/// bytes of value `s` in the lanes.
pub proof fn lemma_encode_mask_at(k0: int, k1: int, k2: int, k3: int, s: int, b: int)
    requires
        0 <= k0 <= 3,
        0 <= k1 <= 3,
        0 <= k2 <= 3,
        0 <= k3 <= 3,
        0 <= s < 4,
        0 <= b <= value_code(k0, k1, k2, k3, s),
    ensures
        0 <= value_start(k0, k1, k2, s) + b < 16,
        encode_mask_byte(k0, k1, k2, k3, value_start(k0, k1, k2, s) + b) == 4 * s + b,
{
    if s == 0 {
    } else if s == 1 {
    } else if s == 2 {
    } else {
    }
}

/// Byte `b` of value `s` sits in byte `4 * s + b` of the lanes.
pub proof fn lemma_bytes_of_at(words: Seq<u32>, s: int, b: int)
    requires
        0 <= s < 4,
        0 <= b < 4,
    ensures
        bytes_of(words)[4 * s + b] == le_byte(words[s], b),
{
    assert((4 * s + b) / 4 == s && (4 * s + b) % 4 == b) by (nonlinear_arith)
        requires
            0 <= s < 4,
            0 <= b < 4,
    ;
}

/// A byte shuffle puts the data bytes of a value at `first` where the mask
/// names, from `first` on, the bytes of the value in the lanes, which start
/// at `src`.
proof fn lemma_shuffled_value(
    lanes: Seq<u8>,
    mask: Seq<u8>,
    compact: Seq<u8>,
    v: u32,
    first: int,
    src: int,
)
    requires
        lanes.len() == 16,
        mask.len() == 16,
        compact == shuffled(lanes, mask),
        0 <= first,
        first + code(v) + 1 <= 16,
        0 <= src <= 12,
        forall|b: int| 0 <= b <= code(v) ==> #[trigger] mask[first + b] == src + b,
        forall|b: int| 0 <= b < 4 ==> #[trigger] lanes[src + b] == le_byte(v, b),
    ensures
        compact.subrange(first, first + code(v) + 1) == value_bytes(v),
{
    let part = compact.subrange(first, first + code(v) + 1);
    assert forall|b: int| 0 <= b <= code(v) implies part[b] == value_bytes(v)[b] by {
        assert(mask[first + b] == src + b);
        assert(lanes[src + b] == le_byte(v, b));
        assert(compact[first + b] == shuffled_byte(lanes, mask[first + b]));
    }
    assert(part =~= value_bytes(v));
}

/// Shuffling the bytes of four values by their encode mask puts the data
/// bytes of value `s` where they belong.
proof fn lemma_compacted_value(
    lanes: Seq<u8>,
    words: Seq<u32>,
    mask: Seq<u8>,
    compact: Seq<u8>,
    k3: int,
    s: int,
)
    requires
        words.len() == 4,
        code(words[3]) <= k3 <= 3,
        0 <= s < 4,
        mask == encode_mask(
            code(words[0]) as int,
            code(words[1]) as int,
            code(words[2]) as int,
            k3,
        ),
        lanes == bytes_of(words),
        compact == shuffled(lanes, mask),
    ensures
        ({
            let first = value_start(
                code(words[0]) as int,
                code(words[1]) as int,
                code(words[2]) as int,
                s,
            );
            &&& 0 <= first
            &&& first + code(words[s]) + 1 <= 16
            &&& compact.subrange(first, first + code(words[s]) + 1) == value_bytes(words[s])
        }),
{
    let k0 = code(words[0]) as int;
    let k1 = code(words[1]) as int;
    let k2 = code(words[2]) as int;
    let first = value_start(k0, k1, k2, s);
    let v = words[s];
    lemma_encode_mask_at(k0, k1, k2, k3, s, code(v) as int);
    assert forall|b: int| 0 <= b <= code(v) implies #[trigger] mask[first + b] == 4 * s + b by {
        lemma_encode_mask_at(k0, k1, k2, k3, s, b);
    }
    assert forall|b: int| 0 <= b < 4 implies #[trigger] lanes[4 * s + b] == le_byte(v, b) by {
        lemma_bytes_of_at(words, s, b);
    }
    lemma_shuffled_value(lanes, mask, compact, v, first, 4 * s);
}

/// Appending a sequence to `base` and keeping four stretches of it that
/// follow one another from its start appends the four stretches.
proof fn lemma_four_stretches(base: Seq<u8>, seq: Seq<u8>, o1: int, o2: int, o3: int, o4: int)
    requires
        0 <= o1 <= o2 <= o3 <= o4 <= seq.len(),
    ensures
        (base + seq).subrange(0, base.len() + o4) == base + seq.subrange(0, o1) + seq.subrange(
            o1,
            o2,
        ) + seq.subrange(o2, o3) + seq.subrange(o3, o4),
{
    assert((base + seq).subrange(0, base.len() + o4) =~= base + seq.subrange(0, o1)
        + seq.subrange(o1, o2) + seq.subrange(o2, o3) + seq.subrange(o3, o4));
}

/// Shuffling the bytes of four values by their encode mask, appending the
/// sixteen bytes to `base` and keeping as many of them as the values have
/// data bytes appends the data bytes of the values, one value after the
/// other. The mask may have been made for a larger code of the last value.
pub proof fn lemma_compacted(
    base: Seq<u8>,
    lanes: Seq<u8>,
    words: Seq<u32>,
    mask: Seq<u8>,
    compact: Seq<u8>,
    k3: int,
)
    requires
        words.len() == 4,
        code(words[3]) <= k3 <= 3,
        mask == encode_mask(
            code(words[0]) as int,
            code(words[1]) as int,
            code(words[2]) as int,
            k3,
        ),
        lanes == bytes_of(words),
        compact == shuffled(lanes, mask),
    ensures
        (base + compact).subrange(
            0,
            (base.len() + code(words[0]) + code(words[1]) + code(words[2]) + code(words[3])
                + 4) as int,
        ) == base + value_bytes(words[0]) + value_bytes(words[1]) + value_bytes(words[2])
            + value_bytes(words[3]),
{
    let k0 = code(words[0]) as int;
    let k1 = code(words[1]) as int;
    let k2 = code(words[2]) as int;
    let len = k0 + k1 + k2 + code(words[3]) + 4;
    lemma_compacted_value(lanes, words, mask, compact, k3, 0);
    lemma_compacted_value(lanes, words, mask, compact, k3, 1);
    lemma_compacted_value(lanes, words, mask, compact, k3, 2);
    lemma_compacted_value(lanes, words, mask, compact, k3, 3);
    lemma_four_stretches(base, compact, k0 + 1, k0 + k1 + 2, k0 + k1 + k2 + 3, len);
}

/// On an encode mask a table lookup gathers what a byte shuffle gathers:
/// every byte of the mask is a position within the lanes or names no
/// source.
pub proof fn lemma_lookup_is_shuffle(
    lanes: Seq<u8>,
    mask: Seq<u8>,
    k0: int,
    k1: int,
    k2: int,
    k3: int,
)
    requires
        0 <= k0 <= 3,
        0 <= k1 <= 3,
        0 <= k2 <= 3,
        0 <= k3 <= 3,
        mask == encode_mask(k0, k1, k2, k3),
    ensures
        looked_up(lanes, mask) == shuffled(lanes, mask),
{
    assert forall|i: int| 0 <= i < 16 implies looked_up_byte(lanes, mask[i]) == shuffled_byte(
        lanes,
        mask[i],
    ) by {
        assert(mask[i] == encode_mask_byte(k0, k1, k2, k3, i));
        assert(mask[i] < 16 || mask[i] == NO_SOURCE);
    }
    assert(looked_up(lanes, mask) =~= shuffled(lanes, mask));
}

} // verus!
