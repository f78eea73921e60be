//! The Stream VByte wire format as a mathematical model.
//!
//! An encoded buffer is a control region followed by a data region. The
//! control region packs one 2-bit code per value, four codes to a byte, least
//! significant code first. The data region is the concatenation, in input
//! order, of the low `code + 1` little-endian bytes of every value.
//!
//! Every codec in this crate is specified against the functions of this
//! module, so that all of them agree byte for byte.
use vstd::prelude::*;

verus! {

/// The 2-bit code of a value: one less than the number of bytes it occupies.
pub open spec fn code(v: u32) -> nat {
    if v < 0x100 {
        0
    } else if v < 0x1_0000 {
        1
    } else if v < 0x100_0000 {
        2
    } else {
        3
    }
}

/// Byte `i` of the little-endian representation of `v`.
pub open spec fn le_byte(v: u32, i: int) -> u8 {
    if i == 0 {
        (v % 0x100) as u8
    } else if i == 1 {
        (v / 0x100 % 0x100) as u8
    } else if i == 2 {
        (v / 0x1_0000 % 0x100) as u8
    } else {
        (v / 0x100_0000 % 0x100) as u8
    }
}

/// The bytes one value contributes to the data region.
pub open spec fn value_bytes(v: u32) -> Seq<u8> {
    Seq::new(code(v) + 1, |i: int| le_byte(v, i))
}

/// The value held by `count` little-endian bytes of `bytes` starting at `pos`.
pub open spec fn le_value(bytes: Seq<u8>, pos: int, count: nat) -> u32 {
    (bytes[pos] as int + (if count > 1 {
        bytes[pos + 1] as int * 0x100
    } else {
        0
    }) + (if count > 2 {
        bytes[pos + 2] as int * 0x1_0000
    } else {
        0
    }) + (if count > 3 {
        bytes[pos + 3] as int * 0x100_0000
    } else {
        0
    })) as u32
}

/// Number of control bytes for `n` values.
pub open spec fn control_len(n: nat) -> nat {
    (n + 3) / 4
}

/// Number of data bytes occupied by `values`.
pub open spec fn data_len(values: Seq<u32>) -> nat
    decreases values.len(),
{
    if values.len() == 0 {
        0
    } else {
        data_len(values.drop_last()) + code(values.last()) + 1
    }
}

/// The data region for `values`.
pub open spec fn data_region(values: Seq<u32>) -> Seq<u8>
    decreases values.len(),
{
    if values.len() == 0 {
        Seq::empty()
    } else {
        data_region(values.drop_last()) + value_bytes(values.last())
    }
}

/// The code of value `i`, or zero when `values` has no such value.
pub open spec fn slot_code(values: Seq<u32>, i: int) -> nat {
    if 0 <= i < values.len() {
        code(values[i])
    } else {
        0
    }
}

/// Four codes packed into a control byte, least significant code first.
pub open spec fn pack_codes(c0: nat, c1: nat, c2: nat, c3: nat) -> u8 {
    (c0 + 4 * c1 + 16 * c2 + 64 * c3) as u8
}

/// Control byte `j` for `values`: the codes of values `4j .. 4j + 3`, with
/// zero in the slots past the last value.
pub open spec fn control_byte(values: Seq<u32>, j: int) -> u8 {
    pack_codes(
        slot_code(values, 4 * j),
        slot_code(values, 4 * j + 1),
        slot_code(values, 4 * j + 2),
        slot_code(values, 4 * j + 3),
    )
}

/// The control region for `values`.
pub open spec fn control_region(values: Seq<u32>) -> Seq<u8> {
    Seq::new(control_len(values.len()), |j: int| control_byte(values, j))
}

/// The encoded buffer for `values`.
pub open spec fn encoded(values: Seq<u32>) -> Seq<u8> {
    control_region(values) + data_region(values)
}

/// The code held in slot `slot` (0 to 3) of control byte `c`.
pub open spec fn ctrl_code(c: u8, slot: int) -> nat {
    if slot == 0 {
        (c % 4) as nat
    } else if slot == 1 {
        (c / 4 % 4) as nat
    } else if slot == 2 {
        (c / 16 % 4) as nat
    } else {
        (c / 64 % 4) as nat
    }
}

/// The code that the control region of `bytes` records for value `i`.
pub open spec fn code_at(bytes: Seq<u8>, i: int) -> nat {
    ctrl_code(bytes[i / 4], i % 4)
}

/// Number of data bytes that the control region of `bytes` assigns to the
/// `count` values starting with value `first`.
pub open spec fn run(bytes: Seq<u8>, first: nat, count: nat) -> nat
    decreases count,
{
    if count == 0 {
        0
    } else {
        run(bytes, first, (count - 1) as nat) + code_at(bytes, first + count - 1) + 1
    }
}

/// The `count` values starting with value `first`, read from `bytes` with the
/// bytes of value `first` beginning at `data`.
pub open spec fn values_at(bytes: Seq<u8>, first: nat, data: int, count: nat) -> Seq<u32> {
    Seq::new(
        count,
        |j: int| le_value(bytes, data + run(bytes, first, j as nat), code_at(bytes, first + j) + 1),
    )
}

/// Whether `bytes` can be decoded as `n` values without reading past its end.
pub open spec fn decodable(n: nat, bytes: Seq<u8>) -> bool {
    n == 0 || (control_len(n) < bytes.len() && control_len(n) + run(bytes, 0, n) <= bytes.len())
}

/// The `n` values that `bytes` decodes to.
pub open spec fn decoded(n: nat, bytes: Seq<u8>) -> Seq<u32> {
    values_at(bytes, 0, control_len(n) as int, n)
}

/// Reading back the bytes written for a value yields the value.
pub proof fn lemma_value_round_trip(v: u32)
    ensures
        le_value(value_bytes(v), 0, code(v) + 1) == v,
{
}

/// The data region has `data_len` bytes, between one and four per value.
pub proof fn lemma_data_region_len(values: Seq<u32>)
    ensures
        data_region(values).len() == data_len(values),
        values.len() <= data_len(values) <= 4 * values.len(),
    decreases values.len(),
{
    if values.len() > 0 {
        lemma_data_region_len(values.drop_last());
    }
}

/// Extending the input by one value appends that value's bytes.
pub proof fn lemma_data_region_step(values: Seq<u32>, i: int)
    requires
        0 <= i < values.len(),
    ensures
        data_region(values.take(i + 1)) == data_region(values.take(i)) + value_bytes(values[i]),
        data_len(values.take(i + 1)) == data_len(values.take(i)) + code(values[i]) + 1,
{
    assert(values.take(i + 1).drop_last() == values.take(i));
}

/// The bytes of value `i` sit in the data region right after those of the
/// values before it.
pub proof fn lemma_data_region_at(values: Seq<u32>, i: int, b: int)
    requires
        0 <= i < values.len(),
        0 <= b <= code(values[i]),
    ensures
        data_len(values.take(i)) + b < data_len(values),
        data_region(values)[data_len(values.take(i)) + b] == le_byte(values[i], b),
    decreases values.len(),
{
    let front = values.drop_last();
    lemma_data_region_len(front);
    lemma_data_region_len(values);
    if i == values.len() - 1 {
        assert(values.take(i) == front);
    } else {
        assert(values.take(i) == front.take(i));
        lemma_data_region_at(front, i, b);
    }
}

/// The span of `a + b` values is the span of the first `a` plus the span of
/// the `b` that follow.
pub proof fn lemma_run_split(bytes: Seq<u8>, first: nat, a: nat, b: nat)
    ensures
        run(bytes, first, a + b) == run(bytes, first, a) + run(bytes, first + a, b),
    decreases b,
{
    if b > 0 {
        lemma_run_split(bytes, first, a, (b - 1) as nat);
    }
}

/// Every value occupies at least one byte and at most four.
pub proof fn lemma_run_bounds(bytes: Seq<u8>, first: nat, count: nat)
    ensures
        count <= run(bytes, first, count) <= 4 * count,
    decreases count,
{
    if count > 0 {
        lemma_run_bounds(bytes, first, (count - 1) as nat);
    }
}

/// Spans grow with the number of values.
pub proof fn lemma_run_monotonic(bytes: Seq<u8>, first: nat, a: nat, b: nat)
    requires
        a <= b,
    ensures
        run(bytes, first, a) + (b - a) <= run(bytes, first, b),
{
    lemma_run_split(bytes, first, a, (b - a) as nat);
    lemma_run_bounds(bytes, first + a, (b - a) as nat);
}

/// Unpacking a control byte returns the codes that were packed into it.
pub proof fn lemma_pack_codes(c0: nat, c1: nat, c2: nat, c3: nat)
    requires
        c0 <= 3,
        c1 <= 3,
        c2 <= 3,
        c3 <= 3,
    ensures
        ctrl_code(pack_codes(c0, c1, c2, c3), 0) == c0,
        ctrl_code(pack_codes(c0, c1, c2, c3), 1) == c1,
        ctrl_code(pack_codes(c0, c1, c2, c3), 2) == c2,
        ctrl_code(pack_codes(c0, c1, c2, c3), 3) == c3,
{
}

/// The encoded buffer is as long as its control region and its data region
/// together, and never longer than the worst case of four bytes per value.
pub proof fn lemma_encoded_len(values: Seq<u32>)
    ensures
        encoded(values).len() == control_len(values.len()) + data_len(values),
        encoded(values).len() <= control_len(values.len()) + 4 * values.len(),
{
    lemma_data_region_len(values);
}

/// The control region of an encoded buffer records the code of every value.
pub proof fn lemma_encoded_code_at(values: Seq<u32>, i: int)
    requires
        0 <= i < values.len(),
    ensures
        code_at(encoded(values), i) == code(values[i]),
{
    let j = i / 4;
    assert(encoded(values)[j] == control_byte(values, j));
    lemma_pack_codes(
        slot_code(values, 4 * j),
        slot_code(values, 4 * j + 1),
        slot_code(values, 4 * j + 2),
        slot_code(values, 4 * j + 3),
    );
}

/// In an encoded buffer the first `i` values span exactly the data bytes
/// written for them.
pub proof fn lemma_encoded_run(values: Seq<u32>, i: nat)
    requires
        i <= values.len(),
    ensures
        run(encoded(values), 0, i) == data_len(values.take(i as int)),
    decreases i,
{
    if i > 0 {
        lemma_encoded_run(values, (i - 1) as nat);
        lemma_encoded_code_at(values, i - 1);
        lemma_data_region_step(values, i - 1);
    }
}

/// Bytes that hold the little-endian representation of `v`, cut to its code,
/// read back as `v`.
pub proof fn lemma_le_value_of_bytes(bytes: Seq<u8>, pos: int, v: u32)
    requires
        forall|b: int| 0 <= b <= code(v) ==> bytes[pos + b] == le_byte(v, b),
    ensures
        le_value(bytes, pos, code(v) + 1) == v,
{
    assert(bytes[pos + 0] == le_byte(v, 0));
    if code(v) >= 1 {
        assert(bytes[pos + 1] == le_byte(v, 1));
    }
    if code(v) >= 2 {
        assert(bytes[pos + 2] == le_byte(v, 2));
    }
    if code(v) >= 3 {
        assert(bytes[pos + 3] == le_byte(v, 3));
    }
}

/// Value `i` of an encoded buffer reads back as the value that was encoded.
pub proof fn lemma_encoded_value_at(values: Seq<u32>, i: int)
    requires
        0 <= i < values.len(),
    ensures
        decoded(values.len(), encoded(values))[i] == values[i],
{
    let n = values.len();
    let bytes = encoded(values);
    let v = values[i];
    let pos = (control_len(n) + data_len(values.take(i))) as int;
    lemma_encoded_run(values, i as nat);
    lemma_encoded_code_at(values, i);
    lemma_data_region_len(values);
    assert forall|b: int| 0 <= b <= code(v) implies bytes[pos + b] == le_byte(v, b) by {
        lemma_data_region_at(values, i, b);
        assert(bytes[pos + b] == data_region(values)[data_len(values.take(i)) + b]);
    }
    lemma_le_value_of_bytes(bytes, pos, v);
}

/// Round trip: an encoded buffer decodes, with the count of the values that
/// were encoded, to exactly those values.
pub proof fn lemma_round_trip(values: Seq<u32>)
    ensures
        decodable(values.len(), encoded(values)),
        decoded(values.len(), encoded(values)) == values,
{
    let n = values.len();
    let bytes = encoded(values);
    lemma_encoded_len(values);
    lemma_encoded_run(values, n);
    assert(values.take(n as int) == values);
    assert forall|i: int| 0 <= i < n implies #[trigger] decoded(n, bytes)[i] == values[i] by {
        lemma_encoded_value_at(values, i);
    }
    assert(decoded(n, bytes) =~= values);
}

/// Error detection: an encoded buffer never decodes with a count one larger
/// than the number of values that were encoded.
pub proof fn lemma_one_more_is_out_of_bounds(values: Seq<u32>)
    ensures
        !decodable(values.len() + 1, encoded(values)),
{
    let n = values.len();
    let bytes = encoded(values);
    lemma_encoded_len(values);
    lemma_encoded_run(values, n);
    assert(values.take(n as int) == values);
    lemma_run_monotonic(bytes, 0, n, n + 1);
}

/// Empty identity: nothing encodes to nothing, and a count of zero decodes
/// any buffer to nothing.
pub proof fn lemma_empty(bytes: Seq<u8>)
    ensures
        encoded(Seq::<u32>::empty()) == Seq::<u8>::empty(),
        decodable(0, bytes),
        decoded(0, bytes) == Seq::<u32>::empty(),
{
    assert(encoded(Seq::<u32>::empty()) =~= Seq::<u8>::empty());
    assert(decoded(0, bytes) =~= Seq::<u32>::empty());
}

/// Number of data bytes that the first `slots` values of a group occupy,
/// as recorded in the group's control byte `c`.
pub open spec fn group_offset(c: u8, slots: int) -> nat {
    (if slots > 0 {
        ctrl_code(c, 0) + 1
    } else {
        0
    }) + (if slots > 1 {
        ctrl_code(c, 1) + 1
    } else {
        0
    }) + (if slots > 2 {
        ctrl_code(c, 2) + 1
    } else {
        0
    }) + (if slots > 3 {
        ctrl_code(c, 3) + 1
    } else {
        0
    })
}

/// The code of value `slot` of group `group` sits in slot `slot` of control
/// byte `group`.
pub proof fn lemma_code_at_slot(bytes: Seq<u8>, group: nat, slot: nat)
    requires
        slot < 4,
    ensures
        code_at(bytes, (4 * group + slot) as int) == ctrl_code(bytes[group as int], slot as int),
{
    assert((4 * group + slot) / 4 == group && (4 * group + slot) % 4 == slot) by (nonlinear_arith)
        requires
            slot < 4,
    ;
}

/// Within a group, spans are read off the group's control byte.
pub proof fn lemma_run_group(bytes: Seq<u8>, control: nat, groups: nat, slots: nat)
    requires
        slots <= 4,
    ensures
        run(bytes, 4 * control, 4 * groups + slots) == run(bytes, 4 * control, 4 * groups)
            + group_offset(bytes[(control + groups) as int], slots as int),
        forall|s: int|
            0 <= s < 4 ==> #[trigger] ctrl_code(bytes[(control + groups) as int], s) == code_at(
                bytes,
                4 * control + 4 * groups + s,
            ),
    decreases slots,
{
    assert forall|s: int| 0 <= s < 4 implies #[trigger] ctrl_code(
        bytes[(control + groups) as int],
        s,
    ) == code_at(bytes, 4 * control + 4 * groups + s) by {
        assert((4 * control + 4 * groups + s) / 4 == control + groups);
        assert((4 * control + 4 * groups + s) % 4 == s);
    }
    if slots > 0 {
        lemma_run_group(bytes, control, groups, (slots - 1) as nat);
        assert(4 * control + (4 * groups + slots) - 1 == 4 * control + 4 * groups + (slots - 1));
    }
}

/// Reading a full word and keeping its low `count` bytes reads `count` bytes.
pub proof fn lemma_le_value_low_bytes(bytes: Seq<u8>, pos: int, count: nat)
    requires
        1 <= count <= 4,
    ensures
        count == 1 ==> le_value(bytes, pos, 4) % 0x100 == le_value(bytes, pos, 1),
        count == 2 ==> le_value(bytes, pos, 4) % 0x1_0000 == le_value(bytes, pos, 2),
        count == 3 ==> le_value(bytes, pos, 4) % 0x100_0000 == le_value(bytes, pos, 3),
{
}

/// The four values of a group with control byte `c` whose data bytes start
/// at `data`.
pub open spec fn group_values(bytes: Seq<u8>, data: int, c: u8) -> Seq<u32> {
    Seq::new(
        4,
        |s: int| le_value(bytes, data + group_offset(c, s), ctrl_code(c, s) + 1),
    )
}

/// Where the data bytes of group `groups` start, counting groups from the
/// control byte at index `control`, whose data bytes start at `data`.
pub closed spec fn group_start(bytes: Seq<u8>, control: nat, data: int, groups: nat) -> int {
    data + run(bytes, 4 * control, 4 * groups)
}

/// A group starts behind the span of the groups before it.
pub proof fn lemma_group_start(bytes: Seq<u8>, control: nat, data: int, groups: nat)
    ensures
        group_start(bytes, control, data, groups) == data + run(bytes, 4 * control, 4 * groups),
        group_start(bytes, control, data, 0) == data,
{
}

/// The values of a whole group are those that its control byte describes.
pub proof fn lemma_group_values(bytes: Seq<u8>, control: nat, data: int, groups: nat, count: nat)
    requires
        4 * groups + 4 <= count,
    ensures
        forall|s: int|
            0 <= s < 4 ==> #[trigger] group_values(
                bytes,
                group_start(bytes, control, data, groups),
                bytes[(control + groups) as int],
            )[s] == values_at(bytes, 4 * control, data, count)[4 * groups + s],
        group_start(bytes, control, data, groups + 1) == group_start(bytes, control, data, groups)
            + group_offset(bytes[(control + groups) as int], 4),
{
    lemma_run_group(bytes, control, groups, 0);
    lemma_run_group(bytes, control, groups, 1);
    lemma_run_group(bytes, control, groups, 2);
    lemma_run_group(bytes, control, groups, 3);
    lemma_run_group(bytes, control, groups, 4);
}

/// Reading a value inside a window of sixteen bytes reads it from the input.
pub proof fn lemma_le_value_in_window(input: Seq<u8>, data: int, off: int, count: nat)
    requires
        0 <= data,
        data + 16 <= input.len(),
        0 <= off,
        1 <= count <= 4,
        off + count <= 16,
    ensures
        le_value(input.subrange(data, data + 16), off, count) == le_value(
            input,
            data + off,
            count,
        ),
{
    let encoded = input.subrange(data, data + 16);
    assert(encoded[off] == input[data + off]);
    if count > 1 {
        assert(encoded[off + 1] == input[data + off + 1]);
    }
    if count > 2 {
        assert(encoded[off + 2] == input[data + off + 2]);
    }
    if count > 3 {
        assert(encoded[off + 3] == input[data + off + 3]);
    }
}

} // verus!
