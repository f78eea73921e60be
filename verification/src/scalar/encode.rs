//! Scalar encoder, four values per control byte.
use crate::bits::{lemma_key_slot, lemma_word_bytes};
use crate::common::{control_bytes_len, max_compressed_len, max_len};
use crate::format::{
    code, control_byte, control_len, data_len, data_region, encoded, lemma_data_region_len,
    lemma_data_region_step, lemma_encoded_len, slot_code, value_bytes,
};
use vstd::prelude::*;

verus! {

/// Encodes `input` into a fresh buffer. Returns the number of values and the
/// encoded bytes: both are needed to decode.
pub fn encode(input: &[u32]) -> (res: (usize, Vec<u8>))
    ensures
        res.0 == input.len(),
        res.1@ == encoded(input@),
        res.1.len() == control_len(input.len() as nat) + data_len(input@),
        res.1.len() <= max_len(input.len() as nat),
{
    let items: usize = input.len();
    proof {
        lemma_encoded_len(input@);
    }
    if items == 0 {
        assert(encoded(input@) =~= Seq::<u8>::empty());
        return (0, Vec::new());
    }
    let mut output: Vec<u8> = Vec::new();
    reserve_worst_case(&mut output, items);
    // The control bytes come first; the worker fills them in as it goes.
    output.resize(control_bytes_len(items), 0);
    encode_worker(input, &mut output, 0);
    assert(Seq::<u8>::empty() + encoded(input@) =~= encoded(input@));
    (items, output)
}

/// Reserves room for the worst case of `items` values, where that size can
/// be represented.
pub(crate) fn reserve_worst_case(output: &mut Vec<u8>, items: usize)
    ensures
        final(output)@ == old(output)@,
{
    if items <= usize::MAX / 5 {
        output.reserve(max_compressed_len(items));
    }
}

/// Encodes `input` behind the control bytes reserved for it, which are the
/// last bytes of `output` and start at index `controls`.
pub fn encode_worker(input: &[u32], output: &mut Vec<u8>, controls: usize)
    requires
        old(output).len() == controls + control_len(input.len() as nat),
    ensures
        final(output)@ == old(output)@.take(controls as int) + encoded(input@),
{
    let ghost prefix = output@.take(controls as int);
    let items: usize = input.len();
    let full_controls: usize = items / 4;
    proof {
        lemma_building_start(output@, prefix, input@);
    }
    // Encode 4 values per iteration. That yields one whole control byte.
    let mut group: usize = 0;
    while group < full_controls
        invariant
            items == input.len(),
            full_controls == items / 4,
            group <= full_controls,
            prefix.len() == controls,
            building(output@, prefix, input@, group as int, 4 * group),
        decreases full_controls - group,
    {
        let at: usize = 4 * group;
        let ghost start = output@;
        let symbol1: u32 = store_word(output, input[at]);
        let symbol2: u32 = store_word(output, input[at + 1]);
        let symbol3: u32 = store_word(output, input[at + 2]);
        let symbol4: u32 = store_word(output, input[at + 3]);
        let mut key: u32 = symbol1;
        proof {
            lemma_building_value(start, prefix, input@, group as int, at as int);
            lemma_building_value(
                start + value_bytes(input@[at as int]),
                prefix,
                input@,
                group as int,
                at + 1,
            );
            lemma_building_value(
                start + value_bytes(input@[at as int]) + value_bytes(input@[at + 1]),
                prefix,
                input@,
                group as int,
                at + 2,
            );
            lemma_building_value(
                start + value_bytes(input@[at as int]) + value_bytes(input@[at + 1]) + value_bytes(
                    input@[at + 2],
                ),
                prefix,
                input@,
                group as int,
                at + 3,
            );
            lemma_key_slot(key, symbol2, 1);
        }
        key |= symbol2 << 2;
        proof {
            lemma_key_slot(key, symbol3, 2);
        }
        key |= symbol3 << 4;
        proof {
            lemma_key_slot(key, symbol4, 3);
        }
        key |= symbol4 << 6;
        proof {
            lemma_partial_key(input@, group as int, 4);
            lemma_building_control(output@, prefix, input@, group as int, at + 4);
            lemma_building_len(output@, prefix, input@, group as int, at + 4);
            assert(controls + group < output.len());
        }
        output[controls + group] = key as u8;
        group += 1;
    }
    let rest: usize = items % 4;
    if rest > 0 {
        // Handle the rest: a last control byte with fewer than four codes.
        let mut key: u32 = 0;
        let mut i: usize = 0;
        while i < rest
            invariant
                items == input.len(),
                full_controls == items / 4,
                rest == items % 4,
                group == full_controls,
                i <= rest,
                prefix.len() == controls,
                building(output@, prefix, input@, group as int, 4 * group + i),
                key == partial_key(input@, group as int, i as int),
            decreases rest - i,
        {
            let ghost start = output@;
            let symbol: u32 = store_word(output, input[4 * group + i]);
            proof {
                lemma_building_value(start, prefix, input@, group as int, 4 * group + i);
                lemma_key_slot(key, symbol, i as u32);
            }
            key |= symbol << ((i + i) as u32);
            i += 1;
        }
        proof {
            lemma_partial_key(input@, group as int, rest as int);
            lemma_building_control(output@, prefix, input@, group as int, items as int);
            lemma_building_len(output@, prefix, input@, group as int, items as int);
            assert(controls + group < output.len());
        }
        output[controls + group] = key as u8;
    }
    proof {
        lemma_building_done(output@, prefix, input@);
    }
}

/// Appends the bytes of one value: all four are written, and the ones the
/// value does not need are given back, so that the next value overwrites them.
/// Returns the code of the value.
pub fn store_word(output: &mut Vec<u8>, word: u32) -> (symbol: u32)
    ensures
        symbol == code(word),
        final(output)@ == old(output)@ + value_bytes(word),
{
    let symbol: u32 = encode_one(word);
    let start: usize = output.len();
    proof {
        lemma_word_bytes(word);
    }
    output.push((word & 0xff) as u8);
    output.push(((word >> 8) & 0xff) as u8);
    output.push(((word >> 16) & 0xff) as u8);
    output.push(((word >> 24) & 0xff) as u8);
    assert(output.len() == start + 4);
    output.truncate(start + symbol as usize + 1);
    assert(output@ =~= old(output)@ + value_bytes(word));
    symbol
}

/// The code of a value, computed without branching on the value.
pub fn encode_one(word: u32) -> (symbol: u32)
    ensures
        symbol == code(word),
        symbol <= 3,
{
    let t1: u32 = if word > 0x0000_00ff { 1 } else { 0 };
    let t2: u32 = if word > 0x0000_ffff { 1 } else { 0 };
    let t3: u32 = if word > 0x00ff_ffff { 1 } else { 0 };
    t1 + t2 + t3
}

/// The codes of the first `slots` values of group `group`, packed as in a
/// control byte.
pub open spec fn partial_key(values: Seq<u32>, group: int, slots: int) -> nat {
    (if slots > 0 {
        slot_code(values, 4 * group)
    } else {
        0
    }) + (if slots > 1 {
        4 * slot_code(values, 4 * group + 1)
    } else {
        0
    }) + (if slots > 2 {
        16 * slot_code(values, 4 * group + 2)
    } else {
        0
    }) + (if slots > 3 {
        64 * slot_code(values, 4 * group + 3)
    } else {
        0
    })
}

/// An output buffer under construction: after `prefix` come the control
/// bytes, of which those of the first `groups` groups are final, and then the
/// data bytes of the first `done` values.
#[verifier::opaque]
pub open spec fn building(
    out: Seq<u8>,
    prefix: Seq<u8>,
    values: Seq<u32>,
    groups: int,
    done: int,
) -> bool {
    let controls = prefix.len() + control_len(values.len());
    &&& 0 <= done <= values.len()
    &&& 0 <= groups <= control_len(values.len())
    &&& out.len() == controls + data_len(values.take(done))
    &&& out.take(prefix.len() as int) == prefix
    &&& forall|j: int| 0 <= j < groups ==> out[prefix.len() + j] == control_byte(values, j)
    &&& out.skip(controls as int) == data_region(values.take(done))
}

/// A buffer under construction holds the prefix, all control bytes, and the
/// data bytes of the values done.
pub proof fn lemma_building_len(
    out: Seq<u8>,
    prefix: Seq<u8>,
    values: Seq<u32>,
    groups: int,
    done: int,
)
    requires
        building(out, prefix, values, groups, done),
    ensures
        out.len() == prefix.len() + control_len(values.len()) + data_len(values.take(done)),
        0 <= done <= values.len(),
        0 <= groups <= control_len(values.len()),
{
    reveal(building);
}

/// Reserving the control bytes starts the construction.
pub proof fn lemma_building_start(out: Seq<u8>, prefix: Seq<u8>, values: Seq<u32>)
    requires
        out.len() == prefix.len() + control_len(values.len()),
        out.take(prefix.len() as int) == prefix,
    ensures
        building(out, prefix, values, 0, 0),
{
    reveal(building);
    assert(values.take(0) =~= Seq::<u32>::empty());
    assert(out.skip(out.len() as int) =~= Seq::<u8>::empty());
}

/// Appending the bytes of the next value advances the construction.
pub proof fn lemma_building_value(
    out: Seq<u8>,
    prefix: Seq<u8>,
    values: Seq<u32>,
    groups: int,
    done: int,
)
    requires
        building(out, prefix, values, groups, done),
        done < values.len(),
    ensures
        building(out + value_bytes(values[done]), prefix, values, groups, done + 1),
{
    reveal(building);
    let controls = (prefix.len() + control_len(values.len())) as int;
    let next = out + value_bytes(values[done]);
    lemma_data_region_step(values, done);
    assert(next.take(prefix.len() as int) =~= out.take(prefix.len() as int));
    assert(next.skip(controls) =~= out.skip(controls) + value_bytes(values[done]));
}

/// Writing the control byte of the next group advances the construction.
pub proof fn lemma_building_control(
    out: Seq<u8>,
    prefix: Seq<u8>,
    values: Seq<u32>,
    groups: int,
    done: int,
)
    requires
        building(out, prefix, values, groups, done),
        groups < control_len(values.len()),
    ensures
        building(
            out.update(prefix.len() + groups, control_byte(values, groups)),
            prefix,
            values,
            groups + 1,
            done,
        ),
{
    reveal(building);
    let controls = (prefix.len() + control_len(values.len())) as int;
    let next = out.update(prefix.len() + groups, control_byte(values, groups));
    assert(next.take(prefix.len() as int) =~= out.take(prefix.len() as int));
    assert(next.skip(controls) =~= out.skip(controls));
}

/// Once every control byte and every value is written, the buffer is the
/// prefix followed by the encoded values.
pub proof fn lemma_building_done(out: Seq<u8>, prefix: Seq<u8>, values: Seq<u32>)
    requires
        building(out, prefix, values, control_len(values.len()) as int, values.len() as int),
    ensures
        out == prefix + encoded(values),
{
    reveal(building);
    let controls = (prefix.len() + control_len(values.len())) as int;
    assert(values.take(values.len() as int) == values);
    lemma_data_region_len(values);
    assert forall|k: int| 0 <= k < out.len() implies out[k] == (prefix + encoded(values))[k] by {
        if k < prefix.len() {
            assert(out[k] == out.take(prefix.len() as int)[k]);
        } else if k < controls {
            assert(out[k] == control_byte(values, k - prefix.len()));
        } else {
            assert(out[k] == out.skip(controls)[k - controls]);
        }
    }
    assert(out =~= prefix + encoded(values));
}

/// The control byte of a group holds the codes of the values the group has.
pub proof fn lemma_partial_key(values: Seq<u32>, group: int, slots: int)
    requires
        0 <= slots <= 4,
        0 <= group,
        4 * group + slots >= values.len() || slots == 4,
    ensures
        partial_key(values, group, slots) <= 255,
        control_byte(values, group) == partial_key(values, group, slots) as u8,
{
}

} // verus!
