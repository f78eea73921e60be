use streamvb::lanes::{LookupLanes, Portable, ShuffleLanes};
use streamvb::tables::len::LENGTH_TABLE;
use streamvb::tables::shuffle::{decode_shuffle_mask, DECODE_SHUFFLE_TABLE};

#[test]
fn length_table_adds_up_the_codes() {
    for control in 0..256usize {
        let codes = [control & 3, (control >> 2) & 3, (control >> 4) & 3, control >> 6];
        assert_eq!(LENGTH_TABLE[control] as usize, 4 + codes.iter().sum::<usize>());
    }
    assert_eq!(LENGTH_TABLE[0], 4);
    assert_eq!(LENGTH_TABLE[0x87], 10);
    assert_eq!(LENGTH_TABLE[0xff], 16);
}

#[test]
fn decode_shuffle_table_matches_its_definition() {
    for control in 0..256usize {
        let codes = [control & 3, (control >> 2) & 3, (control >> 4) & 3, control >> 6];
        let mut want: Vec<u8> = vec![];
        let mut at = 0;
        for code in codes {
            for b in 0..4 {
                want.push(if b <= code { (at + b) as u8 } else { 0xff });
            }
            at += code + 1;
        }
        assert_eq!(decode_shuffle_mask(control as u8).to_vec(), want);
        assert_eq!(DECODE_SHUFFLE_TABLE[control].to_le_bytes().to_vec(), want);
    }
    assert_eq!(
        decode_shuffle_mask(0x87),
        [0, 1, 2, 3, 4, 5, 0xff, 0xff, 6, 0xff, 0xff, 0xff, 7, 8, 9, 0xff]
    );
}

#[test]
fn shuffle_and_lookup_gather_bytes() {
    let data: [u8; 16] = [10, 11, 12, 13, 14, 15, 16, 17, 18, 19, 20, 21, 22, 23, 24, 25];
    let mask: [u8; 16] = [15, 0, 0x80, 0xff, 3, 3, 3, 16, 0x1f, 0x7f, 1, 2, 4, 8, 0x90, 5];
    assert_eq!(
        Portable::shuffle_bytes(&data, &mask),
        [25, 10, 0, 0, 13, 13, 13, 10, 25, 25, 11, 12, 14, 18, 0, 15]
    );
    assert_eq!(
        Portable::lookup_bytes(&data, &mask),
        [25, 10, 0, 0, 13, 13, 13, 0, 0, 0, 11, 12, 14, 18, 0, 15]
    );
}

#[test]
fn lane_arithmetic_saturates() {
    let a: [u8; 16] =
        [0, 1, 2, 0xff, 0x80, 0x7f, 0, 0, 0xff, 0xff, 0x01, 0x01, 0, 0x80, 0xff, 0x7f];
    let one: [u8; 16] = [1; 16];
    assert_eq!(
        Portable::min_bytes(&one, &a),
        [0, 1, 1, 1, 1, 1, 0, 0, 1, 1, 1, 1, 0, 1, 1, 1]
    );
    // As signed 16-bit lanes `a` holds 0x0100, 0xff02, 0x7f80, 0, -1, 0x0101,
    // 0x8000, 0x7fff.
    assert_eq!(
        Portable::pack_words_saturating(&a, &one),
        [0xff, 0, 0xff, 0, 0, 0xff, 0, 0xff, 0xff, 0xff, 0xff, 0xff, 0xff, 0xff, 0xff, 0xff]
    );
    assert_eq!(
        Portable::min_words_signed(&a, &one),
        [0, 1, 2, 0xff, 1, 1, 0, 0, 0xff, 0xff, 1, 1, 0, 0x80, 1, 1]
    );
    let floor: [u8; 16] = [0, 0x7f, 0, 0x7f, 0, 0x7f, 0, 0x7f, 0, 0x7f, 0, 0x7f, 0, 0x7f, 0, 0x7f];
    assert_eq!(
        Portable::add_words_saturating(&a, &floor),
        [0, 0x80, 0xff, 0xff, 0x80, 0xfe, 0, 0x7f, 0xff, 0xff, 0x01, 0x80, 0x00, 0xff, 0xff, 0xfe]
    );
    assert_eq!(Portable::high_bits(&a), 0b0110_0011_0001_1000);
}

#[test]
fn lookup_lanes_count_and_multiply() {
    assert_eq!(
        Portable::leading_zeros(&[0, 1, 0x8000_0000, 0x0001_0000]),
        [32, 31, 0, 15]
    );
    assert_eq!(Portable::shift_right_3(&[32, 31, 0, 15]), [4, 3, 0, 1]);
    assert_eq!(Portable::saturating_sub(&[3, 3, 3, 3], &[4, 3, 0, 1]), [0, 0, 3, 2]);
    assert_eq!(
        Portable::multiply_low(&[0x0001_0302, 0x0001_0302], &[0x4010_0401, 0x0101_0101]),
        [0xb42d_0b02, 0x0606_0502]
    );
    assert_eq!(
        Portable::lookup_low_bytes(
            &[0, 0, 0, 0, 1, 0, 0, 0, 3, 0, 0, 0, 2, 0, 0, 0],
            &[12, 8, 4, 0, 12, 8, 4, 16]
        ),
        [2, 3, 1, 0, 2, 3, 1, 0]
    );
}
