use rand::Rng;
use streamvb::lanes::Portable;
use streamvb::x86_64::encode::{encode_simd, encoding_shuffle_mask, lane_keys, NoEncode};

#[test]
fn encode_step() {
    let values = vec![
        0x11, 0x3322, 0x77665544, 0xaa9988, 0x2010, 0x504030, 0x90000060, 0xa0, 0x70, 0x8000,
    ];
    let (len, encoded) = encode_simd::<NoEncode>(&values);
    println!("len={}, encoded: {:x?}", len, encoded);
}

#[test]
fn encode_step_bytes() {
    let values = vec![
        0x11, 0x3322, 0x77665544, 0xaa9988, 0x2010, 0x504030, 0x90000060, 0xa0, 0x70, 0x8000,
    ];
    let (len, encoded) = encode_simd::<NoEncode>(&values);
    assert_eq!(len, 10);
    assert_eq!(
        encoded,
        vec![
            0b10_11_01_00,
            0b00_11_10_01,
            0b00_00_01_00,
            0x11,
            0x22,
            0x33,
            0x44,
            0x55,
            0x66,
            0x77,
            0x88,
            0x99,
            0xaa,
            0x10,
            0x20,
            0x30,
            0x40,
            0x50,
            0x60,
            0x00,
            0x00,
            0x90,
            0xa0,
            0x70,
            0x00,
            0x80,
        ]
    );
}

pub fn random_any_bit(count: usize) -> Vec<u32> {
    let mut input: Vec<u32> = Vec::with_capacity(count);
    let mut rng = rand::thread_rng();
    for _ in 0..count {
        let sz = rng.gen_range(1..5);
        let b = match sz {
            1 => rng.gen::<u8>() as u32,
            2 => rng.gen::<u16>() as u32,
            3 => rng.gen_range(0u32..16777216),
            4 => rng.gen::<u32>(),
            _ => panic!("impossible"),
        };
        input.push(b);
    }
    input
}

#[test]
fn encode_random() {
    for n in 0..100 {
        let count = 1000 + n;
        let input = random_any_bit(count);

        let (len, encoded) = encode_simd::<NoEncode>(&input);
        assert_eq!(len, input.len());

        let decoded = streamvb::scalar::decode::decode(len, &encoded).unwrap();
        assert_eq!(&input, &decoded);
    }
}

#[test]
fn lane_keys_are_the_codes_of_eight_values() {
    // r0 = 11_00_00_00__22_33_00_00__44_55_66_77__88_99_aa_00
    // r1 = 10_20_00_00__30_40_50_00__60_00_00_90__a0_00_00_00
    let r0 = [
        0x11, 0, 0, 0, 0x22, 0x33, 0, 0, 0x44, 0x55, 0x66, 0x77, 0x88, 0x99, 0xaa, 0,
    ];
    let r1 = [
        0x10, 0x20, 0, 0, 0x30, 0x40, 0x50, 0, 0x60, 0, 0, 0x90, 0xa0, 0, 0, 0,
    ];
    assert_eq!(lane_keys::<Portable>(&r0, &r1), 0b_00_11_10_01__10_11_01_00);
    assert_eq!(lane_keys::<Portable>(&[0; 16], &[0xff; 16]), 0xff00);
}

#[test]
fn encoding_shuffle_table_matches_its_definition() {
    for index in 0..64usize {
        let lens = [index % 4 + 1, index / 4 % 4 + 1, index / 16 % 4 + 1, 4];
        let mut want: Vec<u8> = vec![];
        for (lane, len) in lens.iter().enumerate() {
            for b in 0..*len {
                want.push((4 * lane + b) as u8);
            }
        }
        while want.len() < 16 {
            want.push(0xff);
        }
        assert_eq!(encoding_shuffle_mask(index).to_vec(), want);
    }
    assert_eq!(
        encoding_shuffle_mask(0),
        [
            0x00, 0x04, 0x08, 0x0C, 0x0D, 0x0E, 0x0F, 0xFF, 0xFF, 0xFF, 0xFF, 0xFF, 0xFF, 0xFF,
            0xFF, 0xFF
        ]
    );
}
