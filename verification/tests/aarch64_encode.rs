use rand::Rng;
use streamvb::aarch64::encode::{
    encode_one, encode_shuffle_mask, encode_simd, lane_code_and_length, lane_codes,
};
use streamvb::lanes::Portable;

#[test]
fn generate_encoding_shuffle_table() {
    println!("#[rustfmt::skip]");
    println!("static ENCODE_SHUFFLE_TABLE: [[u8; 16]; 256] = [");
    let mut control: u16 = 0;
    for b0 in 1..5 {
        for b1 in 1..5 {
            for b2 in 1..5 {
                for b3 in 1..5 {
                    let mut shuf = vec![];
                    let mut src_ofs = 0;
                    #[allow(clippy::needless_range_loop)]
                    for _ in 0..b3 {
                        shuf.push(src_ofs);
                        src_ofs += 1;
                    }
                    src_ofs = 4;
                    for _ in 0..b2 {
                        shuf.push(src_ofs);
                        src_ofs += 1;
                    }
                    src_ofs = 8;
                    for _ in 0..b1 {
                        shuf.push(src_ofs);
                        src_ofs += 1;
                    }
                    src_ofs = 12;
                    for _ in 0..b0 {
                        shuf.push(src_ofs);
                        src_ofs += 1;
                    }
                    while shuf.len() < 16 {
                        shuf.push(0xff);
                    }
                    // The table of the library holds exactly these bytes.
                    assert_eq!(encode_shuffle_mask(control as u8).to_vec(), shuf);
                    control += 1;
                    let mut line = format!("    [");
                    for b in shuf {
                        if b < 0x80 {
                            line += &format!("{:4}, ", b);
                        } else {
                            line += &format!("0xff, ");
                        }
                    }
                    println!("{}],  // {}{}{}{}", line, b3, b2, b1, b0);
                }
            }
        }
    }
    println!("];")
}

#[test]
fn encode_encode_step() {
    let values = vec![
        0x11, 0x3322, 0x77665544, 0xaa9988, 0x2010, 0x504030, 0x90000060, 0xa0, 0x70, 0x8000,
    ];
    let (len, encoded) = encode_simd(&values);
    println!("len={}, encoded: {:x?}", len, encoded);
}

pub fn random_any_bit(count: usize) -> Vec<u32> {
    let mut input: Vec<u32> = Vec::with_capacity(count);
    let mut rng = rand::thread_rng();
    for _ in 0..count {
        let sz = rng.gen_range(1..5);
        let b = match sz {
            1 => rng.gen::<u8>() as u32,
            2 => rng.gen::<u16>() as u32,
            3 => rng.gen_range(0u32..16777216),
            4 => rng.gen::<u32>(),
            _ => panic!("impossible"),
        };
        input.push(b);
    }
    input
}

#[test]
fn encode_encode_random() {
    for n in 0..100 {
        let count = 1000 + n;
        let input = random_any_bit(count);

        let (len, encoded) = encode_simd(&input);
        assert_eq!(len, input.len());

        let decoded = streamvb::scalar::decode::decode(len, &encoded).unwrap();
        assert_eq!(&input, &decoded);
    }
}

#[test]
fn lane_code_counts_leading_zero_bytes() {
    for (value, code) in [
        (0u32, 0u32),
        (1, 0),
        (0xff, 0),
        (0x100, 1),
        (0xffff, 1),
        (0x1_0000, 2),
        (0xff_ffff, 2),
        (0x100_0000, 3),
        (0xffff_ffff, 3),
    ] {
        assert_eq!(lane_codes::<Portable>(&[value, 0, value, 1])[0], code);
        assert_eq!(lane_codes::<Portable>(&[0, 1, 0x100, value])[3], code);
        assert_eq!(encode_one(value), code);
    }
}

#[test]
fn lane_code_and_length_of_four_values() {
    // Ex: [11, 3322, 77665544, aa9988] has the codes [0, 1, 3, 2].
    assert_eq!(
        lane_code_and_length::<Portable>(&[0x11, 0x3322, 0x77665544, 0xaa9988]),
        (0b10_11_01_00, 10)
    );
    assert_eq!(lane_code_and_length::<Portable>(&[0, 0, 0, 0]), (0, 4));
    assert_eq!(lane_code_and_length::<Portable>(&[u32::MAX; 4]), (0xff, 16));
}

#[test]
fn neon_shaped_encode_step_bytes() {
    let values = vec![
        0x11, 0x3322, 0x77665544, 0xaa9988, 0x2010, 0x504030, 0x90000060, 0xa0, 0x70, 0x8000,
    ];
    assert_eq!(encode_simd(&values), streamvb::scalar::encode(&values));
}
