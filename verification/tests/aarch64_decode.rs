use streamvb::aarch64::decode::{decode_simd, step_simd};
use streamvb::safe::encode;

#[test]
fn test_step_simd() {
    let control = 0b_1000_0111;
    let mut data: Vec<u8> = (1..16).collect();
    // A step loads a full lane of sixteen bytes.
    data.push(16);
    let mut out: Vec<u32> = vec![];
    let ofs = step_simd(control, &data, 0, &mut out);
    println!("{:x?}, ofs={}", out, ofs);
    assert_eq!(out, vec![0x04030201, 0x0605, 0x07, 0x0a0908]);
    assert_eq!(ofs, 10);
}

#[test]
fn neon_shaped_decode_round_trips() {
    for n in [0u32, 1, 2, 3, 4, 5, 16, 17, 100, 101, 102, 103, 104, 1000] {
        let input: Vec<u32> = (0..n).map(|i| i.wrapping_mul(2654435761) >> (i % 4 * 8)).collect();
        let (len, bytes) = encode(&input);
        assert_eq!(decode_simd(len, &bytes).unwrap(), input);
        assert!(decode_simd(len + 1, &bytes).is_err());
    }
}
