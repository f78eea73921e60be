use streamvb::lanes::{Portable, ShuffleLanes};
use streamvb::safe::encode;
use streamvb::x86_64::decode::{decode_simd, decode_simd_on, NoDecode};
use streamvb::x86_64::encode::{encode_simd_on, NoEncode};

fn inputs() -> Vec<Vec<u32>> {
    vec![
        vec![],
        vec![42],
        vec![300],
        vec![70000],
        vec![0x12345678],
        vec![1000, 2000],
        vec![1, 2, 3],
        vec![1, 288, 3],
        vec![1, 288, 3, 94320],
        vec![1, 288, 3, 123123, 83291],
        vec![1, 288, 3, 123123, 83291, 82, 30],
        vec![1, 288, 3, 123123, 83291, 82, 16621, 30],
        (1..101).collect(),
        (1..102).collect(),
        (1..103).collect(),
        (1..104).collect(),
        (1000..1101).collect(),
        (1000..1102).collect(),
        (1000..1103).collect(),
        (1000..1104).collect(),
        (10..1101).collect(),
        (10..1102).collect(),
        (10..1103).collect(),
        (10..1104).collect(),
    ]
}

#[test]
fn basic() {
    for input in &inputs() {
        let (len, bytes) = encode(input);
        let decoded = decode_simd::<NoDecode>(len, &bytes).unwrap();
        assert_eq!(input, &decoded);
    }
}

#[test]
fn wrong_len() {
    for input in &inputs() {
        let (len, bytes) = encode(input);
        assert!(decode_simd::<NoDecode>(len + 1, &bytes).is_err());
    }
}

/// Lanes that gather byte by byte with iterators.
struct Gathering;

impl ShuffleLanes for Gathering {
    fn shuffle_bytes(data: &[u8; 16], mask: &[u8; 16]) -> [u8; 16] {
        let mut lanes = [0u8; 16];
        for (lane, m) in lanes.iter_mut().zip(mask) {
            *lane = if m & 0x80 != 0 { 0 } else { data[(m & 0x0f) as usize] };
        }
        lanes
    }

    fn min_bytes(a: &[u8; 16], b: &[u8; 16]) -> [u8; 16] {
        let mut lanes = [0u8; 16];
        for i in 0..16 {
            lanes[i] = a[i].min(b[i]);
        }
        lanes
    }

    fn pack_words_saturating(a: &[u8; 16], b: &[u8; 16]) -> [u8; 16] {
        let mut lanes = [0u8; 16];
        for i in 0..8 {
            let wa = i16::from_le_bytes([a[2 * i], a[2 * i + 1]]);
            let wb = i16::from_le_bytes([b[2 * i], b[2 * i + 1]]);
            lanes[i] = wa.clamp(0, 255) as u8;
            lanes[8 + i] = wb.clamp(0, 255) as u8;
        }
        lanes
    }

    fn min_words_signed(a: &[u8; 16], b: &[u8; 16]) -> [u8; 16] {
        let mut lanes = [0u8; 16];
        for i in 0..8 {
            let wa = i16::from_le_bytes([a[2 * i], a[2 * i + 1]]);
            let wb = i16::from_le_bytes([b[2 * i], b[2 * i + 1]]);
            lanes[2 * i..2 * i + 2].copy_from_slice(&wa.min(wb).to_le_bytes());
        }
        lanes
    }

    fn add_words_saturating(a: &[u8; 16], b: &[u8; 16]) -> [u8; 16] {
        let mut lanes = [0u8; 16];
        for i in 0..8 {
            let wa = u16::from_le_bytes([a[2 * i], a[2 * i + 1]]);
            let wb = u16::from_le_bytes([b[2 * i], b[2 * i + 1]]);
            lanes[2 * i..2 * i + 2].copy_from_slice(&wa.saturating_add(wb).to_le_bytes());
        }
        lanes
    }

    fn high_bits(a: &[u8; 16]) -> u32 {
        a.iter().enumerate().map(|(i, b)| ((b >> 7) as u32) << i).sum()
    }
}

#[test]
fn lanes_of_the_caller() {
    for input in &inputs() {
        let (len, bytes) = encode_simd_on::<NoEncode, Gathering>(input);
        assert_eq!((len, bytes.clone()), encode(input));
        assert_eq!(decode_simd_on::<NoDecode, Gathering>(len, &bytes).unwrap(), *input);
        assert!(decode_simd_on::<NoDecode, Gathering>(len + 1, &bytes).is_err());
    }
    let a: [u8; 16] = [0, 1, 2, 0xff, 0x80, 0x7f, 0, 0, 0xff, 0xff, 1, 1, 0, 0x80, 0xff, 0x7f];
    let b: [u8; 16] = [1, 0, 0x7f, 0x80, 0, 0x7f, 0xff, 0xff, 0, 0, 1, 0x81, 3, 4, 5, 6];
    assert_eq!(Gathering::shuffle_bytes(&a, &b), Portable::shuffle_bytes(&a, &b));
    assert_eq!(Gathering::min_bytes(&a, &b), Portable::min_bytes(&a, &b));
    assert_eq!(
        Gathering::pack_words_saturating(&a, &b),
        Portable::pack_words_saturating(&a, &b)
    );
    assert_eq!(Gathering::min_words_signed(&a, &b), Portable::min_words_signed(&a, &b));
    assert_eq!(
        Gathering::add_words_saturating(&a, &b),
        Portable::add_words_saturating(&a, &b)
    );
    assert_eq!(Gathering::high_bits(&a), Portable::high_bits(&a));
}
