use rand::Rng;
use streamvb::{
    control_bytes_len, decode, encode, exact_compressed_len, max_compressed_len, StreamVbyteError,
};

#[test]
fn encode_empty() {
    assert_eq!(encode(&[]), (0, vec![]));
}

#[test]
fn encode_one_byte() {
    assert_eq!(encode(&[1]), (1, vec![0x00, 0x01]));
}

#[test]
fn encode_two_bytes() {
    assert_eq!(encode(&[300]), (1, vec![0x01, 0x2C, 0x01]));
}

#[test]
fn encode_three_bytes() {
    assert_eq!(encode(&[70000]), (1, vec![0x02, 0x70, 0x11, 0x01]));
}

#[test]
fn encode_four_bytes() {
    assert_eq!(encode(&[0x12345678]), (1, vec![0x03, 0x78, 0x56, 0x34, 0x12]));
}

#[test]
fn encode_five_values_takes_two_control_bytes() {
    assert_eq!(
        encode(&[1, 2, 3, 4, 5]),
        (5, vec![0x00, 0x00, 0x01, 0x02, 0x03, 0x04, 0x05])
    );
}

#[test]
fn encode_mixed_widths() {
    assert_eq!(
        encode(&[0, 23, 99, 301, 70211, 89902932]),
        (
            6,
            vec![0x40, 0x0E, 0x00, 0x17, 0x63, 0x2D, 0x01, 0x43, 0x12, 0x01, 0x54, 0xCF, 0x5B, 0x05]
        )
    );
}

#[test]
fn encode_reference_bytes() {
    let (len, bytes) = encode(&[0x11, 0x5544, 0x230021, 0xdeadbeef, 0x2142]);
    assert_eq!(len, 5);
    assert_eq!(
        bytes,
        vec![
            0b11_10_01_00,
            0b00_00_00_01,
            0x11,
            0x44,
            0x55,
            0x21,
            0x00,
            0x23,
            0xef,
            0xbe,
            0xad,
            0xde,
            0x42,
            0x21
        ]
    );
}

#[test]
fn decode_reference_bytes() {
    let values = vec![0x11, 0x5544, 0x230021, 0xdeadbeef, 0x2142];
    let (len, bytes) = encode(&values);
    let decoded_values = decode(len, &bytes).unwrap();
    assert_eq!(values, decoded_values);
}

#[test]
fn decode_zero_values_from_anything() {
    assert_eq!(decode(0, &[]), Ok(vec![]));
    assert_eq!(decode(0, &[1, 2, 3]), Ok(vec![]));
}

#[test]
fn decode_one_more_than_encoded_fails() {
    for n in 0..40u32 {
        let values: Vec<u32> = (0..n).map(|i| 1u32 << (i % 32)).collect();
        let (len, bytes) = encode(&values);
        assert_eq!(decode(len, &bytes), Ok(values));
        assert_eq!(decode(len + 1, &bytes), Err(StreamVbyteError::DecodeOutOfBounds));
    }
}

#[test]
fn decode_truncated_input_fails() {
    let (len, bytes) = encode(&[1, 300, 70000, 0x12345678, 5]);
    for cut in 0..bytes.len() {
        assert_eq!(
            decode(len, &bytes[..cut]),
            Err(StreamVbyteError::DecodeOutOfBounds)
        );
    }
}

#[test]
fn control_bytes_len_rounds_up() {
    assert_eq!(control_bytes_len(0), 0);
    assert_eq!(control_bytes_len(1), 1);
    assert_eq!(control_bytes_len(4), 1);
    assert_eq!(control_bytes_len(5), 2);
    assert_eq!(control_bytes_len(8), 2);
    assert_eq!(control_bytes_len(usize::MAX), usize::MAX / 4 + 1);
}

#[test]
fn max_compressed_len_is_controls_plus_four_per_value() {
    assert_eq!(max_compressed_len(0), 0);
    assert_eq!(max_compressed_len(1), 5);
    assert_eq!(max_compressed_len(5), 22);
    assert_eq!(max_compressed_len(1024), 256 + 4096);
}

#[test]
fn exact_compressed_len_counts_data_bytes() {
    assert_eq!(exact_compressed_len(&[]), 0);
    assert_eq!(exact_compressed_len(&[0]), 1);
    assert_eq!(exact_compressed_len(&[0xff, 0x100, 0xffff, 0x1_0000, 0xff_ffff, 0x100_0000]), 15);
    let values = [0x11, 0x5544, 0x230021, 0xdeadbeef, 0x2142];
    let (len, bytes) = encode(&values);
    assert_eq!(bytes.len(), control_bytes_len(len) + exact_compressed_len(&values));
    assert!(bytes.len() <= max_compressed_len(len));
}

fn random_round_trip(width: u32) {
    let mut rng = rand::thread_rng();
    for count in 0..=2048usize {
        let values: Vec<u32> = (0..count)
            .map(|_| {
                let bytes = if width == 0 { rng.gen_range(1..5) } else { width };
                let value: u32 = rng.gen();
                if bytes == 4 {
                    value
                } else {
                    value & ((1u32 << (8 * bytes)) - 1)
                }
            })
            .collect();
        let (len, bytes) = encode(&values);
        assert_eq!(len, count);
        assert!(bytes.len() <= max_compressed_len(count));
        assert_eq!(bytes.len(), control_bytes_len(count) + exact_compressed_len(&values));
        assert_eq!(decode(len, &bytes), Ok(values));
    }
}

#[test]
fn random_round_trip_8_bit() {
    random_round_trip(1);
}

#[test]
fn random_round_trip_16_bit() {
    random_round_trip(2);
}

#[test]
fn random_round_trip_24_bit() {
    random_round_trip(3);
}

#[test]
fn random_round_trip_32_bit() {
    random_round_trip(4);
}

#[test]
fn random_round_trip_mixed() {
    random_round_trip(0);
}
