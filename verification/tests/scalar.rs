use streamvb::scalar::{decode, encode};
use streamvb::StreamVbyteError;

fn inputs() -> Vec<Vec<u32>> {
    vec![
        vec![],
        vec![42],
        vec![300],
        vec![70000],
        vec![0x12345678],
        vec![1000, 2000],
        vec![1, 2, 3],
        vec![1, 288, 3],
        vec![1, 288, 3, 94320],
        vec![1, 288, 3, 123123, 83291],
        vec![1, 288, 3, 123123, 83291, 82, 30],
        vec![1, 288, 3, 123123, 83291, 82, 16621, 30],
    ]
}

#[test]
fn decode_encode_decode() {
    for input in &inputs() {
        let (len, bytes) = encode(input);
        let decoded = decode(len, &bytes).unwrap();
        assert_eq!(input, &decoded);
    }
}

#[test]
fn encode_decode_bad_length() {
    for input in &inputs() {
        let (len, bytes) = encode(input);
        assert!(decode(len + 1, &bytes).is_err());
    }
}

#[test]
fn encode_short() {
    assert_eq!(encode(&[]), (0, vec![]));

    assert_eq!(encode(&[1]), (1, vec![0, 1]));
    assert_eq!(encode(&[300]), (1, vec![0x1, 44, 1]));
    assert_eq!(encode(&[70000]), (1, vec![0x2, 112, 17, 1]));
    assert_eq!(encode(&[0x12345678]), (1, vec![3, 0x78, 0x56, 0x34, 0x12]));

    assert_eq!(encode(&[1, 2]), (2, vec![0, 1, 2]));
    assert_eq!(encode(&[1, 2, 3]), (3, vec![0, 1, 2, 3]));
    assert_eq!(encode(&[1, 2, 3, 4]), (4, vec![0, 1, 2, 3, 4]));
    assert_eq!(encode(&[1, 2, 3, 4, 5]), (5, vec![0, 0, 1, 2, 3, 4, 5]));

    assert_eq!(
        encode(&[0, 23, 99, 301, 70211, 89902932]),
        (6, vec![64, 14, 0, 23, 99, 45, 1, 67, 18, 1, 84, 207, 91, 5])
    );
}

#[test]
fn scalar_decode_reports_out_of_bounds() {
    assert_eq!(decode(1, &[]), Err(StreamVbyteError::DecodeOutOfBounds));
    assert_eq!(decode(1, &[0]), Err(StreamVbyteError::DecodeOutOfBounds));
    assert_eq!(decode(1, &[1, 7]), Err(StreamVbyteError::DecodeOutOfBounds));
    assert_eq!(decode(1, &[1, 7, 1]), Ok(vec![263]));
}
