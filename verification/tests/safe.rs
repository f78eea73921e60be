use streamvb::safe::{decode, encode};

#[test]
fn single() {
    assert_eq!(encode(&[]), (0, vec![]));
    assert_eq!(encode(&[1]), (1, vec![0, 1]));
    assert_eq!(encode(&[300]), (1, vec![0x1, 44, 1]));
    assert_eq!(encode(&[70000]), (1, vec![0x2, 112, 17, 1]));
    assert_eq!(encode(&[0x12345678]), (1, vec![3, 0x78, 0x56, 0x34, 0x12]));
}

#[test]
fn mod_short() {
    assert_eq!(encode(&[1, 2]), (2, vec![0, 1, 2]));
    assert_eq!(encode(&[1, 2, 3]), (3, vec![0, 1, 2, 3]));
    assert_eq!(encode(&[1, 2, 3, 4]), (4, vec![0, 1, 2, 3, 4]));
    assert_eq!(encode(&[1, 2, 3, 4, 5]), (5, vec![0, 0, 1, 2, 3, 4, 5]));
}

#[test]
fn mod_encode_decode() {
    let inputs = &[
        vec![],
        vec![42],
        vec![300],
        vec![70000],
        vec![0x12345678],
        vec![1000, 2000],
        vec![1, 2, 3],
        vec![1, 288, 3],
        vec![1, 288, 3, 94320],
        vec![1, 288, 3, 123123, 83291],
        vec![1, 288, 3, 123123, 83291, 82, 30],
        vec![1, 288, 3, 123123, 83291, 82, 16621, 30],
    ];
    for input in inputs {
        let (len, bytes) = encode(input);
        let decoded = decode(len, &bytes);
        assert_eq!(input, &decoded);
    }
}
