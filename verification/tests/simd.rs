use rand::Rng;
use streamvb::simd::{
    decode, decode_into, encode, encode_into, zigzag_decode_into, zigzag_encode_into,
};
use streamvb::x86_64::decode::{Decoder, ZigZagDecode};
use streamvb::x86_64::encode::{Encoder, ZigZagEncode};
use streamvb::StreamVbyteError;

fn random_values(count: usize, width: u32) -> Vec<u32> {
    let mut rng = rand::thread_rng();
    (0..count)
        .map(|_| {
            let bytes = if width == 0 { rng.gen_range(1..5) } else { width };
            let value: u32 = rng.gen();
            if bytes == 4 {
                value
            } else {
                value & ((1u32 << (8 * bytes)) - 1)
            }
        })
        .collect()
}

fn counts() -> Vec<usize> {
    let mut counts: Vec<usize> = (0..=130).collect();
    counts.extend([255, 256, 257, 511, 1000, 1023, 1024, 1025, 2047, 2048]);
    counts
}

#[test]
fn all_codecs_agree_on_random_values() {
    for width in 0..=4 {
        for count in counts() {
            let values = random_values(count, width);
            let (len, bytes) = encode(&values);
            assert_eq!(len, count);
            assert_eq!((len, bytes.clone()), streamvb::encode(&values));
            assert_eq!((len, bytes.clone()), streamvb::scalar::encode(&values));
            assert_eq!((len, bytes.clone()), streamvb::safe::encode(&values));
            assert_eq!((len, bytes.clone()), streamvb::aarch64::encode::encode_simd(&values));
            assert_eq!(
                bytes.len(),
                streamvb::control_bytes_len(count) + streamvb::exact_compressed_len(&values)
            );
            assert!(bytes.len() <= streamvb::max_compressed_len(count));

            assert_eq!(decode(len, &bytes), Ok(values.clone()));
            assert_eq!(streamvb::decode(len, &bytes), Ok(values.clone()));
            assert_eq!(streamvb::scalar::decode(len, &bytes), Ok(values.clone()));
            assert_eq!(streamvb::aarch64::decode::decode_simd(len, &bytes), Ok(values.clone()));
            assert_eq!(streamvb::safe::decode(len, &bytes), values);

            assert_eq!(decode(len + 1, &bytes), Err(StreamVbyteError::DecodeOutOfBounds));
            assert_eq!(
                streamvb::aarch64::decode::decode_simd(len + 1, &bytes),
                Err(StreamVbyteError::DecodeOutOfBounds)
            );
        }
    }
}

#[test]
fn decoders_agree_on_arbitrary_bytes() {
    let mut rng = rand::thread_rng();
    for _ in 0..2000 {
        let size: usize = rng.gen_range(0..120);
        let bytes: Vec<u8> = (0..size).map(|_| rng.gen()).collect();
        let len: usize = rng.gen_range(0..100);
        let want = streamvb::scalar::decode(len, &bytes);
        assert_eq!(decode(len, &bytes), want);
        assert_eq!(streamvb::aarch64::decode::decode_simd(len, &bytes), want);
    }
}

#[test]
fn vector_step_ends_at_the_end_of_the_buffer() {
    // Twenty values of four bytes and then values of one byte: the last lane
    // step reads the sixteen bytes that end the buffer short of the tail.
    for ones in 13..=17 {
        let mut values: Vec<u32> = vec![0xffff_ffff; 20];
        values.extend(vec![7u32; ones]);
        let (len, bytes) = encode(&values);
        assert_eq!(decode(len, &bytes), Ok(values.clone()));
        assert_eq!(streamvb::aarch64::decode::decode_simd(len, &bytes), Ok(values));
    }
}

#[test]
fn scalar_tail_catches_out_of_bounds() {
    let values: Vec<u32> = (0..103).collect();
    let (len, bytes) = encode(&values);
    for cut in 1..8 {
        let short = &bytes[..bytes.len() - cut];
        assert_eq!(decode(len, short), Err(StreamVbyteError::DecodeOutOfBounds));
        assert_eq!(
            streamvb::aarch64::decode::decode_simd(len, short),
            Err(StreamVbyteError::DecodeOutOfBounds)
        );
    }
}

#[test]
fn lane_decode_reads_the_control_bytes_it_decodes() {
    // One byte per value at the front and four at the back, so that the
    // unrolled lane loop stops early while the control bytes still differ.
    let mut values: Vec<u32> = vec![1; 60];
    values.extend((0..40u32).map(|i| if i % 3 == 0 { 0x0102_0304 } else { 0x0102 }));
    let (len, bytes) = encode(&values);
    assert_eq!(decode(len, &bytes), Ok(values.clone()));
    assert_eq!(streamvb::aarch64::decode::decode_simd(len, &bytes), Ok(values));
}

#[test]
fn into_variants_append() {
    let first = vec![1, 300, 70000];
    let second = vec![0x12345678, 5, 6, 7, 8, 9, 10, 11, 12];
    let mut bytes = vec![0xAA, 0xBB];
    assert_eq!(encode_into(&first, &mut bytes), 3);
    let split = bytes.len();
    assert_eq!(encode_into(&second, &mut bytes), 9);
    assert_eq!(&bytes[..2], &[0xAA, 0xBB]);
    assert_eq!(&bytes[2..split], &encode(&first).1[..]);
    assert_eq!(&bytes[split..], &encode(&second).1[..]);
    assert_eq!(encode_into(&[], &mut bytes), 0);
    assert_eq!(&bytes[split..], &encode(&second).1[..]);

    let mut values = vec![42];
    assert_eq!(decode_into(3, &bytes[2..split], &mut values), Ok(()));
    assert_eq!(decode_into(9, &bytes[split..], &mut values), Ok(()));
    assert_eq!(values, vec![42, 1, 300, 70000, 0x12345678, 5, 6, 7, 8, 9, 10, 11, 12]);
}

#[test]
fn decode_into_leaves_output_alone_on_error() {
    let values: Vec<u32> = (0..200).map(|i| i * 1000).collect();
    let (len, bytes) = encode(&values);
    let mut out = vec![1, 2, 3];
    assert_eq!(
        decode_into(len, &bytes[..bytes.len() - 1], &mut out),
        Err(StreamVbyteError::DecodeOutOfBounds)
    );
    assert_eq!(out, vec![1, 2, 3]);
    assert_eq!(
        decode_into(len + 1, &bytes, &mut out),
        Err(StreamVbyteError::DecodeOutOfBounds)
    );
    assert_eq!(out, vec![1, 2, 3]);
}

#[test]
fn zigzag_maps_small_magnitudes_to_small_values() {
    let signed: Vec<i32> = vec![0, -1, 1, -2, 2, i32::MAX, i32::MIN];
    let expected: Vec<u32> = vec![0, 1, 2, 3, 4, 0xffff_fffe, 0xffff_ffff];
    for (n, z) in signed.iter().zip(expected.iter()) {
        assert_eq!(ZigZagEncode::encode_1(*n as u32), *z);
        assert_eq!(ZigZagDecode::decode_1(*z), *n as u32);
    }
    assert_eq!(
        ZigZagEncode::simd_encode_4x32([0, 0xffff_ffff, 1, 0xffff_fffe]),
        [0, 1, 2, 3]
    );
    assert_eq!(
        ZigZagDecode::simd_decode_4x32([0, 1, 2, 3]),
        [0, 0xffff_ffff, 1, 0xffff_fffe]
    );
}

#[test]
fn zigzag_round_trip() {
    for count in [0usize, 1, 3, 4, 7, 8, 9, 31, 32, 33, 100] {
        let signed: Vec<i32> = (0..count as i32).map(|i| (i - 50) * 1000 * (i % 7 - 3)).collect();
        let values: Vec<u32> = signed.iter().map(|n| *n as u32).collect();
        let mut bytes = vec![];
        assert_eq!(zigzag_encode_into(&values, &mut bytes), count);
        let mut decoded = vec![];
        assert_eq!(zigzag_decode_into(count, &bytes, &mut decoded), Ok(()));
        assert_eq!(decoded, values);
    }
    let mut bytes = vec![];
    zigzag_encode_into(&[(-1i32) as u32, (-128i32) as u32, 127], &mut bytes);
    assert_eq!(bytes, vec![0x00, 1, 255, 254]);
}
