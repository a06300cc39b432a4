use colstore::col_file::{decode_column, encode_column, read_plain_column_with_rows, LeBytesCodec};

#[test]
fn roundtrip_u32() {
    let values: Vec<u32> = vec![0, 1, 255, 256, 65535, 65536, 0xDEADBEEF, u32::MAX];
    let bytes = encode_column::<u32>(&values);
    assert_eq!(bytes.len(), values.len() * 4);
    let back = decode_column::<u32>(&bytes);
    assert_eq!(back, values);
}

#[test]
fn roundtrip_u8() {
    let values: Vec<u8> = vec![0, 1, 127, 128, 255];
    let back = decode_column::<u8>(&encode_column::<u8>(&values));
    assert_eq!(back, values);
}

#[test]
fn roundtrip_bool() {
    let values: Vec<bool> = vec![true, false, false, true, true];
    let back = decode_column::<bool>(&encode_column::<bool>(&values));
    assert_eq!(back, values);
}

#[test]
fn roundtrip_empty() {
    let values: Vec<u32> = vec![];
    let bytes = encode_column::<u32>(&values);
    assert_eq!(bytes.len(), 0);
    let back = decode_column::<u32>(&bytes);
    assert_eq!(back, values);
}

#[test]
fn append_then_read_is_concatenation() {
    let v1: Vec<u32> = vec![10, 20, 30];
    let v2: Vec<u32> = vec![40, 50];
    let mut bytes = encode_column::<u32>(&v1);
    bytes.extend_from_slice(&encode_column::<u32>(&v2));
    let back = decode_column::<u32>(&bytes);
    let mut expected = v1.clone();
    expected.extend_from_slice(&v2);
    assert_eq!(back, expected);
}

#[test]
fn u32_encoding_is_little_endian() {
    let bytes = encode_column::<u32>(&[0x01020304]);
    assert_eq!(bytes, vec![0x04, 0x03, 0x02, 0x01]);
    assert_eq!(u32::byte_width(), 4);
}

#[test]
fn bool_encoding_bytes() {
    let bytes = encode_column::<bool>(&[true, false]);
    assert_eq!(bytes, vec![1, 0]);
    assert_eq!(bool::byte_width(), 1);
    assert_eq!(u8::byte_width(), 1);
}

#[test]
fn bool_decode_treats_nonzero_as_true() {
    let back = decode_column::<bool>(&[0, 1, 2, 255]);
    assert_eq!(back, vec![false, true, true, true]);
}

#[test]
fn trailing_partial_chunk_is_dropped() {
    let bytes: Vec<u8> = vec![1, 0, 0, 0, 2, 0];
    let back = decode_column::<u32>(&bytes);
    assert_eq!(back, vec![1]);
}

#[test]
fn read_with_row_count_exact() {
    let bytes = encode_column::<u32>(&[7, 8, 9]);
    let back = read_plain_column_with_rows::<u32>(&bytes, 2).unwrap();
    assert_eq!(back, vec![7, 8]);
}

#[test]
fn read_with_row_count_short_buffer_fails() {
    let bytes = encode_column::<u32>(&[7]);
    assert!(read_plain_column_with_rows::<u32>(&bytes, 2).is_none());
}

#[test]
fn single_value_codec() {
    assert_eq!(u32::encode_le(&0xAABBCCDD), vec![0xDD, 0xCC, 0xBB, 0xAA]);
    assert_eq!(u32::decode_le(&[0xDD, 0xCC, 0xBB, 0xAA]), 0xAABBCCDD);
    assert_eq!(u8::encode_le(&9), vec![9]);
    assert_eq!(u8::decode_le(&[9]), 9);
    assert_eq!(bool::encode_le(&true), vec![1]);
    assert!(bool::decode_le(&[1]));
    assert!(!bool::decode_le(&[0]));
}
