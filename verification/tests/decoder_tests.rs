use colstore::catalog::{ColumType, ColumnMetadata, ColumnTypeCheck, TableMetadata};
use colstore::col_file::encode_column;
use colstore::column_decoder::{
    encode_null_mask, is_bit_set, ColumnDecodeError, ColumnDecoder,
};

fn mmap_from(bytes: &[u8]) -> memmap2::Mmap {
    let mut map = memmap2::MmapOptions::new()
        .len(bytes.len().max(1))
        .map_anon()
        .unwrap();
    map[..bytes.len()].copy_from_slice(bytes);
    map.make_read_only().unwrap()
}

fn plain_column(name: &str, data_type: ColumType, offset: usize, length: usize) -> ColumnMetadata {
    ColumnMetadata {
        name: name.to_string(),
        data_type,
        offset,
        length,
        null_mask_offset: None,
        null_mask_length: None,
    }
}

#[test]
fn test_01() {}

#[test]
fn test_02() {}

#[test]
fn bitmask_roundtrip() {
    let patterns: Vec<Vec<bool>> = vec![
        vec![],
        vec![true],
        vec![false],
        vec![true, false, true, true, false, false, true, false, true],
        (0..64).map(|i| i % 3 == 0).collect(),
    ];
    for p in patterns {
        let mask = encode_null_mask(&p);
        assert_eq!(mask.len(), (p.len() + 7) / 8);
        for (i, &b) in p.iter().enumerate() {
            assert_eq!(is_bit_set(&mask, i), b, "bit {} of {:?}", i, p);
        }
    }
}

#[test]
fn bitmask_last_byte_boundary() {
    // 16 rows: byte index of rows 8..16 is 1, the last valid mask byte.
    let p: Vec<bool> = (0..16).map(|i| i >= 8 && i % 2 == 0).collect();
    let mask = encode_null_mask(&p);
    assert_eq!(mask.len(), 2);
    for i in 8..16 {
        assert_eq!(is_bit_set(&mask, i), i % 2 == 0);
    }
}

#[test]
fn bitmask_out_of_range_reads_as_null() {
    let mask = encode_null_mask(&[true; 8]);
    assert_eq!(mask.len(), 1);
    assert!(!is_bit_set(&mask, 8));
    assert!(!is_bit_set(&mask, 100));
    assert!(!is_bit_set(&[], 0));
}

#[test]
fn bitmask_known_byte() {
    let mask = encode_null_mask(&[true, false, true, true]);
    assert_eq!(mask, vec![0b0000_1101]);
}

#[test]
fn typed_slice_roundtrip_through_mapping() {
    let values: Vec<u32> = vec![5, 6, 7];
    let bytes = encode_column::<u32>(&values);
    let table = TableMetadata {
        name: "t".to_string(),
        columns: vec![plain_column("c", ColumType::Int32, 0, bytes.len())],
        num_rows: values.len(),
    };
    let decoder = ColumnDecoder::new(mmap_from(&bytes), table);
    let got = decoder.get_column_as_slice::<u32>(&"c".to_string()).unwrap();
    assert_eq!(got, values);
    let raw = decoder.get_column_bytes(&"c".to_string()).unwrap();
    assert_eq!(raw, &bytes[..]);
}

#[test]
fn type_mismatch_is_reported_and_returns_no_data() {
    let bytes = encode_column::<bool>(&[true, false]);
    let table = TableMetadata {
        name: "t".to_string(),
        columns: vec![plain_column("flag", ColumType::Bool, 0, bytes.len())],
        num_rows: 2,
    };
    let decoder = ColumnDecoder::new(mmap_from(&bytes), table);
    let err = decoder.get_column_as_slice::<u32>(&"flag".to_string()).unwrap_err();
    assert_eq!(
        err,
        ColumnDecodeError::TypeMismatch {
            required: u32::get_column_type(),
            actual: ColumType::Bool,
        }
    );
    assert_eq!(u32::get_column_type(), ColumType::Int32);
}

#[test]
fn out_of_bounds_range_is_an_error_not_a_read() {
    let bytes = [0u8; 8];
    let table = TableMetadata {
        name: "t".to_string(),
        columns: vec![plain_column("c", ColumType::Int32, 4, 8)],
        num_rows: 0,
    };
    let decoder = ColumnDecoder::new(mmap_from(&bytes), table);
    assert_eq!(
        decoder.get_column_as_slice::<u32>(&"c".to_string()).unwrap_err(),
        ColumnDecodeError::OutOfBounds
    );
    assert!(decoder.get_column_bytes(&"c".to_string()).is_none());
}

#[test]
fn unknown_column_is_an_error() {
    let decoder = ColumnDecoder::new(
        mmap_from(&[0u8; 4]),
        TableMetadata { name: "t".to_string(), columns: vec![], num_rows: 0 },
    );
    assert_eq!(
        decoder.get_column_as_slice::<u32>(&"nope".to_string()).unwrap_err(),
        ColumnDecodeError::ColumnNotFound
    );
    assert!(decoder.get_column_bytes(&"nope".to_string()).is_none());
}

#[test]
fn ragged_length_is_an_error() {
    let bytes = [1u8; 6];
    let table = TableMetadata {
        name: "t".to_string(),
        columns: vec![plain_column("c", ColumType::Int32, 0, 6)],
        num_rows: 1,
    };
    let decoder = ColumnDecoder::new(mmap_from(&bytes), table);
    assert_eq!(
        decoder.get_column_as_slice::<u32>(&"c".to_string()).unwrap_err(),
        ColumnDecodeError::SizeInvalid
    );
}

#[test]
fn nullable_extraction() {
    let values: Vec<u32> = vec![10, 20, 30, 40];
    let mut bytes = encode_column::<u32>(&values);
    bytes.push(0b0000_1101);
    let col = ColumnMetadata {
        name: "v".to_string(),
        data_type: ColumType::Int32,
        offset: 0,
        length: 16,
        null_mask_offset: Some(16),
        null_mask_length: Some(1),
    };
    let table = TableMetadata { name: "t".to_string(), columns: vec![col], num_rows: 4 };
    let decoder = ColumnDecoder::new(mmap_from(&bytes), table);
    let got = decoder.get_nullable_column_as_vec::<u32>(&"v".to_string()).unwrap();
    assert_eq!(got, vec![Some(10), None, Some(30), Some(40)]);
}

#[test]
fn nullable_without_mask_is_an_error() {
    let bytes = encode_column::<u32>(&[1, 2]);
    let table = TableMetadata {
        name: "t".to_string(),
        columns: vec![plain_column("c", ColumType::Int32, 0, 8)],
        num_rows: 2,
    };
    let decoder = ColumnDecoder::new(mmap_from(&bytes), table);
    assert_eq!(
        decoder.get_nullable_column_as_vec::<u32>(&"c".to_string()).unwrap_err(),
        ColumnDecodeError::MissingNullMask
    );
}

#[test]
fn segment_end_to_end() {
    let user_ids: Vec<u32> = vec![100, 101];
    let ages: Vec<u8> = vec![30, 25];
    let is_active: Vec<bool> = vec![true, false];

    let mut region = encode_column::<u32>(&user_ids);
    let age_offset = region.len();
    region.extend_from_slice(&encode_column::<u8>(&ages));
    let active_offset = region.len();
    region.extend_from_slice(&encode_column::<bool>(&is_active));

    let table = TableMetadata {
        name: "users".to_string(),
        columns: vec![
            plain_column("user_id", ColumType::Int32, 0, 8),
            plain_column("age", ColumType::Int64, age_offset, 2),
            plain_column("is_active", ColumType::Bool, active_offset, 2),
        ],
        num_rows: 2,
    };
    let decoder = ColumnDecoder::new(mmap_from(&region), table);
    assert_eq!(
        decoder.get_column_as_slice::<u32>(&"user_id".to_string()).unwrap(),
        vec![100, 101]
    );
    assert_eq!(
        decoder.get_column_as_slice::<bool>(&"is_active".to_string()).unwrap(),
        vec![true, false]
    );
    assert_eq!(decoder.get_column_bytes(&"age".to_string()).unwrap(), &[30, 25]);
}

#[test]
fn lookup_returns_first_match() {
    let bytes = [1u8, 2u8];
    let table = TableMetadata {
        name: "t".to_string(),
        columns: vec![
            plain_column("c", ColumType::Bool, 0, 1),
            plain_column("c", ColumType::Bool, 1, 1),
        ],
        num_rows: 1,
    };
    let decoder = ColumnDecoder::new(mmap_from(&bytes), table);
    assert_eq!(decoder.get_column_bytes(&"c".to_string()).unwrap(), &[1u8]);
}

#[test]
fn catalog_widths_are_fixed() {
    assert_eq!(ColumType::Int32.byte_width(), 4);
    assert_eq!(ColumType::Int64.byte_width(), 8);
    assert_eq!(ColumType::Float64.byte_width(), 8);
    assert_eq!(ColumType::Bool.byte_width(), 1);
}

#[test]
fn type_identity_tags() {
    assert_eq!(i32::get_column_type(), ColumType::Int32);
    assert_eq!(i64::get_column_type(), ColumType::Int64);
    assert_eq!(bool::get_column_type(), ColumType::Bool);
    assert_eq!(u32::get_column_type(), ColumType::Int32);
}
