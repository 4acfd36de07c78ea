use storage_rocksdb::bytes::be_bytes;
use storage_rocksdb::error::{ErrorCode, StorageError};
use storage_rocksdb::region::column_family_names;
use storage_rocksdb::store::{decode_full_block, load_outcome, prepare_read, prepare_store};
use storage_rocksdb::{check_key, check_region, check_value, clap_about};

#[test]
fn regions_below_button_are_valid() {
    for region in 0..14u32 {
        assert!(check_region(region));
    }
    assert!(!check_region(14));
    assert!(!check_region(15));
    assert!(!check_region(u32::MAX));
}

#[test]
fn hash_keyed_regions_take_32_byte_keys() {
    for region in [1u32, 7, 8, 9] {
        assert!(check_key(region, &[0u8; 32]));
        assert!(!check_key(region, &[0u8; 8]));
        assert!(!check_key(region, &[]));
    }
    for region in [0u32, 2, 3, 4, 5, 6, 10, 11, 12, 13, 100] {
        assert!(check_key(region, &[0u8; 8]));
        assert!(!check_key(region, &[0u8; 32]));
        assert!(!check_key(region, &[0u8; 7]));
    }
}

#[test]
fn value_lengths_per_region() {
    assert!(check_value(4, &[1u8; 32]));
    assert!(!check_value(4, &[1u8; 8]));
    assert!(check_value(6, &[1u8; 32]));
    assert!(!check_value(6, &[]));
    assert!(check_value(7, &[1u8; 8]));
    assert!(!check_value(7, &[1u8; 32]));
    assert!(check_value(8, &[1u8; 8]));
    assert!(!check_value(8, &[1u8; 9]));
    for region in [0u32, 1, 2, 3, 5, 9, 10, 11] {
        assert!(check_value(region, &[]));
        assert!(check_value(region, &[7u8; 1000]));
    }
}

fn generated_key(region: u32) -> Vec<u8> {
    match region {
        1 | 7 | 8 | 9 | 10 => {
            let mut k = Vec::new();
            for i in 0..4u64 {
                k.extend_from_slice(&(i * 77).to_be_bytes());
            }
            k
        }
        _ => 42u64.to_be_bytes().to_vec(),
    }
}

fn generated_value(region: u32) -> Vec<u8> {
    match region {
        7 | 8 | 9 => 5u64.to_be_bytes().to_vec(),
        _ => {
            let mut v = Vec::new();
            for i in 0..4u64 {
                v.extend_from_slice(&(i + 3).to_be_bytes());
            }
            v
        }
    }
}

#[test]
fn generated_entries_are_accepted() {
    for region in 0..10u32 {
        let name = prepare_store(region, &generated_key(region), &generated_value(region)).unwrap();
        assert_eq!(name, region.to_string());
        assert_eq!(prepare_read(region, &generated_key(region)).unwrap(), region.to_string());
    }
}

#[test]
fn store_checks_come_in_order() {
    assert!(matches!(prepare_store(14, &[], &[]), Err(StorageError::InvalidRegion)));
    assert!(matches!(prepare_store(1, &[0u8; 8], &[0u8; 3]), Err(StorageError::InvalidKey)));
    assert!(matches!(prepare_store(4, &[0u8; 8], &[0u8; 3]), Err(StorageError::InvalidValue)));
    assert!(matches!(prepare_store(12, &[0u8; 8], &[0u8; 3]), Err(StorageError::BadRegion)));
    assert!(matches!(prepare_store(11, &[0u8; 8], &[0u8; 3]), Err(StorageError::BadRegion)));
    assert!(matches!(prepare_read(13, &[0u8; 8]), Err(StorageError::BadRegion)));
    assert!(matches!(prepare_read(14, &[0u8; 8]), Err(StorageError::InvalidRegion)));
    assert_eq!(prepare_read(10, &[0u8; 8]).unwrap(), "10");
    assert!(matches!(prepare_read(20, &[0u8; 8]), Err(StorageError::InvalidRegion)));
    assert!(matches!(prepare_read(9, &[0u8; 8]), Err(StorageError::InvalidKey)));
    assert!(matches!(decode_full_block(&[0u8; 7], &[]), Err(StorageError::InvalidKey)));
    assert!(matches!(decode_full_block(&[0u8; 8], &[0xFF]), Err(StorageError::DecodeBlock)));
    assert!(decode_full_block(&[0u8; 8], &[]).is_ok());
}

#[test]
fn lookup_outcomes() {
    assert_eq!(load_outcome(Some(vec![1, 2, 3])).unwrap(), vec![1, 2, 3]);
    assert!(matches!(load_outcome(None), Err(StorageError::NotFound)));
}

#[test]
fn column_families_cover_regions_below_full_block() {
    let names = column_family_names();
    let expected: Vec<String> = (0..11).map(|i: u32| i.to_string()).collect();
    assert_eq!(names, expected);
}

#[test]
fn error_codes_and_messages() {
    assert_eq!(StorageError::InvalidRegion.code(), ErrorCode::InvalidArgument);
    assert_eq!(StorageError::InvalidRegion.message(), "invalid region");
    assert_eq!(StorageError::InvalidKey.message(), "invalid key");
    assert_eq!(StorageError::InvalidValue.message(), "invalid value");
    assert_eq!(StorageError::BadRegion.code(), ErrorCode::Aborted);
    assert_eq!(StorageError::BadRegion.message(), "bad region");
    assert_eq!(StorageError::NotFound.code(), ErrorCode::NotFound);
    assert_eq!(StorageError::NotFound.message(), "key not found");
    let e = StorageError::Engine("IO error".to_string());
    assert_eq!(e.code(), ErrorCode::Aborted);
    assert_eq!(e.message(), "store error: IO error");
    assert_eq!(StorageError::DecodeBlock.message(), "decode Block failed");
    assert_eq!(StorageError::BlockBodyNotFound.message(), "block body not found");
    assert_eq!(StorageError::NoTxHash.message(), "can not get tx hash");
    assert_eq!(StorageError::NoTxHash.code(), ErrorCode::InvalidArgument);
    assert_eq!(StorageError::EncodeRawTransaction.message(), "encode RawTransaction failed");
    assert_eq!(StorageError::EncodeCompactBlock.message(), "encode CompactBlock failed");
    assert_eq!(StorageError::DecodeCompactBlock.message(), "decode CompactBlock failed");
    assert_eq!(StorageError::EncodeBlock.message(), "encode Block failed");
    assert_eq!(StorageError::DecodeRawTransaction.message(), "decode RawTransaction failed");
    assert_eq!(StorageError::NoBlockHeader.message(), "block header not found");
    assert_eq!(StorageError::EncodeBlockHeader.message(), "encode BlockHeader failed");
    let h = StorageError::BlockHash("no header".to_string());
    assert_eq!(h.code(), ErrorCode::Aborted);
    assert_eq!(h.message(), "get block hash failed: no header");
}

#[test]
fn big_endian_bytes() {
    assert_eq!(be_bytes(0), vec![0u8; 8]);
    assert_eq!(be_bytes(1), vec![0, 0, 0, 0, 0, 0, 0, 1]);
    assert_eq!(be_bytes(0x0102030405060708), vec![1, 2, 3, 4, 5, 6, 7, 8]);
    assert_eq!(be_bytes(u64::MAX), u64::MAX.to_be_bytes().to_vec());
}

#[test]
fn about_text() {
    assert_eq!(clap_about(), "storage service");
}
