//! Unit tests of the low-level pieces.

use thin_metadata::bytes::{block_checksum, read_le_u32, read_le_u64};
use thin_metadata::errors::DumpError;
use thin_metadata::space_map::{SpaceMap, UNKNOWN_COUNT};

#[test]
fn little_endian_fields() {
    let b: Vec<u8> = vec![0x78, 0x56, 0x34, 0x12, 0xEF, 0xCD, 0xAB, 0x89];
    assert_eq!(read_le_u32(&b, 0), 0x1234_5678);
    assert_eq!(read_le_u32(&b, 4), 0x89AB_CDEF);
    assert_eq!(read_le_u64(&b, 0), 0x89AB_CDEF_1234_5678);
}

#[test]
fn checksum_is_salted_byte_sum() {
    let b: Vec<u8> = vec![9, 9, 9, 9, 1, 2, 3];
    // The first four bytes hold the stored checksum and are not summed.
    assert_eq!(block_checksum(&b, 0), 6);
    assert_eq!(block_checksum(&b, 1000), 1006);
    let empty_payload: Vec<u8> = vec![1, 2, 3, 4];
    assert_eq!(block_checksum(&empty_payload, 7), 7);
}

#[test]
fn space_map_lookup_distinguishes_unknown() {
    let sm = SpaceMap { counts: vec![0, 1, 2, UNKNOWN_COUNT] };
    assert_eq!(sm.nr_blocks(), 4);
    assert_eq!(sm.lookup(0), Some(0));
    assert_eq!(sm.lookup(1), Some(1));
    assert_eq!(sm.lookup(3), None); // unreadable bitmap
    assert_eq!(sm.lookup(4), None); // beyond the map
    assert!(sm.known_free(0));
    assert!(!sm.known_free(3));
    assert!(!sm.known_free(100));
}

#[test]
fn error_descriptions_are_stable() {
    assert_eq!(
        DumpError::CorruptNode(7).describe(),
        "corrupt btree node"
    );
    assert_eq!(
        DumpError::InvalidOverride.describe(),
        "override value is invalid"
    );
}
