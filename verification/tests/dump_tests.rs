//! End-to-end tests over hand-built metadata images.

use thin_metadata::bytes::block_checksum;
use thin_metadata::dump::{dump, DumpOptions, Event, RepairKind};
use thin_metadata::errors::DumpError;
use thin_metadata::extract::{extract_ranges, MapEntry, MappingRange};
use thin_metadata::image::Image;
use thin_metadata::node::NODE_CSUM_SALT;
use thin_metadata::space_map::BITMAP_CSUM_SALT;
use thin_metadata::superblock::{
    read_superblock, SuperblockOverrides, MAX_METADATA_VERSION, SUPERBLOCK_CSUM_SALT,
    SUPERBLOCK_MAGIC,
};
use thin_metadata::values::{DeviceDetails, LeafValue, ValueKind};
use thin_metadata::walk::btree_lookup;

const BS: usize = 4096;

fn le32(b: &mut Vec<u8>, off: usize, v: u32) {
    b[off..off + 4].copy_from_slice(&v.to_le_bytes());
}

fn le64(b: &mut Vec<u8>, off: usize, v: u64) {
    b[off..off + 8].copy_from_slice(&v.to_le_bytes());
}

fn seal(b: &mut Vec<u8>, salt: u32) {
    let c = block_checksum(b, salt);
    le32(b, 0, c);
}

#[allow(clippy::too_many_arguments)]
fn superblock_block(
    version: u32,
    data_block_size: u32,
    nr_metadata_blocks: u64,
    transaction_id: u64,
    nr_data_blocks: u64,
    metadata_sm_root: u64,
    details_root: u64,
    mapping_root: u64,
    snapshot_root: u64,
) -> Vec<u8> {
    let mut b = vec![0u8; BS];
    le64(&mut b, 4, SUPERBLOCK_MAGIC);
    le32(&mut b, 12, version);
    le32(&mut b, 16, data_block_size);
    le64(&mut b, 20, nr_metadata_blocks);
    le64(&mut b, 28, transaction_id);
    le64(&mut b, 36, nr_data_blocks);
    le64(&mut b, 44, metadata_sm_root);
    le64(&mut b, 52, 0); // data space-map root, unused by the dump
    le64(&mut b, 60, details_root);
    le64(&mut b, 68, mapping_root);
    le64(&mut b, 76, snapshot_root);
    seal(&mut b, SUPERBLOCK_CSUM_SALT);
    b
}

/// A node block; `values` are the encoded value bytes, one per key.
fn node_block(
    blocknr: u64,
    is_leaf: bool,
    max_entries: u32,
    value_size: u32,
    keys: &[u64],
    values: &[Vec<u8>],
) -> Vec<u8> {
    assert_eq!(keys.len(), values.len());
    let mut b = vec![0u8; BS];
    le32(&mut b, 4, if is_leaf { 2 } else { 1 });
    le64(&mut b, 8, blocknr);
    le32(&mut b, 16, keys.len() as u32);
    le32(&mut b, 20, max_entries);
    le32(&mut b, 24, value_size);
    let vbase = 32 + 8 * max_entries as usize;
    for (i, k) in keys.iter().enumerate() {
        le64(&mut b, 32 + 8 * i, *k);
    }
    for (i, v) in values.iter().enumerate() {
        assert_eq!(v.len(), value_size as usize);
        let off = vbase + value_size as usize * i;
        b[off..off + v.len()].copy_from_slice(v);
    }
    seal(&mut b, NODE_CSUM_SALT);
    b
}

fn ptr_value(p: u64) -> Vec<u8> {
    p.to_le_bytes().to_vec()
}

fn details_value(mapped: u64, tid: u64, ctime: u32, stime: u32) -> Vec<u8> {
    let mut v = vec![0u8; 24];
    v[0..8].copy_from_slice(&mapped.to_le_bytes());
    v[8..16].copy_from_slice(&tid.to_le_bytes());
    v[16..20].copy_from_slice(&ctime.to_le_bytes());
    v[20..24].copy_from_slice(&stime.to_le_bytes());
    v
}

fn mapping_value(data_block: u64, time: u32) -> Vec<u8> {
    let mut v = vec![0u8; 12];
    v[0..8].copy_from_slice(&data_block.to_le_bytes());
    v[8..12].copy_from_slice(&time.to_le_bytes());
    v
}

/// A bitmap block giving reference count 1 to blocks `0..nr_set`.
fn bitmap_block(blocknr: u64, nr_set: usize) -> Vec<u8> {
    let mut b = vec![0u8; BS];
    le64(&mut b, 4, blocknr);
    for i in 0..nr_set {
        b[16 + i / 4] |= 1 << (2 * (i % 4));
    }
    seal(&mut b, BITMAP_CSUM_SALT);
    b
}

fn image_of(blocks: Vec<Vec<u8>>) -> Image {
    let mut flat = Vec::new();
    for b in &blocks {
        flat.extend_from_slice(b);
    }
    Image::from_bytes(&flat).expect("whole blocks")
}

fn strict_opts() -> DumpOptions {
    DumpOptions {
        repair: false,
        skip_mappings: false,
        use_snapshot: false,
        overrides: SuperblockOverrides::none(),
    }
}

/// One device (id 1), virtual blocks 0..=99 mapped to 1000..=1099 at
/// time 0, spread over three leaves under one internal node.
/// Blocks: 0 superblock, 1 space-map index, 2 bitmap, 3 spare,
/// 4 details leaf, 5 top-level mapping leaf, 6 internal mapping node,
/// 7-9 mapping leaves.
fn pool_image() -> Vec<Vec<u8>> {
    let nb = 10u64;
    let sb = superblock_block(1, 128, nb, 1, 10000, 1, 4, 5, 0);
    let sm_index = node_block(1, true, 100, 8, &[0], &[ptr_value(2)]);
    let bitmap = bitmap_block(2, nb as usize);
    let spare = {
        let mut b = vec![0u8; BS];
        b[0] = 0xEE;
        b
    };
    let details = node_block(4, true, 100, 24, &[1], &[details_value(100, 1, 0, 0)]);
    let top = node_block(5, true, 100, 8, &[1], &[ptr_value(6)]);
    let inner = node_block(
        6,
        false,
        100,
        8,
        &[0, 40, 60],
        &[ptr_value(7), ptr_value(8), ptr_value(9)],
    );
    let leaf = |blocknr: u64, lo: u64, n: u64| {
        let keys: Vec<u64> = (lo..lo + n).collect();
        let vals: Vec<Vec<u8>> = (lo..lo + n).map(|k| mapping_value(1000 + k, 0)).collect();
        node_block(blocknr, true, 128, 12, &keys, &vals)
    };
    vec![
        sb,
        sm_index,
        bitmap,
        spare,
        details,
        top,
        inner,
        leaf(7, 0, 40),
        leaf(8, 40, 20),
        leaf(9, 60, 40),
    ]
}

fn range(vs: u64, ds: u64, len: u64, time: u32) -> MappingRange {
    MappingRange {
        virtual_start: vs,
        data_start: ds,
        length: len,
        time,
    }
}

#[test]
fn whole_pool_strict_dump_one_range() {
    // One device, 0..=99 -> 1000..=1099 at time 0: exactly one range.
    let im = image_of(pool_image());
    let d = dump(&im, strict_opts()).expect("clean image");
    assert!(d.repairs.is_empty());
    assert!(!d.repaired());
    let ev = &d.events;
    assert_eq!(ev.len(), 5);
    assert_eq!(
        ev[0],
        Event::BeginDocument {
            transaction_id: 1,
            data_block_size: 128,
            nr_data_blocks: 10000
        }
    );
    assert_eq!(
        ev[1],
        Event::BeginDevice {
            device_id: 1,
            details: DeviceDetails {
                mapped_blocks: 100,
                transaction_id: 1,
                creation_time: 0,
                snapshotted_time: 0
            }
        }
    );
    assert_eq!(
        ev[2],
        Event::Mapping {
            range: range(0, 1000, 100, 0)
        }
    );
    assert_eq!(ev[3], Event::EndDevice);
    assert_eq!(ev[4], Event::EndDocument);
}

#[test]
fn dumping_twice_is_identical() {
    let im = image_of(pool_image());
    let d1 = dump(&im, strict_opts()).expect("clean image");
    let d2 = dump(&im, strict_opts()).expect("clean image");
    assert_eq!(d1.events, d2.events);
    assert_eq!(d1.repairs, d2.repairs);
}

#[test]
fn corrupt_leaf_fails_strict_dump() {
    let mut blocks = pool_image();
    blocks[8][100] ^= 0xFF; // breaks the checksum of the 40..=59 leaf
    let im = image_of(blocks);
    assert_eq!(dump(&im, strict_opts()), Err(DumpError::CorruptNode(8)));
}

#[test]
fn corrupt_leaf_repair_dump_omits_exactly_its_range() {
    let mut blocks = pool_image();
    blocks[8][100] ^= 0xFF;
    let im = image_of(blocks);
    let mut opts = strict_opts();
    opts.repair = true;
    let d = dump(&im, opts).expect("repair mode carries on");
    assert!(d.repaired());
    assert_eq!(d.repairs.len(), 1);
    let r = &d.repairs[0];
    assert_eq!(r.kind, RepairKind::MappingNodeSkipped);
    assert_eq!(r.device_id, Some(1));
    assert_eq!(r.block, 8);
    assert_eq!(r.key_low, 40);
    assert_eq!(r.key_high, Some(60));
    let ranges: Vec<MappingRange> = d
        .events
        .iter()
        .filter_map(|e| match e {
            Event::Mapping { range } => Some(*range),
            _ => None,
        })
        .collect();
    assert_eq!(ranges, vec![range(0, 1000, 40, 0), range(60, 1060, 40, 0)]);
}

#[test]
fn range_lengths_sum_to_leaf_entries() {
    let im = image_of(pool_image());
    let d = dump(&im, strict_opts()).expect("clean image");
    let total: u64 = d
        .events
        .iter()
        .filter_map(|e| match e {
            Event::Mapping { range } => Some(range.length),
            _ => None,
        })
        .sum();
    assert_eq!(total, 100);
}

#[test]
fn extractor_counts_and_maximality() {
    let entries = vec![
        MapEntry { virtual_block: 0, data_block: 1000, time: 0 },
        MapEntry { virtual_block: 1, data_block: 1001, time: 0 },
        MapEntry { virtual_block: 5, data_block: 1005, time: 0 },
        MapEntry { virtual_block: 6, data_block: 2000, time: 0 },
        MapEntry { virtual_block: 7, data_block: 2001, time: 1 },
    ];
    let ranges = extract_ranges(&entries);
    assert_eq!(
        ranges,
        vec![
            range(0, 1000, 2, 0),
            range(5, 1005, 1, 0),
            range(6, 2000, 1, 0),
            range(7, 2001, 1, 1),
        ]
    );
    // Lengths sum to the entry count, and no two adjacent ranges are
    // mergeable: contiguity fails at every boundary.
    let total: u64 = ranges.iter().map(|r| r.length).sum();
    assert_eq!(total, entries.len() as u64);
    for w in ranges.windows(2) {
        let mergeable = w[1].virtual_start == w[0].virtual_start + w[0].length
            && w[1].data_start == w[0].data_start + w[0].length
            && w[1].time == w[0].time;
        assert!(!mergeable);
    }
}

#[test]
fn extractor_empty_input() {
    let ranges = extract_ranges(&Vec::new());
    assert!(ranges.is_empty());
}

#[test]
fn overrides_replace_fields_of_bad_superblock() {
    let mut blocks = pool_image();
    blocks[0][2000] ^= 0x5A; // breaks the superblock checksum
    let im = image_of(blocks);
    let o = SuperblockOverrides {
        transaction_id: Some(42),
        data_block_size: Some(256),
        nr_data_blocks: Some(5000),
    };
    let (sb, repaired) = read_superblock(&im, &o).expect("overrides substitute");
    assert!(repaired);
    assert_eq!(sb.transaction_id, 42);
    assert_eq!(sb.data_block_size, 256);
    assert_eq!(sb.nr_data_blocks, 5000);
    // Fields without an override keep their parsed values.
    assert_eq!(sb.metadata_sm_root, 1);
    assert_eq!(sb.details_root, 4);
    assert_eq!(sb.mapping_root, 5);
}

#[test]
fn partial_overrides_keep_parsed_values() {
    let mut blocks = pool_image();
    blocks[0][2000] ^= 0x5A;
    let im = image_of(blocks);
    let o = SuperblockOverrides {
        transaction_id: Some(7),
        data_block_size: None,
        nr_data_blocks: None,
    };
    let (sb, repaired) = read_superblock(&im, &o).expect("overrides substitute");
    assert!(repaired);
    assert_eq!(sb.transaction_id, 7);
    assert_eq!(sb.data_block_size, 128);
    assert_eq!(sb.nr_data_blocks, 10000);
}

#[test]
fn repaired_superblock_dump_reports_the_repair() {
    let mut blocks = pool_image();
    blocks[0][2000] ^= 0x5A;
    let im = image_of(blocks);
    let mut opts = strict_opts();
    opts.repair = true;
    opts.overrides.transaction_id = Some(9);
    let d = dump(&im, opts).expect("repaired superblock");
    assert_eq!(d.repairs.len(), 1);
    assert_eq!(d.repairs[0].kind, RepairKind::SuperblockOverridden);
    assert!(matches!(
        d.events[0],
        Event::BeginDocument { transaction_id: 9, .. }
    ));
}

#[test]
fn bad_superblock_without_overrides_is_fatal() {
    let mut blocks = pool_image();
    blocks[0][2000] ^= 0x5A;
    let im = image_of(blocks);
    assert_eq!(dump(&im, strict_opts()), Err(DumpError::CorruptSuperblock));
}

#[test]
fn newer_version_is_fatal_even_with_overrides() {
    let mut blocks = pool_image();
    let sb = superblock_block(MAX_METADATA_VERSION + 1, 128, 10, 1, 10000, 1, 4, 5, 0);
    blocks[0] = sb;
    let im = image_of(blocks);
    let mut opts = strict_opts();
    opts.repair = true;
    opts.overrides.transaction_id = Some(1);
    assert_eq!(dump(&im, opts), Err(DumpError::IncompatibleVersion));
}

#[test]
fn zero_override_is_rejected_before_traversal() {
    let im = image_of(pool_image());
    let mut opts = strict_opts();
    opts.repair = true;
    opts.overrides.nr_data_blocks = Some(0);
    assert_eq!(dump(&im, opts), Err(DumpError::InvalidOverride));
    opts.overrides.nr_data_blocks = None;
    opts.overrides.data_block_size = Some(0);
    assert_eq!(dump(&im, opts), Err(DumpError::InvalidOverride));
}

#[test]
fn empty_image_is_an_io_error() {
    let im = Image { blocks: Vec::new() };
    assert_eq!(dump(&im, strict_opts()), Err(DumpError::IoError));
}

#[test]
fn partial_block_is_refused() {
    assert!(Image::from_bytes(&vec![0u8; BS + 1]).is_none());
    assert!(Image::from_bytes(&Vec::new()).is_none());
    assert!(Image::from_bytes(&vec![0u8; 2 * BS]).is_some());
}

#[test]
fn missing_snapshot_root_is_fatal() {
    let im = image_of(pool_image());
    let mut opts = strict_opts();
    opts.use_snapshot = true;
    assert_eq!(dump(&im, opts), Err(DumpError::CorruptSuperblock));
}

#[test]
fn snapshot_root_is_read_instead_of_live_root() {
    let mut blocks = pool_image();
    // A frozen top-level tree in the spare block, holding no devices.
    blocks[3] = node_block(3, true, 100, 8, &[], &[]);
    blocks[0] = superblock_block(1, 128, 10, 1, 10000, 1, 4, 5, 3);
    let im = image_of(blocks);
    let mut opts = strict_opts();
    opts.use_snapshot = true;
    let d = dump(&im, opts).expect("snapshot tree is clean");
    // No devices: just the document frame.
    assert_eq!(d.events.len(), 2);
    assert!(matches!(d.events[0], Event::BeginDocument { .. }));
    assert_eq!(d.events[1], Event::EndDocument);
}

#[test]
fn skip_mappings_emits_summary_only() {
    let im = image_of(pool_image());
    let mut opts = strict_opts();
    opts.skip_mappings = true;
    let d = dump(&im, opts).expect("clean image");
    assert_eq!(d.events.len(), 4);
    assert!(matches!(d.events[1], Event::BeginDevice { device_id: 1, .. }));
    assert_eq!(d.events[2], Event::EndDevice);
    assert!(!d.events.iter().any(|e| matches!(e, Event::Mapping { .. })));
}

#[test]
fn missing_details_strict_fails_repair_substitutes() {
    let mut blocks = pool_image();
    // An empty details tree: the device has no details record.
    blocks[4] = node_block(4, true, 100, 24, &[], &[]);
    let im = image_of(blocks);
    assert_eq!(dump(&im, strict_opts()), Err(DumpError::CorruptNode(4)));
    let mut opts = strict_opts();
    opts.repair = true;
    let d = dump(&im, opts).expect("repair substitutes zero details");
    assert_eq!(d.repairs.len(), 1);
    assert_eq!(d.repairs[0].kind, RepairKind::MissingDetails);
    assert_eq!(d.repairs[0].device_id, Some(1));
    assert!(matches!(
        d.events[1],
        Event::BeginDevice {
            device_id: 1,
            details: DeviceDetails { mapped_blocks: 0, .. }
        }
    ));
}

#[test]
fn free_block_in_space_map_is_corruption() {
    let mut blocks = pool_image();
    // The bitmap marks only blocks 0..=5 as allocated, so the mapping
    // tree's nodes (6..=9) are recorded free: a corruption signal.
    blocks[2] = bitmap_block(2, 6);
    let im = image_of(blocks);
    assert_eq!(dump(&im, strict_opts()), Err(DumpError::CorruptNode(6)));
}

#[test]
fn corrupt_bitmap_is_fatal_in_strict_mode() {
    let mut blocks = pool_image();
    blocks[2][100] ^= 0xFF; // breaks the bitmap checksum
    let im = image_of(blocks);
    assert_eq!(dump(&im, strict_opts()), Err(DumpError::CorruptNode(2)));
}

#[test]
fn corrupt_bitmap_leaves_counts_unknown_in_repair_mode() {
    let mut blocks = pool_image();
    blocks[2][100] ^= 0xFF;
    let im = image_of(blocks);
    let mut opts = strict_opts();
    opts.repair = true;
    // Unknown counts are not corruption signals, so the dump is whole.
    let d = dump(&im, opts).expect("unknown counts pass the cross-check");
    assert_eq!(d.repairs.len(), 1);
    assert_eq!(d.repairs[0].kind, RepairKind::SpaceMapNodeSkipped);
    assert_eq!(d.repairs[0].block, 2);
    assert!(d
        .events
        .iter()
        .any(|e| *e == Event::Mapping { range: range(0, 1000, 100, 0) }));
}

#[test]
fn unsorted_keys_are_corrupt() {
    let mut blocks = pool_image();
    let keys: Vec<u64> = vec![5, 3];
    let vals = vec![mapping_value(1005, 0), mapping_value(1003, 0)];
    blocks[9] = node_block(9, true, 128, 12, &keys, &vals);
    let im = image_of(blocks);
    assert_eq!(dump(&im, strict_opts()), Err(DumpError::CorruptNode(9)));
}

#[test]
fn out_of_bounds_data_block_is_corrupt() {
    let mut blocks = pool_image();
    // nr_data_blocks is 10000; a mapping to 10000 is out of range.
    blocks[9] = node_block(9, true, 128, 12, &[60], &[mapping_value(10000, 0)]);
    let im = image_of(blocks);
    assert_eq!(dump(&im, strict_opts()), Err(DumpError::CorruptNode(9)));
}

#[test]
fn point_lookup_finds_mapped_and_unmapped_keys() {
    let im = image_of(pool_image());
    let kind = ValueKind::Mapping { nr_data_blocks: 10000 };
    assert_eq!(
        btree_lookup(&im, None, kind, 6, 50),
        Ok(Some(LeafValue::Mapping { data_block: 1050, time: 0 }))
    );
    assert_eq!(
        btree_lookup(&im, None, kind, 6, 99),
        Ok(Some(LeafValue::Mapping { data_block: 1099, time: 0 }))
    );
    assert_eq!(btree_lookup(&im, None, kind, 6, 100), Ok(None));
}

#[test]
fn point_lookup_reports_a_rejected_node() {
    let mut blocks = pool_image();
    blocks[8][100] ^= 0xFF;
    let im = image_of(blocks);
    let kind = ValueKind::Mapping { nr_data_blocks: 10000 };
    assert_eq!(
        btree_lookup(&im, None, kind, 6, 45),
        Err(DumpError::CorruptNode(8))
    );
    // Keys owned by intact leaves are still answered.
    assert_eq!(
        btree_lookup(&im, None, kind, 6, 10),
        Ok(Some(LeafValue::Mapping { data_block: 1010, time: 0 }))
    );
}

#[test]
fn keys_escaping_parent_bounds_are_corrupt() {
    let mut blocks = pool_image();
    // Leaf 8 is promised keys in [40, 60) by its parent; key 39 escapes.
    let keys: Vec<u64> = (39..59).collect();
    let vals: Vec<Vec<u8>> = (39..59).map(|k| mapping_value(1000 + k, 0)).collect();
    blocks[8] = node_block(8, true, 128, 12, &keys, &vals);
    let im = image_of(blocks);
    assert_eq!(dump(&im, strict_opts()), Err(DumpError::CorruptNode(8)));
}
