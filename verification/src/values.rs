//! Leaf-value codecs for the B-tree reader.
//!
//! Every tree in the metadata carries one of three value types in its
//! leaves: a bare block pointer (space-map index trees and the top-level
//! mapping tree), a device-details record, or a virtual-block mapping.

use vstd::prelude::*;
use crate::bytes::{spec_le_u32, spec_le_u64, read_le_u32, read_le_u64};

verus! {

/// Per virtual-device record from the device-details tree.
#[derive(Clone, Copy, Debug, PartialEq, Eq, Structural)]
pub struct DeviceDetails {
    /// Number of data blocks currently mapped by the device.
    pub mapped_blocks: u64,
    /// Transaction id under which the device was created.
    pub transaction_id: u64,
    /// Creation time stamp.
    pub creation_time: u32,
    /// Time stamp of the last snapshot taken of the device.
    pub snapshotted_time: u32,
}

impl DeviceDetails {
    /// The all-zero record substituted when a device's details cannot
    /// be read in repair mode.
    pub fn unknown() -> (r: DeviceDetails)
        ensures
            r == (DeviceDetails {
                mapped_blocks: 0u64,
                transaction_id: 0u64,
                creation_time: 0u32,
                snapshotted_time: 0u32,
            }),
    {
        DeviceDetails { mapped_blocks: 0, transaction_id: 0, creation_time: 0, snapshotted_time: 0 }
    }
}

/// Which value type the leaves of a tree carry.
#[derive(Clone, Copy, Debug, PartialEq, Eq, Structural)]
pub enum ValueKind {
    /// An 8-byte pointer to another metadata block.
    BlockPtr,
    /// A 24-byte device-details record.
    Details,
    /// A 12-byte mapping to a data block; the data block must lie below
    /// the pool's data block count.
    Mapping { nr_data_blocks: u64 },
}

/// A decoded leaf value.
#[derive(Clone, Copy, Debug, PartialEq, Eq, Structural)]
pub enum LeafValue {
    Block(u64),
    Details(DeviceDetails),
    Mapping { data_block: u64, time: u32 },
}

/// Encoded size in bytes of a value of kind `k`.
pub open spec fn spec_value_size(k: ValueKind) -> int {
    match k {
        ValueKind::BlockPtr => 8,
        ValueKind::Details => 24,
        ValueKind::Mapping { .. } => 12,
    }
}

/// Encoded size in bytes of a value of kind `k`.
pub fn value_size(k: ValueKind) -> (r: u32)
    ensures
        r as int == spec_value_size(k),
{
    match k {
        ValueKind::BlockPtr => 8,
        ValueKind::Details => 24,
        ValueKind::Mapping { .. } => 12,
    }
}

/// The value of kind `k` stored at `off`.
pub open spec fn spec_decode_value(k: ValueKind, b: Seq<u8>, off: int) -> LeafValue {
    match k {
        ValueKind::BlockPtr => LeafValue::Block(spec_le_u64(b, off) as u64),
        ValueKind::Details => LeafValue::Details(
            DeviceDetails {
                mapped_blocks: spec_le_u64(b, off) as u64,
                transaction_id: spec_le_u64(b, off + 8) as u64,
                creation_time: spec_le_u32(b, off + 16) as u32,
                snapshotted_time: spec_le_u32(b, off + 20) as u32,
            },
        ),
        ValueKind::Mapping { .. } => LeafValue::Mapping {
            data_block: spec_le_u64(b, off) as u64,
            time: spec_le_u32(b, off + 8) as u32,
        },
    }
}

/// A decoded value is sound for its kind: a mapping may not point at a
/// data block beyond the pool's data block count.
pub open spec fn spec_value_ok(k: ValueKind, v: LeafValue) -> bool {
    match k {
        ValueKind::Mapping { nr_data_blocks } => match v {
            LeafValue::Mapping { data_block, .. } => data_block < nr_data_blocks,
            _ => true,
        },
        _ => true,
    }
}

/// Decodes the value of kind `k` stored at `off`.
pub fn decode_value(k: ValueKind, b: &Vec<u8>, off: usize) -> (r: LeafValue)
    requires
        off + spec_value_size(k) <= b@.len(),
    ensures
        r == spec_decode_value(k, b@, off as int),
{
    // Reading the length tells the verifier the offsets fit in usize.
    let _n = b.len();
    match k {
        ValueKind::BlockPtr => LeafValue::Block(read_le_u64(b, off)),
        ValueKind::Details => LeafValue::Details(
            DeviceDetails {
                mapped_blocks: read_le_u64(b, off),
                transaction_id: read_le_u64(b, off + 8),
                creation_time: read_le_u32(b, off + 16),
                snapshotted_time: read_le_u32(b, off + 20),
            },
        ),
        ValueKind::Mapping { .. } => LeafValue::Mapping {
            data_block: read_le_u64(b, off),
            time: read_le_u32(b, off + 8),
        },
    }
}

/// Tests whether a decoded value is sound for its kind.
pub fn value_ok(k: ValueKind, v: &LeafValue) -> (r: bool)
    ensures
        r == spec_value_ok(k, *v),
{
    match k {
        ValueKind::Mapping { nr_data_blocks } => match v {
            LeafValue::Mapping { data_block, .. } => *data_block < nr_data_blocks,
            _ => true,
        },
        _ => true,
    }
}

} // verus!
