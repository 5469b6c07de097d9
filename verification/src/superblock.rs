//! Superblock parsing, validation and administrator overrides.
//!
//! Block 0 of the image holds the superblock:
//!
//! | offset | field                 |
//! |--------|-----------------------|
//! | 0      | checksum (u32)        |
//! | 4      | magic (u64)           |
//! | 12     | version (u32)         |
//! | 16     | data block size (u32, sectors) |
//! | 20     | nr metadata blocks (u64) |
//! | 28     | transaction id (u64)  |
//! | 36     | nr data blocks (u64)  |
//! | 44     | metadata space-map root (u64) |
//! | 52     | data space-map root (u64) |
//! | 60     | device-details tree root (u64) |
//! | 68     | live mapping tree root (u64) |
//! | 76     | metadata-snapshot mapping root (u64, 0 = none) |

use vstd::prelude::*;
use crate::bytes::{spec_le_u32, spec_le_u64, spec_checksum, read_le_u32, read_le_u64,
    block_checksum, BLOCK_SIZE};
use crate::errors::DumpError;
use crate::image::Image;

verus! {

/// Magic number identifying a pool superblock.
pub const SUPERBLOCK_MAGIC: u64 = 27022010;

/// Checksum salt for the superblock.
pub const SUPERBLOCK_CSUM_SALT: u32 = 0x005b_1c95;

/// Highest metadata format version this engine understands.
pub const MAX_METADATA_VERSION: u32 = 2;

/// The pool-wide fields of the superblock, after validation or repair.
#[derive(Clone, Copy, Debug, PartialEq, Eq, Structural)]
pub struct Superblock {
    pub version: u32,
    pub data_block_size: u32,
    pub nr_metadata_blocks: u64,
    pub transaction_id: u64,
    pub nr_data_blocks: u64,
    pub metadata_sm_root: u64,
    pub data_sm_root: u64,
    pub details_root: u64,
    pub mapping_root: u64,
    pub snapshot_root: u64,
}

/// Administrator-supplied replacement values, used only when the
/// superblock fails validation.
#[derive(Clone, Copy, Debug, PartialEq, Eq)]
pub struct SuperblockOverrides {
    pub transaction_id: Option<u64>,
    pub data_block_size: Option<u32>,
    pub nr_data_blocks: Option<u64>,
}

impl SuperblockOverrides {
    /// Overrides with no field set.
    pub fn none() -> (r: SuperblockOverrides)
        ensures
            r.transaction_id is None,
            r.data_block_size is None,
            r.nr_data_blocks is None,
    {
        SuperblockOverrides { transaction_id: None, data_block_size: None, nr_data_blocks: None }
    }
}

/// At least one override value was supplied.
pub open spec fn spec_overrides_present(o: SuperblockOverrides) -> bool {
    o.transaction_id is Some || o.data_block_size is Some || o.nr_data_blocks is Some
}

/// A supplied override that no pool geometry could satisfy: a zero data
/// block size or a zero data block count.
pub open spec fn spec_overrides_invalid(o: SuperblockOverrides) -> bool {
    o.data_block_size == Some(0u32) || o.nr_data_blocks == Some(0u64)
}

/// The superblock fields exactly as stored in block `b`, with no
/// validation applied.
pub open spec fn spec_raw_superblock(b: Seq<u8>) -> Superblock {
    Superblock {
        version: spec_le_u32(b, 12) as u32,
        data_block_size: spec_le_u32(b, 16) as u32,
        nr_metadata_blocks: spec_le_u64(b, 20) as u64,
        transaction_id: spec_le_u64(b, 28) as u64,
        nr_data_blocks: spec_le_u64(b, 36) as u64,
        metadata_sm_root: spec_le_u64(b, 44) as u64,
        data_sm_root: spec_le_u64(b, 52) as u64,
        details_root: spec_le_u64(b, 60) as u64,
        mapping_root: spec_le_u64(b, 68) as u64,
        snapshot_root: spec_le_u64(b, 76) as u64,
    }
}

/// A superblock block passes validation when its magic, checksum and
/// data block size are all sound.
pub open spec fn spec_superblock_valid(b: Seq<u8>) -> bool {
    &&& spec_le_u64(b, 4) == SUPERBLOCK_MAGIC
    &&& spec_le_u32(b, 0) == spec_checksum(b, SUPERBLOCK_CSUM_SALT)
    &&& spec_le_u32(b, 16) > 0
}

/// Replaces each field for which an override was supplied.
pub open spec fn spec_apply_overrides(sb: Superblock, o: SuperblockOverrides) -> Superblock {
    Superblock {
        transaction_id: match o.transaction_id {
            Some(t) => t,
            None => sb.transaction_id,
        },
        data_block_size: match o.data_block_size {
            Some(s) => s,
            None => sb.data_block_size,
        },
        nr_data_blocks: match o.nr_data_blocks {
            Some(n) => n,
            None => sb.nr_data_blocks,
        },
        ..sb
    }
}

/// What reading the superblock of image `im` under overrides `o` yields:
/// the parsed (or repaired) superblock and whether repair was applied.
///
/// An empty image cannot be read at all.  A recognisable superblock
/// whose version is too new is fatal whatever the overrides.  A valid
/// superblock is returned as parsed.  An invalid one is returned with
/// the overrides substituted — without any checksum validation — when
/// at least one override is present, and is fatal otherwise.
pub open spec fn spec_read_superblock(im: Seq<Seq<u8>>, o: SuperblockOverrides) -> Result<
    (Superblock, bool),
    DumpError,
> {
    if im.len() == 0 {
        Err(DumpError::IoError)
    } else {
        let b = im[0];
        let sb = spec_raw_superblock(b);
        if spec_le_u64(b, 4) == SUPERBLOCK_MAGIC && sb.version > MAX_METADATA_VERSION {
            Err(DumpError::IncompatibleVersion)
        } else if spec_superblock_valid(b) {
            Ok((sb, false))
        } else if spec_overrides_present(o) {
            Ok((spec_apply_overrides(sb, o), true))
        } else {
            Err(DumpError::CorruptSuperblock)
        }
    }
}

/// Reads and validates the superblock, substituting overrides when
/// validation fails, exactly as `spec_read_superblock` describes.
/// The returned flag reports that overrides were substituted, so the
/// caller can surface a repair notice.
pub fn read_superblock(im: &Image, o: &SuperblockOverrides) -> (r: Result<
    (Superblock, bool),
    DumpError,
>)
    requires
        im.wf(),
    ensures
        r == spec_read_superblock(im@, *o),
{
    let blk = match im.get_block(0) {
        Some(blk) => blk,
        None => {
            return Err(DumpError::IoError);
        },
    };
    assert(blk@.len() == BLOCK_SIZE);
    let magic = read_le_u64(blk, 4);
    let stored_csum = read_le_u32(blk, 0);
    let sb = Superblock {
        version: read_le_u32(blk, 12),
        data_block_size: read_le_u32(blk, 16),
        nr_metadata_blocks: read_le_u64(blk, 20),
        transaction_id: read_le_u64(blk, 28),
        nr_data_blocks: read_le_u64(blk, 36),
        metadata_sm_root: read_le_u64(blk, 44),
        data_sm_root: read_le_u64(blk, 52),
        details_root: read_le_u64(blk, 60),
        mapping_root: read_le_u64(blk, 68),
        snapshot_root: read_le_u64(blk, 76),
    };
    if magic == SUPERBLOCK_MAGIC && sb.version > MAX_METADATA_VERSION {
        return Err(DumpError::IncompatibleVersion);
    }
    let computed = block_checksum(blk, SUPERBLOCK_CSUM_SALT);
    if magic == SUPERBLOCK_MAGIC && stored_csum == computed && sb.data_block_size > 0 {
        Ok((sb, false))
    } else if o.transaction_id.is_some() || o.data_block_size.is_some()
        || o.nr_data_blocks.is_some() {
        let repaired = Superblock {
            transaction_id: match o.transaction_id {
                Some(t) => t,
                None => sb.transaction_id,
            },
            data_block_size: match o.data_block_size {
                Some(s) => s,
                None => sb.data_block_size,
            },
            nr_data_blocks: match o.nr_data_blocks {
                Some(n) => n,
                None => sb.nr_data_blocks,
            },
            ..sb
        };
        Ok((repaired, true))
    } else {
        Err(DumpError::CorruptSuperblock)
    }
}

/// Law: overrides applied to a superblock that fails validation (for
/// instance one with a bad checksum) yield a superblock whose overridden
/// fields equal the supplied values exactly, whose remaining fields are
/// the parsed ones, and whose checksum is never re-validated — the read
/// succeeds and reports the repair.
pub proof fn lemma_overrides_respected(im: Seq<Seq<u8>>, o: SuperblockOverrides)
    requires
        im.len() > 0,
        !spec_superblock_valid(im[0]),
        !(spec_le_u64(im[0], 4) == SUPERBLOCK_MAGIC && spec_raw_superblock(im[0]).version
            > MAX_METADATA_VERSION),
        spec_overrides_present(o),
    ensures
        ({
            let raw = spec_raw_superblock(im[0]);
            let r = spec_read_superblock(im, o);
            &&& r is Ok
            &&& r->Ok_0.1 == true
            &&& r->Ok_0.0.transaction_id == (if o.transaction_id is Some {
                o.transaction_id->0
            } else {
                raw.transaction_id
            })
            &&& r->Ok_0.0.data_block_size == (if o.data_block_size is Some {
                o.data_block_size->0
            } else {
                raw.data_block_size
            })
            &&& r->Ok_0.0.nr_data_blocks == (if o.nr_data_blocks is Some {
                o.nr_data_blocks->0
            } else {
                raw.nr_data_blocks
            })
            &&& r->Ok_0.0.metadata_sm_root == raw.metadata_sm_root
            &&& r->Ok_0.0.data_sm_root == raw.data_sm_root
            &&& r->Ok_0.0.details_root == raw.details_root
            &&& r->Ok_0.0.mapping_root == raw.mapping_root
            &&& r->Ok_0.0.snapshot_root == raw.snapshot_root
        }),
{
}

} // verus!
