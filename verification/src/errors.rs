//! The error taxonomy of the metadata engine.

use vstd::prelude::*;

verus! {

/// Why a dump, or one of its stages, failed.
///
/// `IoError` and `IncompatibleVersion` are always fatal.
/// `CorruptSuperblock` is fatal unless superblock overrides are supplied.
/// `CorruptNode` carries the block number of the offending node; it is
/// fatal in strict mode and recoverable (the subtree is skipped) in
/// repair mode.  `InvalidOverride` reports an override value that no
/// pool geometry could satisfy, before any traversal begins.
#[derive(Clone, Copy, Debug, PartialEq, Eq, Structural)]
pub enum DumpError {
    IoError,
    IncompatibleVersion,
    CorruptSuperblock,
    CorruptNode(u64),
    InvalidOverride,
}

impl DumpError {
    /// Short description, for reporting sinks.
    pub fn describe(&self) -> (r: &'static str) {
        match self {
            DumpError::IoError => "i/o error reading the metadata device",
            DumpError::IncompatibleVersion => "metadata version not supported",
            DumpError::CorruptSuperblock => "superblock is corrupt",
            DumpError::CorruptNode(_) => "corrupt btree node",
            DumpError::InvalidOverride => "override value is invalid",
        }
    }
}

} // verus!
