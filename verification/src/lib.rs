//! Reader for the on-disk metadata of a thin-provisioning pool.
//!
//! The metadata device is modelled as a sequence of fixed-size blocks.
//! A superblock in block 0 names the roots of the space maps, the
//! device-details tree and the mapping trees; every tree is a checksummed
//! B-tree over those blocks.  The library parses and validates these
//! structures, coalesces block mappings into contiguous ranges, and can
//! dump a whole pool either strictly (any corruption is fatal) or in a
//! best-effort repair mode that skips corrupt subtrees and records what
//! was lost.

pub mod bytes;
pub mod dump;
pub mod errors;
pub mod extract;
pub mod image;
pub mod node;
pub mod space_map;
pub mod superblock;
pub mod values;
pub mod walk;
