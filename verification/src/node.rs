//! On-disk B-tree node parsing and validation.
//!
//! A node block:
//!
//! | offset | field                              |
//! |--------|------------------------------------|
//! | 0      | checksum (u32)                     |
//! | 4      | flags (u32): 1 internal, 2 leaf    |
//! | 8      | the block's own number (u64)       |
//! | 16     | entry count (u32)                  |
//! | 20     | maximum entries (u32)              |
//! | 24     | value size (u32)                   |
//! | 28     | padding                            |
//! | 32     | keys: u64 each, `max entries` slots |
//! | 32 + 8*max | values: `value size` bytes each |
//!
//! Internal nodes carry 8-byte child block pointers as values; leaves
//! carry the tree's own value type.  A node is rejected — and reported
//! as corrupt by the traversal — when its checksum, its stored block
//! number, its flags, its value size, its entry counts, its key order
//! or one of its decoded values is unsound.

use vstd::prelude::*;
use crate::bytes::{spec_le_u32, spec_le_u64, spec_checksum, read_le_u32, read_le_u64,
    block_checksum, BLOCK_SIZE};
use crate::values::{ValueKind, LeafValue, spec_value_size, value_size, spec_decode_value,
    decode_value, spec_value_ok, value_ok};

verus! {

/// Checksum salt for B-tree node blocks.
pub const NODE_CSUM_SALT: u32 = 0x002e_6d97;

/// A successfully parsed node.
pub enum Node {
    Internal { keys: Vec<u64>, children: Vec<u64> },
    Leaf { entries: Vec<(u64, LeafValue)> },
}

/// Mathematical image of a parsed node.
pub enum SpecNode {
    Internal { keys: Seq<u64>, children: Seq<u64> },
    Leaf { entries: Seq<(u64, LeafValue)> },
}

impl View for Node {
    type V = SpecNode;

    open spec fn view(&self) -> SpecNode {
        match self {
            Node::Internal { keys, children } => SpecNode::Internal {
                keys: keys@,
                children: children@,
            },
            Node::Leaf { entries } => SpecNode::Leaf { entries: entries@ },
        }
    }
}

impl SpecNode {
    /// The key column of the node.
    pub open spec fn keys(self) -> Seq<u64> {
        match self {
            SpecNode::Internal { keys, .. } => keys,
            SpecNode::Leaf { entries } => entries.map(|i: int, e: (u64, LeafValue)| e.0),
        }
    }
}

/// The first `nr` keys stored in node block `b`.
pub open spec fn spec_node_keys(b: Seq<u8>, nr: int) -> Seq<u64> {
    Seq::new(nr as nat, |i: int| spec_le_u64(b, 32 + 8 * i) as u64)
}

/// Keys are strictly increasing.
pub open spec fn spec_keys_sorted(keys: Seq<u64>) -> bool {
    forall|i: int| 0 <= i < keys.len() - 1 ==> #[trigger] keys[i] < keys[i + 1]
}

/// The node stored in block `b`, which must be block `blocknr` of a
/// tree whose leaves carry values of kind `kind` — or nothing, when
/// any of the node's validity checks fails.
pub open spec fn spec_parse_node(b: Seq<u8>, blocknr: u64, kind: ValueKind) -> Option<SpecNode> {
    let flags = spec_le_u32(b, 4);
    let nr = spec_le_u32(b, 16);
    let max = spec_le_u32(b, 20);
    let vsize = spec_le_u32(b, 24);
    let key_end = 32 + 8 * max;
    if spec_le_u32(b, 0) != spec_checksum(b, NODE_CSUM_SALT) {
        None
    } else if spec_le_u64(b, 8) != blocknr {
        None
    } else if flags != 1 && flags != 2 {
        None
    } else if vsize != (if flags == 1 {
        8int
    } else {
        spec_value_size(kind)
    }) {
        None
    } else if nr > max {
        None
    } else if key_end + vsize * max > BLOCK_SIZE {
        None
    } else {
        let keys = spec_node_keys(b, nr);
        if !spec_keys_sorted(keys) {
            None
        } else if flags == 1 {
            Some(
                SpecNode::Internal {
                    keys,
                    children: Seq::new(nr as nat, |i: int| spec_le_u64(b, key_end + 8 * i) as u64),
                },
            )
        } else {
            let entries = Seq::new(
                nr as nat,
                |i: int| (keys[i], spec_decode_value(kind, b, key_end + vsize * i)),
            );
            if exists|i: int|
                0 <= i < entries.len() && !spec_value_ok(kind, (#[trigger] entries[i]).1) {
                None
            } else {
                Some(SpecNode::Leaf { entries })
            }
        }
    }
}

/// Parses and validates the node in block `blk`, exactly as
/// `spec_parse_node` describes.
#[verifier::rlimit(80)]
#[verifier::loop_isolation(false)]
pub fn parse_node(blk: &Vec<u8>, blocknr: u64, kind: ValueKind) -> (r: Option<Node>)
    requires
        blk@.len() == BLOCK_SIZE,
    ensures
        match r {
            Some(n) => spec_parse_node(blk@, blocknr, kind) == Some(n@),
            None => spec_parse_node(blk@, blocknr, kind) is None,
        },
{
    let stored_csum = read_le_u32(blk, 0);
    let computed = block_checksum(blk, NODE_CSUM_SALT);
    if stored_csum != computed {
        return None;
    }
    if read_le_u64(blk, 8) != blocknr {
        return None;
    }
    let flags = read_le_u32(blk, 4);
    if flags != 1 && flags != 2 {
        return None;
    }
    let nr = read_le_u32(blk, 16);
    let max = read_le_u32(blk, 20);
    let vsize = read_le_u32(blk, 24);
    let expected_vsize: u32 = if flags == 1 {
        8
    } else {
        value_size(kind)
    };
    if vsize != expected_vsize {
        return None;
    }
    if nr > max {
        return None;
    }
    assert(vsize <= 24);
    let key_end: u64 = 32 + 8 * (max as u64);
    proof {
        assert((vsize as int) * (max as int) <= 24 * 0xffff_ffff) by (nonlinear_arith)
            requires
                0 <= vsize <= 24,
                0 <= max <= 0xffff_ffff,
        ;
    }
    let total: u64 = key_end + (vsize as u64) * (max as u64);
    if total > BLOCK_SIZE as u64 {
        return None;
    }

    // Keys, checked to be strictly increasing as they are read.
    let ghost skeys = spec_node_keys(blk@, nr as int);
    let mut keys: Vec<u64> = Vec::new();
    let mut i: u32 = 0;
    while i < nr
        invariant
            i <= nr,
            nr <= max,
            key_end == 32 + 8 * (max as int),
            key_end + (vsize as int) * (max as int) <= BLOCK_SIZE,
            blk@.len() == BLOCK_SIZE,
            skeys == spec_node_keys(blk@, nr as int),
            keys@.len() == i,
            forall|j: int| 0 <= j < i ==> keys@[j] == skeys[j],
            forall|j: int| 0 <= j < i - 1 ==> #[trigger] keys@[j] < keys@[j + 1],
        decreases nr - i,
    {
        let off = (32 + 8 * (i as u64)) as usize;
        let k = read_le_u64(blk, off);
        assert(k == skeys[i as int]);
        if i > 0 {
            let prev = keys[(i - 1) as usize];
            if prev >= k {
                proof {
                    assert(skeys[i - 1] >= skeys[i as int]);
                    assert(!spec_keys_sorted(skeys));
                }
                return None;
            }
        }
        keys.push(k);
        i = i + 1;
    }
    proof {
        assert(keys@ =~= skeys);
        assert(spec_keys_sorted(skeys));
    }

    if flags == 1 {
        // Internal node: 8-byte child pointers.
        let ghost schildren = Seq::new(
            nr as nat,
            |i: int| spec_le_u64(blk@, key_end + 8 * i) as u64,
        );
        let mut children: Vec<u64> = Vec::new();
        let mut i: u32 = 0;
        while i < nr
            invariant
                i <= nr,
                nr <= max,
                vsize == 8,
                key_end == 32 + 8 * (max as int),
                key_end + (vsize as int) * (max as int) <= BLOCK_SIZE,
                blk@.len() == BLOCK_SIZE,
                schildren == Seq::new(
                    nr as nat,
                    |i: int| spec_le_u64(blk@, key_end + 8 * i) as u64,
                ),
                children@.len() == i,
                forall|j: int| 0 <= j < i ==> children@[j] == schildren[j],
            decreases nr - i,
        {
            proof {
                assert(8 * (i as int) + 8 <= 8 * (max as int)) by (nonlinear_arith)
                    requires
                        i < nr <= max,
                ;
            }
            let off = (key_end + 8 * (i as u64)) as usize;
            let c = read_le_u64(blk, off);
            children.push(c);
            i = i + 1;
        }
        proof {
            assert(children@ =~= schildren);
        }
        Some(Node::Internal { keys, children })
    } else {
        // Leaf node: decode and check each value.
        let ghost sentries = Seq::new(
            nr as nat,
            |i: int| (skeys[i], spec_decode_value(kind, blk@, key_end + (vsize as int) * i)),
        );
        let mut entries: Vec<(u64, LeafValue)> = Vec::new();
        let mut i: u32 = 0;
        while i < nr
            invariant
                i <= nr,
                nr <= max,
                vsize == spec_value_size(kind),
                key_end == 32 + 8 * (max as int),
                key_end + (vsize as int) * (max as int) <= BLOCK_SIZE,
                blk@.len() == BLOCK_SIZE,
                keys@ == skeys,
                skeys == spec_node_keys(blk@, nr as int),
                keys@.len() == nr,
                sentries == Seq::new(
                    nr as nat,
                    |i: int| (skeys[i], spec_decode_value(kind, blk@, key_end + (vsize as int) * i)),
                ),
                entries@.len() == i,
                forall|j: int| 0 <= j < i ==> entries@[j] == sentries[j],
                forall|j: int| 0 <= j < i ==> spec_value_ok(kind, (#[trigger] sentries[j]).1),
            decreases nr - i,
    {
            proof {
                assert((vsize as int) * (i as int) + vsize <= (vsize as int) * (max as int))
                    by (nonlinear_arith)
                    requires
                        i < nr <= max,
                        0 <= vsize,
                ;
            }
            let off = (key_end + (vsize as u64) * (i as u64)) as usize;
            let v = decode_value(kind, blk, off);
            if !value_ok(kind, &v) {
                proof {
                    assert(!spec_value_ok(kind, sentries[i as int].1));
                }
                return None;
            }
            let key = keys[i as usize];
            entries.push((key, v));
            i = i + 1;
        }
        proof {
            assert(entries@ =~= sentries);
        }
        Some(Node::Leaf { entries })
    }
}

} // verus!
