//! The generic B-tree traversal.
//!
//! `walk_tree` visits a whole tree in key order and returns every leaf
//! entry together with a record of every subtree it had to reject.  A
//! node is rejected when its block lies outside the image, when the
//! metadata space map positively records its block as free, when
//! `parse_node` refuses it, or when its keys escape the key range the
//! parent promised for it.  Rejection is node-local: the traversal
//! carries on with the siblings, and the caller decides whether a
//! non-empty rejection list is fatal (strict mode) or a recorded
//! omission (repair mode).
//!
//! The traversal descends at most `MAX_TREE_DEPTH` levels, so a cyclic
//! or adversarially deep block graph terminates and is reported as
//! corruption rather than overflowing the stack.

use vstd::prelude::*;
use crate::errors::DumpError;
use crate::image::Image;
use crate::node::{Node, SpecNode, spec_parse_node, parse_node, spec_keys_sorted};
use crate::space_map::SpaceMap;
use crate::values::{ValueKind, LeafValue};

verus! {

/// Upper bound on the depth of any tree this engine will follow.
pub const MAX_TREE_DEPTH: u64 = 64;

/// A subtree the traversal gave up on: the block that was rejected and
/// the key range that may have been lost with it.
#[derive(Clone, Copy, Debug, PartialEq, Eq)]
pub struct CorruptRegion {
    /// Block number of the rejected node.
    pub block: u64,
    /// No key below this can have been lost.
    pub key_low: u64,
    /// Exclusive upper bound on the lost keys, when the parent knew one.
    pub key_high: Option<u64>,
}

/// View of an optional space map as optional counts.
pub open spec fn spec_sm_view(sm: Option<&SpaceMap>) -> Option<Seq<u8>> {
    match sm {
        Some(s) => Some(s@),
        None => None,
    }
}

/// A referenced block may be followed: it lies inside the image and the
/// space map, when one is consulted, does not record it as free.
pub open spec fn spec_block_ok(im: Seq<Seq<u8>>, sm: Option<Seq<u8>>, block: u64) -> bool {
    &&& block < im.len()
    &&& match sm {
        Some(counts) => !(block < counts.len() && counts[block as int] == 0),
        None => true,
    }
}

/// All keys lie in the half-open range the parent promised.
pub open spec fn spec_keys_in_bounds(keys: Seq<u64>, lo: u64, hi: Option<u64>) -> bool {
    forall|i: int|
        0 <= i < keys.len() ==> lo <= #[trigger] keys[i] && (match hi {
            Some(h) => keys[i] < h,
            None => true,
        })
}

/// Everything a traversal of the subtree rooted at `block` yields: the
/// leaf entries in visit order, and the rejected subtrees in visit
/// order.  `lo` and `hi` bound the keys the parent promised for this
/// subtree; `depth` bounds the remaining descent.
pub open spec fn spec_walk(
    im: Seq<Seq<u8>>,
    sm: Option<Seq<u8>>,
    kind: ValueKind,
    block: u64,
    lo: u64,
    hi: Option<u64>,
    depth: nat,
) -> (Seq<(u64, LeafValue)>, Seq<CorruptRegion>)
    decreases depth, 0nat,
{
    let rejected = (
        Seq::<(u64, LeafValue)>::empty(),
        seq![CorruptRegion { block, key_low: lo, key_high: hi }],
    );
    if depth == 0 || !spec_block_ok(im, sm, block) {
        rejected
    } else {
        match spec_parse_node(im[block as int], block, kind) {
            None => rejected,
            Some(node) => {
                if !spec_keys_in_bounds(node.keys(), lo, hi) {
                    rejected
                } else {
                    match node {
                        SpecNode::Leaf { entries } => (entries, Seq::empty()),
                        SpecNode::Internal { keys, children } => spec_walk_children(
                            im,
                            sm,
                            kind,
                            keys,
                            children,
                            0,
                            hi,
                            (depth - 1) as nat,
                        ),
                    }
                }
            },
        }
    }
}

/// Traversal of the children of an internal node, from child `i` on.
/// Child `i` owns the keys from `keys[i]` up to (but not including)
/// `keys[i + 1]`, the last child up to the parent's own upper bound.
pub open spec fn spec_walk_children(
    im: Seq<Seq<u8>>,
    sm: Option<Seq<u8>>,
    kind: ValueKind,
    keys: Seq<u64>,
    children: Seq<u64>,
    i: int,
    hi: Option<u64>,
    depth: nat,
) -> (Seq<(u64, LeafValue)>, Seq<CorruptRegion>)
    decreases depth, children.len() - i,
{
    if i < 0 || i >= children.len() {
        (Seq::<(u64, LeafValue)>::empty(), Seq::<CorruptRegion>::empty())
    } else {
        let child_hi = if i + 1 < keys.len() {
            Some(keys[i + 1])
        } else {
            hi
        };
        let head = spec_walk(im, sm, kind, children[i], keys[i], child_hi, depth);
        let rest = spec_walk_children(im, sm, kind, keys, children, i + 1, hi, depth);
        (head.0 + rest.0, head.1 + rest.1)
    }
}

/// The value stored under `key` in a leaf, if any.
pub open spec fn spec_leaf_find(entries: Seq<(u64, LeafValue)>, key: u64) -> Option<LeafValue>
    decreases entries.len(),
{
    if entries.len() == 0 {
        None
    } else if entries[0].0 == key {
        Some(entries[0].1)
    } else {
        spec_leaf_find(entries.drop_first(), key)
    }
}

/// The last index at or after `i` whose key does not exceed `key`,
/// assuming `keys[i] <= key`: the child that owns `key`.
pub open spec fn spec_child_index(keys: Seq<u64>, i: int, key: u64) -> int
    decreases keys.len() - i,
{
    if i + 1 >= keys.len() || key < keys[i + 1] {
        i
    } else {
        spec_child_index(keys, i + 1, key)
    }
}

/// Sorted keys are monotone between any two positions.
proof fn lemma_sorted_monotone(keys: Seq<u64>, a: int, b: int)
    requires
        spec_keys_sorted(keys),
        0 <= a <= b < keys.len(),
    ensures
        keys[a] <= keys[b],
    decreases b - a,
{
    if a < b {
        lemma_sorted_monotone(keys, a, b - 1);
        assert(keys[b - 1] < keys[b]);
    }
}

/// In a sorted key array the child that owns `key` is the unique
/// position whose key does not exceed `key` while the next one does.
proof fn lemma_child_index_unique(keys: Seq<u64>, i: int, j: int, key: u64)
    requires
        spec_keys_sorted(keys),
        0 <= i <= j < keys.len(),
        keys[j] <= key,
        j + 1 == keys.len() || key < keys[j + 1],
    ensures
        spec_child_index(keys, i, key) == j,
    decreases j - i,
{
    if i < j {
        lemma_sorted_monotone(keys, i + 1, j);
        lemma_child_index_unique(keys, i + 1, j, key);
    }
}

/// What a point lookup of `key` under `block` yields: the value when
/// the key is mapped, nothing when it is not, or the block of the
/// first node the descent had to reject.
pub open spec fn spec_lookup_in(
    im: Seq<Seq<u8>>,
    sm: Option<Seq<u8>>,
    kind: ValueKind,
    block: u64,
    key: u64,
    depth: nat,
) -> Result<Option<LeafValue>, u64>
    decreases depth,
{
    if depth == 0 || !spec_block_ok(im, sm, block) {
        Err(block)
    } else {
        match spec_parse_node(im[block as int], block, kind) {
            None => Err(block),
            Some(SpecNode::Leaf { entries }) => Ok(spec_leaf_find(entries, key)),
            Some(SpecNode::Internal { keys, children }) => {
                if keys.len() == 0 || key < keys[0] {
                    Ok(None)
                } else {
                    spec_lookup_in(
                        im,
                        sm,
                        kind,
                        children[spec_child_index(keys, 0, key)],
                        key,
                        (depth - 1) as nat,
                    )
                }
            },
        }
    }
}

/// One rejected subtree as a traversal result.
fn rejected_result(block: u64, lo: u64, hi: Option<u64>) -> (r: (
    Vec<(u64, LeafValue)>,
    Vec<CorruptRegion>,
))
    ensures
        r.0@ == Seq::<(u64, LeafValue)>::empty(),
        r.1@ == seq![CorruptRegion { block, key_low: lo, key_high: hi }],
{
    let mut rs: Vec<CorruptRegion> = Vec::new();
    rs.push(CorruptRegion { block, key_low: lo, key_high: hi });
    proof {
        assert(rs@ =~= seq![CorruptRegion { block, key_low: lo, key_high: hi }]);
    }
    (Vec::new(), rs)
}

/// Checks that every key lies in `[lo, hi)`.
fn check_keys_in_bounds(keys: &Vec<u64>, lo: u64, hi: Option<u64>) -> (r: bool)
    ensures
        r == spec_keys_in_bounds(keys@, lo, hi),
{
    let n = keys.len();
    let mut i: usize = 0;
    while i < n
        invariant
            0 <= i <= n,
            n == keys@.len(),
            forall|j: int|
                0 <= j < i ==> lo <= #[trigger] keys@[j] && (match hi {
                    Some(h) => keys@[j] < h,
                    None => true,
                }),
        decreases n - i,
    {
        let k = keys[i];
        if k < lo {
            return false;
        }
        match hi {
            Some(h) => {
                if k >= h {
                    return false;
                }
            },
            None => {},
        }
        i = i + 1;
    }
    true
}

/// Checks that every entry key lies in `[lo, hi)`.
fn check_entry_keys_in_bounds(entries: &Vec<(u64, LeafValue)>, lo: u64, hi: Option<u64>) -> (r:
    bool)
    ensures
        r == spec_keys_in_bounds(
            entries@.map(|i: int, e: (u64, LeafValue)| e.0),
            lo,
            hi,
        ),
{
    let ghost mkeys = entries@.map(|i: int, e: (u64, LeafValue)| e.0);
    let n = entries.len();
    let mut i: usize = 0;
    while i < n
        invariant
            0 <= i <= n,
            n == entries@.len(),
            mkeys == entries@.map(|i: int, e: (u64, LeafValue)| e.0),
            forall|j: int|
                0 <= j < i ==> lo <= #[trigger] mkeys[j] && (match hi {
                    Some(h) => mkeys[j] < h,
                    None => true,
                }),
        decreases n - i,
    {
        let k = entries[i].0;
        assert(k == mkeys[i as int]);
        if k < lo {
            return false;
        }
        match hi {
            Some(h) => {
                if k >= h {
                    return false;
                }
            },
            None => {},
        }
        i = i + 1;
    }
    true
}

/// Visits the subtree rooted at `block` and returns its leaf entries
/// and its rejected subtrees, exactly as `spec_walk` describes.
#[verifier::loop_isolation(false)]
#[verifier::rlimit(80)]
pub fn walk_tree(
    im: &Image,
    sm: Option<&SpaceMap>,
    kind: ValueKind,
    block: u64,
    lo: u64,
    hi: Option<u64>,
    depth: u64,
) -> (r: (Vec<(u64, LeafValue)>, Vec<CorruptRegion>))
    requires
        im.wf(),
    ensures
        ({
            let s = spec_walk(im@, spec_sm_view(sm), kind, block, lo, hi, depth as nat);
            r.0@ == s.0 && r.1@ == s.1
        }),
    decreases depth,
{
    if depth == 0 {
        return rejected_result(block, lo, hi);
    }
    let blk = match im.get_block(block) {
        Some(blk) => blk,
        None => {
            return rejected_result(block, lo, hi);
        },
    };
    match sm {
        Some(s) => {
            if s.known_free(block) {
                return rejected_result(block, lo, hi);
            }
        },
        None => {},
    }
    let node = match parse_node(blk, block, kind) {
        Some(node) => node,
        None => {
            return rejected_result(block, lo, hi);
        },
    };
    match node {
        Node::Leaf { entries } => {
            if !check_entry_keys_in_bounds(&entries, lo, hi) {
                return rejected_result(block, lo, hi);
            }
            (entries, Vec::new())
        },
        Node::Internal { keys, children } => {
            if !check_keys_in_bounds(&keys, lo, hi) {
                return rejected_result(block, lo, hi);
            }
            let ghost d2 = (depth - 1) as nat;
            let ghost target = spec_walk_children(
                im@,
                spec_sm_view(sm),
                kind,
                keys@,
                children@,
                0,
                hi,
                d2,
            );
            let n = children.len();
            let mut out: Vec<(u64, LeafValue)> = Vec::new();
            let mut bad: Vec<CorruptRegion> = Vec::new();
            let mut i: usize = 0;
            while i < n
                invariant
                    0 <= i <= n,
                    n == children@.len(),
                    n == keys@.len(),
                    target == spec_walk_children(
                        im@,
                        spec_sm_view(sm),
                        kind,
                        keys@,
                        children@,
                        0,
                        hi,
                        d2,
                    ),
                    ({
                        let rem = spec_walk_children(
                            im@,
                            spec_sm_view(sm),
                            kind,
                            keys@,
                            children@,
                            i as int,
                            hi,
                            d2,
                        );
                        target.0 == out@ + rem.0 && target.1 == bad@ + rem.1
                    }),
                decreases n - i,
            {
                let child_hi = if i + 1 < n {
                    Some(keys[i + 1])
                } else {
                    hi
                };
                let child_lo = keys[i];
                let (mut e, mut c) = walk_tree(
                    im,
                    sm,
                    kind,
                    children[i],
                    child_lo,
                    child_hi,
                    depth - 1,
                );
                proof {
                    let rem = spec_walk_children(
                        im@,
                        spec_sm_view(sm),
                        kind,
                        keys@,
                        children@,
                        i as int,
                        hi,
                        d2,
                    );
                    let rem2 = spec_walk_children(
                        im@,
                        spec_sm_view(sm),
                        kind,
                        keys@,
                        children@,
                        i + 1,
                        hi,
                        d2,
                    );
                    assert(rem.0 == e@ + rem2.0 && rem.1 == c@ + rem2.1);
                    assert(out@ + (e@ + rem2.0) =~= (out@ + e@) + rem2.0);
                    assert(bad@ + (c@ + rem2.1) =~= (bad@ + c@) + rem2.1);
                }
                out.append(&mut e);
                bad.append(&mut c);
                i = i + 1;
            }
            proof {
                let rem = spec_walk_children(
                    im@,
                    spec_sm_view(sm),
                    kind,
                    keys@,
                    children@,
                    n as int,
                    hi,
                    d2,
                );
                assert(out@ + rem.0 =~= out@);
                assert(bad@ + rem.1 =~= bad@);
            }
            (out, bad)
        },
    }
}

/// Law: the traversal is in order.  Whatever the tree holds — intact
/// or partly rejected — the leaf entries come back with strictly
/// increasing keys, each inside the bounds the caller promised.  This
/// is the guarantee behind the dump's device-id and virtual-block
/// output ordering.
#[verifier::rlimit(100)]
#[verifier::spinoff_prover]
pub proof fn lemma_walk_entries_ordered(
    im: Seq<Seq<u8>>,
    sm: Option<Seq<u8>>,
    kind: ValueKind,
    block: u64,
    lo: u64,
    hi: Option<u64>,
    depth: nat,
)
    ensures
        ({
            let es = spec_walk(im, sm, kind, block, lo, hi, depth).0;
            &&& forall|k: int|
                0 <= k < es.len() ==> lo <= (#[trigger] es[k]).0 && (hi is Some ==> es[k].0
                    < hi->0)
            &&& forall|k: int| 0 <= k < es.len() - 1 ==> (#[trigger] es[k]).0 < es[k + 1].0
        }),
    decreases depth, 0nat,
{
    if depth == 0 || !spec_block_ok(im, sm, block) {
    } else {
        match spec_parse_node(im[block as int], block, kind) {
            None => {},
            Some(node) => {
                if spec_keys_in_bounds(node.keys(), lo, hi) {
                    match node {
                        SpecNode::Leaf { entries } => {
                            assert(forall|k: int|
                                0 <= k < entries.len() ==> (#[trigger] entries[k]).0
                                    == node.keys()[k]);
                        },
                        SpecNode::Internal { keys, children } => {
                            assert(node.keys() == keys);
                            assert(keys.len() == children.len());
                            assert(spec_keys_sorted(keys));
                            assert(spec_keys_in_bounds(keys, 0, hi));
                            lemma_walk_children_ordered(
                                im,
                                sm,
                                kind,
                                keys,
                                children,
                                0,
                                hi,
                                (depth - 1) as nat,
                            );
                            let es = spec_walk(im, sm, kind, block, lo, hi, depth).0;
                            let ces = spec_walk_children(
                                im,
                                sm,
                                kind,
                                keys,
                                children,
                                0,
                                hi,
                                (depth - 1) as nat,
                            ).0;
                            assert(es == ces);
                            assert forall|k: int| 0 <= k < es.len() implies lo <= (
                            #[trigger] es[k]).0 && (hi is Some ==> es[k].0 < hi->0) by {
                                assert(es[k] == ces[k]);
                                if keys.len() == 0 {
                                    assert(ces.len() == 0);
                                } else {
                                    assert(keys[0] <= ces[k].0);
                                    assert(lo <= keys[0]);
                                }
                            }
                        },
                    }
                }
            },
        }
    }
}

proof fn lemma_walk_children_ordered(
    im: Seq<Seq<u8>>,
    sm: Option<Seq<u8>>,
    kind: ValueKind,
    keys: Seq<u64>,
    children: Seq<u64>,
    i: int,
    hi: Option<u64>,
    depth: nat,
)
    requires
        keys.len() == children.len(),
        spec_keys_sorted(keys),
        spec_keys_in_bounds(keys, 0, hi),
    ensures
        ({
            let es = spec_walk_children(im, sm, kind, keys, children, i, hi, depth).0;
            &&& forall|k: int|
                0 <= k < es.len() ==> (0 <= i < keys.len() ==> keys[i] <= (#[trigger] es[k]).0)
                    && (hi is Some ==> es[k].0 < hi->0)
            &&& forall|k: int| 0 <= k < es.len() - 1 ==> (#[trigger] es[k]).0 < es[k + 1].0
        }),
    decreases depth, children.len() - i + 1,
{
    if i < 0 || i >= children.len() {
    } else {
        let child_hi = if i + 1 < keys.len() {
            Some(keys[i + 1])
        } else {
            hi
        };
        lemma_walk_entries_ordered(im, sm, kind, children[i], keys[i], child_hi, depth);
        lemma_walk_children_ordered(im, sm, kind, keys, children, i + 1, hi, depth);
        let head = spec_walk(im, sm, kind, children[i], keys[i], child_hi, depth).0;
        let rest = spec_walk_children(im, sm, kind, keys, children, i + 1, hi, depth).0;
        let es = spec_walk_children(im, sm, kind, keys, children, i, hi, depth).0;
        assert(es == head + rest);
        // Everything in the head lies below the next key, everything
        // in the rest at or above it, so the border pair is ordered.
        assert forall|k: int| 0 <= k < es.len() - 1 implies (#[trigger] es[k]).0 < es[k + 1].0 by {
            if k + 1 < head.len() {
                assert(es[k] == head[k] && es[k + 1] == head[k + 1]);
            } else if k >= head.len() {
                assert(es[k] == rest[k - head.len()] && es[k + 1] == rest[k + 1 - head.len()]);
            } else {
                assert(es[k] == head[k] && es[k + 1] == rest[0]);
                assert(i + 1 < keys.len());
            }
        }
        assert forall|k: int| 0 <= k < es.len() implies keys[i] <= (#[trigger] es[k]).0 && (hi
            is Some ==> es[k].0 < hi->0) by {
            if k < head.len() {
                assert(es[k] == head[k]);
            } else {
                assert(es[k] == rest[k - head.len()]);
                if i + 1 < keys.len() {
                    assert(keys[i] < keys[i + 1]);
                }
            }
        }
    }
}

/// Finds the value stored under `key` in a leaf.
fn leaf_find(entries: &Vec<(u64, LeafValue)>, key: u64) -> (r: Option<LeafValue>)
    ensures
        r == spec_leaf_find(entries@, key),
{
    let n = entries.len();
    let mut i: usize = 0;
    proof {
        assert(entries@.skip(0) =~= entries@);
    }
    while i < n
        invariant
            0 <= i <= n,
            n == entries@.len(),
            spec_leaf_find(entries@, key) == spec_leaf_find(entries@.skip(i as int), key),
        decreases n - i,
    {
        let (k, v) = entries[i];
        proof {
            assert(entries@.skip(i as int)[0] == entries@[i as int]);
            assert(entries@.skip(i as int).drop_first() =~= entries@.skip(i + 1));
        }
        if k == key {
            return Some(v);
        }
        i = i + 1;
    }
    proof {
        assert(entries@.skip(n as int) =~= Seq::<(u64, LeafValue)>::empty());
    }
    None
}

/// Descends from `block` to the leaf that would hold `key`, exactly
/// as `spec_lookup_in` describes.
#[verifier::loop_isolation(false)]
fn lookup_in(
    im: &Image,
    sm: Option<&SpaceMap>,
    kind: ValueKind,
    block: u64,
    key: u64,
    depth: u64,
) -> (r: Result<Option<LeafValue>, u64>)
    requires
        im.wf(),
    ensures
        r == spec_lookup_in(im@, spec_sm_view(sm), kind, block, key, depth as nat),
    decreases depth,
{
    if depth == 0 {
        return Err(block);
    }
    let blk = match im.get_block(block) {
        Some(blk) => blk,
        None => {
            return Err(block);
        },
    };
    match sm {
        Some(s) => {
            if s.known_free(block) {
                return Err(block);
            }
        },
        None => {},
    }
    let node = match parse_node(blk, block, kind) {
        Some(node) => node,
        None => {
            return Err(block);
        },
    };
    match node {
        Node::Leaf { entries } => Ok(leaf_find(&entries, key)),
        Node::Internal { keys, children } => {
            let nk = keys.len();
            if nk == 0 || key < keys[0] {
                return Ok(None);
            }
            // Binary search for the last key at or below `key`.
            let mut lo: usize = 0;
            let mut up: usize = nk;
            while up - lo > 1
                invariant
                    0 <= lo < up <= nk,
                    keys@[lo as int] <= key,
                    up == nk || key < keys@[up as int],
                decreases up - lo,
            {
                let mid = lo + (up - lo) / 2;
                if keys[mid] <= key {
                    lo = mid;
                } else {
                    up = mid;
                }
            }
            proof {
                lemma_child_index_unique(keys@, 0, lo as int, key);
            }
            lookup_in(im, sm, kind, children[lo], key, depth - 1)
        },
    }
}

/// Looks `key` up in the tree rooted at `root`: the stored value when
/// the key is mapped, `Ok(None)` when it is not, and `CorruptNode`
/// naming the first rejected node when the descent cannot tell.
pub fn btree_lookup(
    im: &Image,
    sm: Option<&SpaceMap>,
    kind: ValueKind,
    root: u64,
    key: u64,
) -> (r: Result<Option<LeafValue>, DumpError>)
    requires
        im.wf(),
    ensures
        match spec_lookup_in(im@, spec_sm_view(sm), kind, root, key, MAX_TREE_DEPTH as nat) {
            Ok(v) => r == Ok::<Option<LeafValue>, DumpError>(v),
            Err(b) => r == Err::<Option<LeafValue>, DumpError>(DumpError::CorruptNode(b)),
        },
{
    match lookup_in(im, sm, kind, root, key, MAX_TREE_DEPTH) {
        Ok(v) => Ok(v),
        Err(b) => Err(DumpError::CorruptNode(b)),
    }
}

} // verus!
