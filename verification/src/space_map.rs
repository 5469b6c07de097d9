//! Space maps: reference counts over metadata or data blocks.
//!
//! On disk a space map is an index B-tree (keyed by bitmap number,
//! valued by bitmap block pointer) over bitmap blocks, each of which
//! packs a 2-bit reference count per block.  In memory the counts are
//! expanded into one byte per block; blocks whose bitmap could not be
//! read keep the sentinel `UNKNOWN_COUNT`, so that a best-effort
//! traversal treats them as unknown rather than free.

use vstd::prelude::*;
use crate::bytes::{spec_le_u64, read_le_u64, spec_le_u32, read_le_u32, spec_checksum,
    block_checksum};
use crate::image::Image;
use crate::values::{ValueKind, LeafValue};
use crate::walk::{CorruptRegion, spec_walk, walk_tree, MAX_TREE_DEPTH};

verus! {

/// Reference count standing for "the space map could not tell".
pub const UNKNOWN_COUNT: u8 = 255;

/// Checksum salt for space-map bitmap blocks.
pub const BITMAP_CSUM_SALT: u32 = 0x0071_3a4f;

/// Byte offset of the packed counts inside a bitmap block.
pub const BITMAP_HEADER_SIZE: usize = 16;

/// Number of 2-bit reference counts held by one bitmap block.
pub const ENTRIES_PER_BITMAP: usize = 16320;

/// Expanded reference counts, one byte per block.
pub struct SpaceMap {
    pub counts: Vec<u8>,
}

impl View for SpaceMap {
    type V = Seq<u8>;

    open spec fn view(&self) -> Seq<u8> {
        self.counts@
    }
}

impl SpaceMap {
    /// Number of blocks the map covers.
    pub fn nr_blocks(&self) -> (r: usize)
        ensures
            r == self@.len(),
    {
        self.counts.len()
    }

    /// The reference count of block `b`: `None` when the block lies
    /// outside the map or its bitmap could not be read.
    pub fn lookup(&self, b: u64) -> (r: Option<u8>)
        ensures
            match r {
                Some(c) => b < self@.len() && self@[b as int] == c && c != UNKNOWN_COUNT,
                None => b >= self@.len() || self@[b as int] == UNKNOWN_COUNT,
            },
    {
        let n = self.counts.len();
        if b < n as u64 {
            let c = self.counts[b as usize];
            if c == UNKNOWN_COUNT {
                None
            } else {
                Some(c)
            }
        } else {
            None
        }
    }

    /// The map positively records block `b` as free.  During traversal
    /// this is a corruption signal for any block a tree references.
    pub fn known_free(&self, b: u64) -> (r: bool)
        ensures
            r == (b < self@.len() && self@[b as int] == 0),
    {
        let n = self.counts.len();
        b < n as u64 && self.counts[b as usize] == 0
    }
}

/// A bitmap block is sound when its checksum matches and it names its
/// own block number.
pub open spec fn spec_bitmap_valid(b: Seq<u8>, blocknr: u64) -> bool {
    &&& spec_le_u32(b, 0) == spec_checksum(b, BITMAP_CSUM_SALT)
    &&& spec_le_u64(b, 4) == blocknr
}

/// The 2-bit reference count at position `i` of bitmap block `b`.
pub open spec fn spec_bitmap_count(b: Seq<u8>, i: int) -> u8 {
    let byte = b[(BITMAP_HEADER_SIZE as int) + i / 4] as int;
    let p = if i % 4 == 0 {
        1int
    } else if i % 4 == 1 {
        4int
    } else if i % 4 == 2 {
        16int
    } else {
        64int
    };
    (((byte / p) % 4) as u8)
}

/// Counts after overlaying bitmap number `idx`, stored in block `bm`,
/// onto `counts`; the flag reports whether the bitmap could be read.
pub open spec fn spec_apply_bitmap(
    im: Seq<Seq<u8>>,
    counts: Seq<u8>,
    idx: u64,
    bm: u64,
) -> (Seq<u8>, bool) {
    if bm >= im.len() || !spec_bitmap_valid(im[bm as int], bm) {
        (counts, false)
    } else {
        let base = (idx as int) * (ENTRIES_PER_BITMAP as int);
        (
            Seq::new(
                counts.len(),
                |b: int|
                    if base <= b < base + ENTRIES_PER_BITMAP {
                        spec_bitmap_count(im[bm as int], b - base)
                    } else {
                        counts[b]
                    },
            ),
            true,
        )
    }
}

/// The corruption record for a bitmap that could not be read: bitmap
/// index `idx` of the index tree, stored in block `bm`.
pub open spec fn spec_bitmap_region(idx: u64, bm: u64) -> CorruptRegion {
    CorruptRegion {
        block: bm,
        key_low: idx,
        key_high: if idx == u64::MAX {
            None
        } else {
            Some((idx + 1) as u64)
        },
    }
}

/// Counts and corruption records after overlaying every bitmap that an
/// index-tree entry names, in entry order.
pub open spec fn spec_apply_bitmaps(
    im: Seq<Seq<u8>>,
    entries: Seq<(u64, LeafValue)>,
    counts: Seq<u8>,
) -> (Seq<u8>, Seq<CorruptRegion>)
    decreases entries.len(),
{
    if entries.len() == 0 {
        (counts, Seq::<CorruptRegion>::empty())
    } else {
        let e = entries[0];
        let step = match e.1 {
            LeafValue::Block(bm) => {
                let a = spec_apply_bitmap(im, counts, e.0, bm);
                if a.1 {
                    (a.0, Seq::<CorruptRegion>::empty())
                } else {
                    (counts, seq![spec_bitmap_region(e.0, bm)])
                }
            },
            _ => (counts, Seq::<CorruptRegion>::empty()),
        };
        let rest = spec_apply_bitmaps(im, entries.drop_first(), step.0);
        (rest.0, step.1 + rest.1)
    }
}

/// Everything decoding the space map rooted at `root` yields: one
/// count per block (with `UNKNOWN_COUNT` where no readable bitmap
/// covers a block) and the subtrees or bitmaps that could not be read.
pub open spec fn spec_read_space_map(im: Seq<Seq<u8>>, root: u64, nr_blocks: nat) -> (
    Seq<u8>,
    Seq<CorruptRegion>,
) {
    let w = spec_walk(im, None, ValueKind::BlockPtr, root, 0, None, MAX_TREE_DEPTH as nat);
    let init = Seq::new(nr_blocks, |b: int| UNKNOWN_COUNT);
    let a = spec_apply_bitmaps(im, w.0, init);
    (a.0, w.1 + a.1)
}

/// Overlays bitmap `idx`, stored in block `bm`, onto `counts`, exactly
/// as `spec_apply_bitmap` describes.
#[verifier::loop_isolation(false)]
#[verifier::rlimit(80)]
fn apply_bitmap(im: &Image, counts: &mut Vec<u8>, idx: u64, bm: u64) -> (ok: bool)
    requires
        im.wf(),
    ensures
        ({
            let s = spec_apply_bitmap(im@, old(counts)@, idx, bm);
            final(counts)@ == s.0 && ok == s.1
        }),
{
    let blk = match im.get_block(bm) {
        Some(blk) => blk,
        None => {
            return false;
        },
    };
    if read_le_u32(blk, 0) != block_checksum(blk, BITMAP_CSUM_SALT) {
        return false;
    }
    if read_le_u64(blk, 4) != bm {
        return false;
    }
    let n = counts.len();
    let ghost base = (idx as int) * (ENTRIES_PER_BITMAP as int);
    let ghost target = Seq::new(
        old(counts)@.len(),
        |b: int|
            if base <= b < base + ENTRIES_PER_BITMAP {
                spec_bitmap_count(im@[bm as int], b - base)
            } else {
                old(counts)@[b]
            },
    );
    if idx >= 1 + (n as u64) / (ENTRIES_PER_BITMAP as u64) {
        proof {
            assert(base >= n) by (nonlinear_arith)
                requires
                    idx >= 1 + (n as int) / (ENTRIES_PER_BITMAP as int),
                    base == (idx as int) * (ENTRIES_PER_BITMAP as int),
                    ENTRIES_PER_BITMAP == 16320,
                    n >= 0,
            ;
            assert(counts@ =~= target);
        }
        return true;
    }
    proof {
        assert(base <= n) by (nonlinear_arith)
            requires
                idx <= (n as int) / (ENTRIES_PER_BITMAP as int),
                base == (idx as int) * (ENTRIES_PER_BITMAP as int),
                ENTRIES_PER_BITMAP == 16320,
                n >= 0,
        ;
    }
    let start = idx * (ENTRIES_PER_BITMAP as u64);
    let mut j: usize = 0;
    while j < ENTRIES_PER_BITMAP
        invariant
            0 <= j <= ENTRIES_PER_BITMAP,
            counts@.len() == n,
            forall|b: int|
                0 <= b < n ==> counts@[b] == (if base <= b < base + j {
                    spec_bitmap_count(im@[bm as int], b - base)
                } else {
                    old(counts)@[b]
                }),
        decreases ENTRIES_PER_BITMAP - j,
    {
        if (j as u64) < (n as u64) - start {
            let byte = blk[BITMAP_HEADER_SIZE + j / 4];
            let p: u8 = if j % 4 == 0 {
                1
            } else if j % 4 == 1 {
                4
            } else if j % 4 == 2 {
                16
            } else {
                64
            };
            let c: u8 = (byte / p) % 4;
            assert(c == spec_bitmap_count(im@[bm as int], j as int));
            let g = (start + j as u64) as usize;
            counts[g] = c;
        }
        j = j + 1;
    }
    proof {
        assert(counts@ =~= target);
    }
    true
}

/// Decodes the space map rooted at `root`, covering `nr_blocks` blocks,
/// exactly as `spec_read_space_map` describes.  Index subtrees or
/// bitmaps that cannot be read leave their blocks unknown and are
/// reported, never silently dropped.
#[verifier::loop_isolation(false)]
#[verifier::rlimit(80)]
pub fn read_space_map(im: &Image, root: u64, nr_blocks: usize) -> (r: (SpaceMap, Vec<
    CorruptRegion,
>))
    requires
        im.wf(),
    ensures
        ({
            let s = spec_read_space_map(im@, root, nr_blocks as nat);
            r.0@ == s.0 && r.1@ == s.1
        }),
{
    let (entries, mut bad) = walk_tree(
        im,
        None,
        ValueKind::BlockPtr,
        root,
        0,
        None,
        MAX_TREE_DEPTH,
    );
    let mut counts: Vec<u8> = Vec::new();
    let mut i: usize = 0;
    while i < nr_blocks
        invariant
            counts@.len() == i <= nr_blocks,
            forall|b: int| 0 <= b < i ==> counts@[b] == UNKNOWN_COUNT,
        decreases nr_blocks - i,
    {
        counts.push(UNKNOWN_COUNT);
        i = i + 1;
    }
    let ghost init = Seq::new(nr_blocks as nat, |b: int| UNKNOWN_COUNT);
    proof {
        assert(counts@ =~= init);
    }
    let ghost target = spec_apply_bitmaps(im@, entries@, init);
    let ghost bad0 = bad@;
    proof {
        assert(entries@.skip(0) =~= entries@);
    }
    let n = entries.len();
    let mut k: usize = 0;
    while k < n
        invariant
            0 <= k <= n,
            n == entries@.len(),
            counts@.len() == nr_blocks,
            ({
                let rem = spec_apply_bitmaps(im@, entries@.skip(k as int), counts@);
                target.0 == rem.0 && bad0 + target.1 == bad@ + rem.1
            }),
        decreases n - k,
    {
        let (idx, v) = entries[k];
        let ghost pre = counts@;
        let ghost prebad = bad@;
        match v {
            LeafValue::Block(bm) => {
                let ok = apply_bitmap(im, &mut counts, idx, bm);
                if !ok {
                    bad.push(bitmap_region(idx, bm));
                }
            },
            _ => {},
        }
        proof {
            assert(entries@.skip(k as int).drop_first() =~= entries@.skip(k + 1));
            let stepbad = bad@.subrange(prebad.len() as int, bad@.len() as int);
            assert(prebad + stepbad =~= bad@);
            let rem = spec_apply_bitmaps(im@, entries@.skip(k as int), pre);
            let rem2 = spec_apply_bitmaps(im@, entries@.skip(k + 1), counts@);
            assert(rem.0 == rem2.0 && rem.1 == stepbad + rem2.1);
            assert(prebad + (stepbad + rem2.1) =~= (prebad + stepbad) + rem2.1);
        }
        k = k + 1;
    }
    proof {
        assert(entries@.skip(n as int) =~= Seq::<(u64, LeafValue)>::empty());
        assert(bad@ + Seq::<CorruptRegion>::empty() =~= bad@);
        assert(bad0 + target.1 =~= bad@);
    }
    (SpaceMap { counts }, bad)
}

/// The corruption record for an unreadable bitmap.
fn bitmap_region(idx: u64, bm: u64) -> (r: CorruptRegion)
    ensures
        r == spec_bitmap_region(idx, bm),
{
    CorruptRegion {
        block: bm,
        key_low: idx,
        key_high: if idx == u64::MAX {
            None
        } else {
            Some(idx + 1)
        },
    }
}

} // verus!
