//! Coalescing of block mappings into contiguous ranges.
//!
//! The extractor consumes a mapping tree's entries in key order and
//! merges maximal runs of consecutive virtual blocks that map to
//! consecutive data blocks with one time stamp.  Two laws are proved
//! of it: expanding the ranges back into unit mappings reproduces the
//! input exactly (nothing is lost or duplicated, and contiguity holds
//! strictly inside every range), and no two adjacent ranges could have
//! been merged (every run is maximal).

use vstd::prelude::*;
use crate::values::LeafValue;

verus! {

/// One entry of a device's mapping tree: a virtual block mapped to a
/// data block at a time stamp.
#[derive(Clone, Copy, Debug, PartialEq, Eq, Structural)]
pub struct MapEntry {
    pub virtual_block: u64,
    pub data_block: u64,
    pub time: u32,
}

/// A maximal run of `length` consecutive virtual blocks starting at
/// `virtual_start`, mapped to the consecutive data blocks starting at
/// `data_start`, all with time stamp `time`.  Derived by the extractor,
/// never stored on disk.
#[derive(Clone, Copy, Debug, PartialEq, Eq, Structural)]
pub struct MappingRange {
    pub virtual_start: u64,
    pub data_start: u64,
    pub length: u64,
    pub time: u32,
}

/// Entry `e` continues the open range `r`: next virtual block, next
/// data block, same time stamp.
pub open spec fn spec_extends(r: MappingRange, e: MapEntry) -> bool {
    &&& e.virtual_block == r.virtual_start + r.length
    &&& e.data_block == r.data_start + r.length
    &&& e.time == r.time
}

/// Range `r2` starts exactly where `r1` ends, with the same time
/// stamp: the two could have been one run.
pub open spec fn spec_range_extends(r1: MappingRange, r2: MappingRange) -> bool {
    &&& r2.virtual_start == r1.virtual_start + r1.length
    &&& r2.data_start == r1.data_start + r1.length
    &&& r2.time == r1.time
}

/// The one-entry range holding exactly `e`.
pub open spec fn spec_unit_range(e: MapEntry) -> MappingRange {
    MappingRange {
        virtual_start: e.virtual_block,
        data_start: e.data_block,
        length: 1,
        time: e.time,
    }
}

/// `r` grown by one trailing block.
pub open spec fn spec_grow(r: MappingRange) -> MappingRange {
    MappingRange { length: (r.length + 1) as u64, ..r }
}

/// The ranges produced from entry `i` on, with `open` the currently
/// accumulating range.
pub open spec fn spec_extract_from(s: Seq<MapEntry>, i: int, open: MappingRange) -> Seq<
    MappingRange,
>
    decreases s.len() - i,
{
    if i < 0 || i >= s.len() {
        seq![open]
    } else if spec_extends(open, s[i]) {
        spec_extract_from(s, i + 1, spec_grow(open))
    } else {
        seq![open] + spec_extract_from(s, i + 1, spec_unit_range(s[i]))
    }
}

/// The coalesced ranges of the entry sequence `s`.
pub open spec fn spec_extract(s: Seq<MapEntry>) -> Seq<MappingRange> {
    if s.len() == 0 {
        Seq::<MappingRange>::empty()
    } else {
        spec_extract_from(s, 1, spec_unit_range(s[0]))
    }
}

/// The unit mappings a range stands for: within the range, virtual
/// blocks, data blocks and the time stamp are contiguous by
/// construction.
pub open spec fn spec_expand_range(r: MappingRange) -> Seq<MapEntry> {
    Seq::new(
        r.length as nat,
        |i: int| MapEntry {
            virtual_block: (r.virtual_start + i) as u64,
            data_block: (r.data_start + i) as u64,
            time: r.time,
        },
    )
}

/// The unit mappings a range sequence stands for.
pub open spec fn spec_expand(rs: Seq<MappingRange>) -> Seq<MapEntry>
    decreases rs.len(),
{
    if rs.len() == 0 {
        Seq::<MapEntry>::empty()
    } else {
        spec_expand_range(rs[0]) + spec_expand(rs.drop_first())
    }
}

/// Total number of blocks the ranges cover.
pub open spec fn spec_total_mapped(rs: Seq<MappingRange>) -> int
    decreases rs.len(),
{
    if rs.len() == 0 {
        0
    } else {
        rs[0].length + spec_total_mapped(rs.drop_first())
    }
}

/// No two adjacent ranges could have been merged.
pub open spec fn spec_ranges_separated(rs: Seq<MappingRange>) -> bool {
    forall|j: int| 0 <= j < rs.len() - 1 ==> !spec_range_extends(#[trigger] rs[j], rs[j + 1])
}

/// Every range covers at least one block.
pub open spec fn spec_ranges_positive(rs: Seq<MappingRange>) -> bool {
    forall|j: int| 0 <= j < rs.len() ==> (#[trigger] rs[j]).length >= 1
}

proof fn lemma_extract_from_expand(s: Seq<MapEntry>, i: int, open: MappingRange)
    requires
        0 <= i <= s.len(),
        open.length + (s.len() - i) <= u64::MAX,
    ensures
        spec_expand(spec_extract_from(s, i, open)) == spec_expand_range(open) + s.skip(i),
    decreases s.len() - i,
{
    if i >= s.len() {
        let rs = spec_extract_from(s, i, open);
        assert(rs =~= seq![open]);
        assert(rs[0] == open);
        assert(rs.drop_first() =~= Seq::<MappingRange>::empty());
        assert(spec_expand(rs.drop_first()) == Seq::<MapEntry>::empty());
        assert(spec_expand(rs) == spec_expand_range(open) + spec_expand(rs.drop_first()));
        assert(spec_expand_range(open) + Seq::<MapEntry>::empty() =~= spec_expand_range(open));
        assert(s.skip(i) =~= Seq::<MapEntry>::empty());
        assert(spec_expand_range(open) + s.skip(i) =~= spec_expand_range(open));
    } else if spec_extends(open, s[i]) {
        lemma_extract_from_expand(s, i + 1, spec_grow(open));
        assert(spec_expand_range(spec_grow(open)) =~= spec_expand_range(open).push(s[i]));
        assert(spec_expand_range(open).push(s[i]) + s.skip(i + 1) =~= spec_expand_range(open)
            + s.skip(i));
    } else {
        lemma_extract_from_expand(s, i + 1, spec_unit_range(s[i]));
        let rest = spec_extract_from(s, i + 1, spec_unit_range(s[i]));
        let rs = seq![open] + rest;
        assert(spec_extract_from(s, i, open) == rs);
        assert(rs[0] == open);
        assert(rs.drop_first() =~= rest);
        assert(spec_expand_range(spec_unit_range(s[i])) =~= seq![s[i]]);
        assert(spec_expand(rest) == seq![s[i]] + s.skip(i + 1));
        assert(seq![s[i]] + s.skip(i + 1) =~= s.skip(i));
        assert(spec_expand(rs) == spec_expand_range(open) + spec_expand(rest));
    }
}

/// Law: expanding the extractor's ranges back into unit mappings gives
/// exactly the input entries — no mapping is lost, duplicated, moved
/// or re-stamped, and contiguity holds strictly inside each range.
pub proof fn lemma_extract_lossless(s: Seq<MapEntry>)
    requires
        s.len() <= u64::MAX,
    ensures
        spec_expand(spec_extract(s)) == s,
{
    if s.len() == 0 {
        assert(spec_expand(spec_extract(s)) =~= s);
    } else {
        lemma_extract_from_expand(s, 1, spec_unit_range(s[0]));
        assert(spec_expand_range(spec_unit_range(s[0])) =~= seq![s[0]]);
        assert(seq![s[0]] + s.skip(1) =~= s);
    }
}

proof fn lemma_expand_len(rs: Seq<MappingRange>)
    ensures
        spec_expand(rs).len() == spec_total_mapped(rs),
    decreases rs.len(),
{
    if rs.len() > 0 {
        lemma_expand_len(rs.drop_first());
    }
}

/// Law: the range lengths produced by the extractor sum to the number
/// of entries consumed — no mapping is lost or duplicated.
pub proof fn lemma_extract_preserves_count(s: Seq<MapEntry>)
    requires
        s.len() <= u64::MAX,
    ensures
        spec_total_mapped(spec_extract(s)) == s.len(),
{
    lemma_extract_lossless(s);
    lemma_expand_len(spec_extract(s));
}

proof fn lemma_extract_from_separated(s: Seq<MapEntry>, i: int, open: MappingRange)
    requires
        0 <= i <= s.len(),
        open.length + (s.len() - i) <= u64::MAX,
        open.length >= 1,
    ensures
        ({
            let rs = spec_extract_from(s, i, open);
            &&& rs.len() >= 1
            &&& rs[0].virtual_start == open.virtual_start
            &&& rs[0].data_start == open.data_start
            &&& rs[0].time == open.time
            &&& rs[0].length >= open.length
            &&& spec_ranges_separated(rs)
            &&& spec_ranges_positive(rs)
        }),
    decreases s.len() - i,
{
    let rs = spec_extract_from(s, i, open);
    if i >= s.len() {
        assert(rs =~= seq![open]);
    } else if spec_extends(open, s[i]) {
        lemma_extract_from_separated(s, i + 1, spec_grow(open));
    } else {
        lemma_extract_from_separated(s, i + 1, spec_unit_range(s[i]));
        let rest = spec_extract_from(s, i + 1, spec_unit_range(s[i]));
        assert(rs == seq![open] + rest);
        assert(rs[0] == open);
        assert forall|j: int| 1 <= j < rs.len() implies rs[j] == rest[j - 1] by {}
        assert(!spec_range_extends(rs[0], rs[1])) by {
            assert(rs[1] == rest[0]);
            assert(rest[0].virtual_start == s[i].virtual_block);
            assert(rest[0].data_start == s[i].data_block);
            assert(rest[0].time == s[i].time);
        }
        assert forall|j: int| 0 <= j < rs.len() - 1 implies !spec_range_extends(
            #[trigger] rs[j],
            rs[j + 1],
        ) by {
            if j >= 1 {
                assert(rs[j] == rest[j - 1] && rs[j + 1] == rest[j]);
                assert(!spec_range_extends(rest[j - 1], rest[j]));
            }
        }
    }
}

/// Law: the extractor's runs are maximal — contiguity fails at the
/// boundary between any range and the next, so no two adjacent ranges
/// could have been one — and every range covers at least one block.
pub proof fn lemma_extract_maximal(s: Seq<MapEntry>)
    requires
        s.len() <= u64::MAX,
    ensures
        spec_ranges_separated(spec_extract(s)),
        spec_ranges_positive(spec_extract(s)),
{
    if s.len() > 0 {
        lemma_extract_from_separated(s, 1, spec_unit_range(s[0]));
    }
}

/// The mapping entry a raw tree entry stands for.  Only mapping-tree
/// entries reach the extractor, so other value variants — which the
/// mapping value kind never produces — default to the zero mapping.
pub open spec fn spec_entry_to_mapping(e: (u64, LeafValue)) -> MapEntry {
    match e.1 {
        LeafValue::Mapping { data_block, time } => MapEntry {
            virtual_block: e.0,
            data_block,
            time,
        },
        _ => MapEntry { virtual_block: e.0, data_block: 0, time: 0 },
    }
}

/// The mapping entries of a walked mapping tree.
pub open spec fn spec_to_map_entries(es: Seq<(u64, LeafValue)>) -> Seq<MapEntry> {
    es.map(|i: int, e: (u64, LeafValue)| spec_entry_to_mapping(e))
}

/// Converts walked mapping-tree entries into mapping entries.
pub fn to_map_entries(es: &Vec<(u64, LeafValue)>) -> (r: Vec<MapEntry>)
    ensures
        r@ == spec_to_map_entries(es@),
{
    let n = es.len();
    let mut out: Vec<MapEntry> = Vec::new();
    let mut i: usize = 0;
    while i < n
        invariant
            0 <= i <= n,
            n == es@.len(),
            out@.len() == i,
            forall|j: int| 0 <= j < i ==> out@[j] == spec_entry_to_mapping(es@[j]),
        decreases n - i,
    {
        let (key, v) = es[i];
        let m = match v {
            LeafValue::Mapping { data_block, time } => MapEntry {
                virtual_block: key,
                data_block,
                time,
            },
            _ => MapEntry { virtual_block: key, data_block: 0, time: 0 },
        };
        out.push(m);
        i = i + 1;
    }
    proof {
        assert(out@ =~= spec_to_map_entries(es@));
    }
    out
}

/// Coalesces the entries into maximal contiguous ranges, exactly as
/// `spec_extract` describes.
#[verifier::loop_isolation(false)]
pub fn extract_ranges(entries: &Vec<MapEntry>) -> (r: Vec<MappingRange>)
    ensures
        r@ == spec_extract(entries@),
{
    let n = entries.len();
    let mut out: Vec<MappingRange> = Vec::new();
    if n == 0 {
        proof {
            assert(out@ =~= spec_extract(entries@));
        }
        return out;
    }
    let e0 = entries[0];
    let mut open = MappingRange {
        virtual_start: e0.virtual_block,
        data_start: e0.data_block,
        length: 1,
        time: e0.time,
    };
    let mut i: usize = 1;
    proof {
        assert(Seq::<MappingRange>::empty() + spec_extract_from(entries@, 1, open)
            =~= spec_extract_from(entries@, 1, open));
    }
    while i < n
        invariant
            1 <= i <= n,
            open.length <= i,
            spec_extract(entries@) == out@ + spec_extract_from(entries@, i as int, open),
        decreases n - i,
    {
        let e = entries[i];
        let extends = e.virtual_block >= open.virtual_start && e.virtual_block
            - open.virtual_start == open.length && e.data_block >= open.data_start
            && e.data_block - open.data_start == open.length && e.time == open.time;
        assert(extends == spec_extends(open, e));
        if extends {
            open = MappingRange { length: open.length + 1, ..open };
        } else {
            let ghost out0 = out@;
            let ghost rest = spec_extract_from(entries@, i + 1, spec_unit_range(e));
            out.push(open);
            proof {
                assert(out0 + (seq![open] + rest) =~= out@ + rest);
            }
            open = MappingRange {
                virtual_start: e.virtual_block,
                data_start: e.data_block,
                length: 1,
                time: e.time,
            };
        }
        i = i + 1;
    }
    let ghost out0 = out@;
    out.push(open);
    proof {
        assert(spec_extract_from(entries@, n as int, open) =~= seq![open]);
        assert(out0 + seq![open] =~= out@);
    }
    out
}

} // verus!
