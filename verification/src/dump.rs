//! The dump pipeline: superblock, space map, device details, and one
//! mapping tree per device, emitted as a stream of typed events.
//!
//! In strict mode (the default) any rejected subtree aborts the whole
//! dump with `CorruptNode`.  In repair mode every rejected subtree is
//! skipped, recorded as a `RepairEvent`, and the dump carries on with
//! the siblings; the caller must surface a dump with recorded repairs
//! distinctly from a clean one.

use vstd::prelude::*;
use crate::errors::DumpError;
use crate::extract::{MappingRange, spec_extract, spec_to_map_entries, to_map_entries,
    extract_ranges};
use crate::image::Image;
use crate::space_map::{SpaceMap, spec_read_space_map, read_space_map};
use crate::superblock::{Superblock, SuperblockOverrides, spec_overrides_invalid,
    spec_read_superblock, read_superblock};
use crate::values::{ValueKind, LeafValue, DeviceDetails};
use crate::walk::{CorruptRegion, spec_walk, walk_tree, MAX_TREE_DEPTH};

verus! {

/// What a recorded repair stood for.
#[derive(Clone, Copy, Debug, PartialEq, Eq, Structural)]
pub enum RepairKind {
    /// The superblock failed validation and the overrides were used.
    SuperblockOverridden,
    /// A metadata space-map subtree or bitmap could not be read.
    SpaceMapNodeSkipped,
    /// A device-details subtree could not be read.
    DetailsNodeSkipped,
    /// A mapping-tree subtree could not be read.
    MappingNodeSkipped,
    /// A device had no readable details record.
    MissingDetails,
}

/// One recoverable corruption: which device it affected (when known),
/// the block that was rejected and the approximate key range lost.
#[derive(Clone, Copy, Debug, PartialEq, Eq)]
pub struct RepairEvent {
    pub kind: RepairKind,
    pub device_id: Option<u64>,
    pub block: u64,
    pub key_low: u64,
    pub key_high: Option<u64>,
}

/// One element of the dump's output stream.  Serialization is the
/// caller's business; the engine only fixes the order and content.
#[derive(Clone, Copy, Debug, PartialEq, Eq)]
pub enum Event {
    BeginDocument { transaction_id: u64, data_block_size: u32, nr_data_blocks: u64 },
    BeginDevice { device_id: u64, details: DeviceDetails },
    Mapping { range: MappingRange },
    EndDevice,
    EndDocument,
    RepairNotice { event: RepairEvent },
}

/// How a dump is to be taken.
#[derive(Clone, Copy, Debug)]
pub struct DumpOptions {
    /// Skip rejected subtrees and record them instead of aborting.
    pub repair: bool,
    /// Emit only per-device summary metadata, no mapping ranges.
    pub skip_mappings: bool,
    /// Read the frozen metadata-snapshot mapping root instead of the
    /// live one.
    pub use_snapshot: bool,
    /// Superblock replacement values, used when validation fails.
    pub overrides: SuperblockOverrides,
}

/// A completed dump: the event stream and every recorded repair.
#[derive(Debug, PartialEq, Eq)]
pub struct ThinDump {
    pub events: Vec<Event>,
    pub repairs: Vec<RepairEvent>,
}

impl ThinDump {
    /// The dump completed only by recording omissions; callers must
    /// surface this distinctly from a clean dump.
    pub fn repaired(&self) -> (r: bool)
        ensures
            r == (self.repairs@.len() > 0),
    {
        self.repairs.len() > 0
    }
}

/// The repair events standing for a list of rejected subtrees.
pub open spec fn spec_region_events(
    rs: Seq<CorruptRegion>,
    kind: RepairKind,
    dev: Option<u64>,
) -> Seq<RepairEvent> {
    rs.map(
        |i: int, c: CorruptRegion| RepairEvent {
            kind,
            device_id: dev,
            block: c.block,
            key_low: c.key_low,
            key_high: c.key_high,
        },
    )
}

/// The first details record stored under device id `dev`.
pub open spec fn spec_find_details(es: Seq<(u64, LeafValue)>, dev: u64) -> Option<DeviceDetails>
    decreases es.len(),
{
    if es.len() == 0 {
        None
    } else if es[0].0 == dev {
        match es[0].1 {
            LeafValue::Details(d) => Some(d),
            _ => None,
        }
    } else {
        spec_find_details(es.drop_first(), dev)
    }
}

/// The exclusive upper bound one key above `k`, when it exists.
pub open spec fn spec_key_above(k: u64) -> Option<u64> {
    if k == u64::MAX {
        None
    } else {
        Some((k + 1) as u64)
    }
}

/// The repair record for a device whose details could not be found.
pub open spec fn spec_missing_details_event(dev: u64, details_root: u64) -> RepairEvent {
    RepairEvent {
        kind: RepairKind::MissingDetails,
        device_id: Some(dev),
        block: details_root,
        key_low: dev,
        key_high: spec_key_above(dev),
    }
}

/// The all-zero details substituted in repair mode.
pub open spec fn spec_unknown_details() -> DeviceDetails {
    DeviceDetails { mapped_blocks: 0, transaction_id: 0, creation_time: 0, snapshotted_time: 0 }
}

/// The root of a device's mapping tree, from the device's entry in
/// the top-level mapping tree.
pub open spec fn spec_device_root(e: (u64, LeafValue)) -> u64 {
    match e.1 {
        LeafValue::Block(b) => b,
        _ => 0u64,
    }
}

/// Everything dumping one device yields: its event segment and its
/// recorded repairs — or the error that aborts a strict dump.  `e` is
/// the device's entry in the top-level mapping tree: device id and the
/// root of its mapping tree.
pub open spec fn spec_device_dump(
    im: Seq<Seq<u8>>,
    sm: Seq<u8>,
    dentries: Seq<(u64, LeafValue)>,
    details_root: u64,
    nr_data_blocks: u64,
    opts: DumpOptions,
    e: (u64, LeafValue),
) -> Result<(Seq<Event>, Seq<RepairEvent>), DumpError> {
    let dev = e.0;
    let root = spec_device_root(e);
    let found = spec_find_details(dentries, dev);
    if found is None && !opts.repair {
        Err(DumpError::CorruptNode(details_root))
    } else {
        let details = match found {
            Some(d) => d,
            None => spec_unknown_details(),
        };
        let drepairs: Seq<RepairEvent> = if found is None {
            seq![spec_missing_details_event(dev, details_root)]
        } else {
            Seq::<RepairEvent>::empty()
        };
        if opts.skip_mappings {
            Ok(
                (
                    seq![
                        Event::BeginDevice { device_id: dev, details },
                        Event::EndDevice,
                    ],
                    drepairs,
                ),
            )
        } else {
            let w = spec_walk(
                im,
                Some(sm),
                ValueKind::Mapping { nr_data_blocks },
                root,
                0,
                None,
                MAX_TREE_DEPTH as nat,
            );
            if w.1.len() > 0 && !opts.repair {
                Err(DumpError::CorruptNode(w.1[0].block))
            } else {
                let ranges = spec_extract(spec_to_map_entries(w.0));
                let mevents = ranges.map(|i: int, r: MappingRange| Event::Mapping { range: r });
                Ok(
                    (
                        seq![Event::BeginDevice { device_id: dev, details }] + mevents + seq![
                            Event::EndDevice,
                        ],
                        drepairs + spec_region_events(
                            w.1,
                            RepairKind::MappingNodeSkipped,
                            Some(dev),
                        ),
                    ),
                )
            }
        }
    }
}

/// Everything dumping the devices from entry `i` on yields, in
/// device order; the first device error aborts the whole list.
pub open spec fn spec_devices_dump(
    im: Seq<Seq<u8>>,
    sm: Seq<u8>,
    dentries: Seq<(u64, LeafValue)>,
    details_root: u64,
    nr_data_blocks: u64,
    opts: DumpOptions,
    mentries: Seq<(u64, LeafValue)>,
    i: int,
) -> Result<(Seq<Event>, Seq<RepairEvent>), DumpError>
    decreases mentries.len() - i,
{
    if i < 0 || i >= mentries.len() {
        Ok((Seq::<Event>::empty(), Seq::<RepairEvent>::empty()))
    } else {
        let head = spec_device_dump(
            im,
            sm,
            dentries,
            details_root,
            nr_data_blocks,
            opts,
            mentries[i],
        );
        match head {
            Err(err) => Err(err),
            Ok(h) => {
                let rest = spec_devices_dump(
                    im,
                    sm,
                    dentries,
                    details_root,
                    nr_data_blocks,
                    opts,
                    mentries,
                    i + 1,
                );
                match rest {
                    Err(err) => Err(err),
                    Ok(r) => Ok((h.0 + r.0, h.1 + r.1)),
                }
            },
        }
    }
}

/// The repair record emitted when the superblock had to be overridden.
pub open spec fn spec_superblock_repair_event() -> RepairEvent {
    RepairEvent {
        kind: RepairKind::SuperblockOverridden,
        device_id: None,
        block: 0,
        key_low: 0,
        key_high: None,
    }
}

/// The final stream and repair list of a dump that got through every
/// stage: the stages' repairs in pipeline order, and the stream
/// `BeginDocument`, the devices' segments, one `RepairNotice` per
/// repair, `EndDocument`.
pub open spec fn spec_assemble(
    sb: Superblock,
    sb_repaired: bool,
    smbad: Seq<CorruptRegion>,
    dbad: Seq<CorruptRegion>,
    mbad: Seq<CorruptRegion>,
    devents: Seq<Event>,
    drepairs: Seq<RepairEvent>,
) -> (Seq<Event>, Seq<RepairEvent>) {
    let repairs = (if sb_repaired {
        seq![spec_superblock_repair_event()]
    } else {
        Seq::<RepairEvent>::empty()
    }) + spec_region_events(smbad, RepairKind::SpaceMapNodeSkipped, None) + spec_region_events(
        dbad,
        RepairKind::DetailsNodeSkipped,
        None,
    ) + spec_region_events(mbad, RepairKind::MappingNodeSkipped, None) + drepairs;
    let notices = repairs.map(|i: int, e: RepairEvent| Event::RepairNotice { event: e });
    let events = seq![
        Event::BeginDocument {
            transaction_id: sb.transaction_id,
            data_block_size: sb.data_block_size,
            nr_data_blocks: sb.nr_data_blocks,
        },
    ] + devents + notices + seq![Event::EndDocument];
    (events, repairs)
}

/// Everything a dump of image `im` under `opts` yields: the event
/// stream and the recorded repairs, or the fatal error.
///
/// The pipeline: validate overrides; read (or repair) the superblock;
/// refuse a missing metadata snapshot when one was asked for; decode
/// the metadata space map; walk the device-details tree; walk the
/// chosen top-level mapping tree; then dump each device in id order.
/// In strict mode the first rejected subtree of any stage is fatal;
/// in repair mode every rejected subtree becomes a repair record.
/// The stream is `BeginDocument`, the devices' segments, one
/// `RepairNotice` per recorded repair, then `EndDocument`.
pub open spec fn spec_dump(im: Seq<Seq<u8>>, opts: DumpOptions) -> Result<
    (Seq<Event>, Seq<RepairEvent>),
    DumpError,
> {
    if spec_overrides_invalid(opts.overrides) {
        Err(DumpError::InvalidOverride)
    } else {
        match spec_read_superblock(im, opts.overrides) {
            Err(e) => Err(e),
            Ok((sb, sb_repaired)) => {
                if opts.use_snapshot && sb.snapshot_root == 0 {
                    Err(DumpError::CorruptSuperblock)
                } else {
                    let root = if opts.use_snapshot {
                        sb.snapshot_root
                    } else {
                        sb.mapping_root
                    };
                    let smr = spec_read_space_map(im, sb.metadata_sm_root, im.len());
                    if smr.1.len() > 0 && !opts.repair {
                        Err(DumpError::CorruptNode(smr.1[0].block))
                    } else {
                        let dw = spec_walk(
                            im,
                            Some(smr.0),
                            ValueKind::Details,
                            sb.details_root,
                            0,
                            None,
                            MAX_TREE_DEPTH as nat,
                        );
                        if dw.1.len() > 0 && !opts.repair {
                            Err(DumpError::CorruptNode(dw.1[0].block))
                        } else {
                            let mw = spec_walk(
                                im,
                                Some(smr.0),
                                ValueKind::BlockPtr,
                                root,
                                0,
                                None,
                                MAX_TREE_DEPTH as nat,
                            );
                            if mw.1.len() > 0 && !opts.repair {
                                Err(DumpError::CorruptNode(mw.1[0].block))
                            } else {
                                match spec_devices_dump(
                                    im,
                                    smr.0,
                                    dw.0,
                                    sb.details_root,
                                    sb.nr_data_blocks,
                                    opts,
                                    mw.0,
                                    0,
                                ) {
                                    Err(e) => Err(e),
                                    Ok(d) => Ok(
                                        spec_assemble(
                                            sb,
                                            sb_repaired,
                                            smr.1,
                                            dw.1,
                                            mw.1,
                                            d.0,
                                            d.1,
                                        ),
                                    ),
                                }
                            }
                        }
                    }
                }
            },
        }
    }
}

/// Finds the first details record stored under device id `dev`.
fn find_details(es: &Vec<(u64, LeafValue)>, dev: u64) -> (r: Option<DeviceDetails>)
    ensures
        r == spec_find_details(es@, dev),
{
    let n = es.len();
    let mut i: usize = 0;
    proof {
        assert(es@.skip(0) =~= es@);
    }
    while i < n
        invariant
            0 <= i <= n,
            n == es@.len(),
            spec_find_details(es@, dev) == spec_find_details(es@.skip(i as int), dev),
        decreases n - i,
    {
        let (key, v) = es[i];
        proof {
            assert(es@.skip(i as int)[0] == es@[i as int]);
            assert(es@.skip(i as int).drop_first() =~= es@.skip(i + 1));
        }
        if key == dev {
            match v {
                LeafValue::Details(d) => {
                    return Some(d);
                },
                _ => {
                    return None;
                },
            }
        }
        i = i + 1;
    }
    proof {
        assert(es@.skip(n as int) =~= Seq::<(u64, LeafValue)>::empty());
    }
    None
}

/// Turns a list of rejected subtrees into repair records.
fn region_events(rs: &Vec<CorruptRegion>, kind: RepairKind, dev: Option<u64>) -> (r: Vec<
    RepairEvent,
>)
    ensures
        r@ == spec_region_events(rs@, kind, dev),
{
    let n = rs.len();
    let mut out: Vec<RepairEvent> = Vec::new();
    let mut i: usize = 0;
    while i < n
        invariant
            0 <= i <= n,
            n == rs@.len(),
            out@.len() == i,
            forall|j: int|
                0 <= j < i ==> out@[j] == (RepairEvent {
                    kind,
                    device_id: dev,
                    block: rs@[j].block,
                    key_low: rs@[j].key_low,
                    key_high: rs@[j].key_high,
                }),
        decreases n - i,
    {
        let c = rs[i];
        out.push(
            RepairEvent {
                kind,
                device_id: dev,
                block: c.block,
                key_low: c.key_low,
                key_high: c.key_high,
            },
        );
        i = i + 1;
    }
    proof {
        assert(out@ =~= spec_region_events(rs@, kind, dev));
    }
    out
}

/// Dumps one device, exactly as `spec_device_dump` describes.
#[verifier::loop_isolation(false)]
#[verifier::rlimit(80)]
fn dump_device(
    im: &Image,
    sm: &SpaceMap,
    dentries: &Vec<(u64, LeafValue)>,
    details_root: u64,
    nr_data_blocks: u64,
    opts: DumpOptions,
    e: (u64, LeafValue),
) -> (r: Result<(Vec<Event>, Vec<RepairEvent>), DumpError>)
    requires
        im.wf(),
    ensures
        ({
            let s = spec_device_dump(im@, sm@, dentries@, details_root, nr_data_blocks, opts, e);
            match r {
                Ok(p) => s == Ok::<(Seq<Event>, Seq<RepairEvent>), DumpError>((p.0@, p.1@)),
                Err(err) => s == Err::<(Seq<Event>, Seq<RepairEvent>), DumpError>(err),
            }
        }),
{
    let dev = e.0;
    let root = match e.1 {
        LeafValue::Block(b) => b,
        _ => 0u64,
    };
    let found = find_details(dentries, dev);
    let details = match found {
        Some(d) => d,
        None => {
            if !opts.repair {
                return Err(DumpError::CorruptNode(details_root));
            }
            DeviceDetails::unknown()
        },
    };
    let mut drepairs: Vec<RepairEvent> = Vec::new();
    if found.is_none() {
        drepairs.push(
            RepairEvent {
                kind: RepairKind::MissingDetails,
                device_id: Some(dev),
                block: details_root,
                key_low: dev,
                key_high: if dev == u64::MAX {
                    None
                } else {
                    Some(dev + 1)
                },
            },
        );
        proof {
            assert(drepairs@ =~= seq![spec_missing_details_event(dev, details_root)]);
        }
    }
    let mut events: Vec<Event> = Vec::new();
    events.push(Event::BeginDevice { device_id: dev, details });
    if opts.skip_mappings {
        events.push(Event::EndDevice);
        proof {
            assert(events@ =~= seq![
                Event::BeginDevice { device_id: dev, details },
                Event::EndDevice,
            ]);
        }
        return Ok((events, drepairs));
    }
    let (wentries, wbad) = walk_tree(
        im,
        Some(sm),
        ValueKind::Mapping { nr_data_blocks },
        root,
        0,
        None,
        MAX_TREE_DEPTH,
    );
    if wbad.len() > 0 && !opts.repair {
        return Err(DumpError::CorruptNode(wbad[0].block));
    }
    let mapped = to_map_entries(&wentries);
    let ranges = extract_ranges(&mapped);
    let ghost mevents = spec_extract(spec_to_map_entries(wentries@)).map(
        |i: int, r: MappingRange| Event::Mapping { range: r },
    );
    let nr = ranges.len();
    let mut k: usize = 0;
    while k < nr
        invariant
            0 <= k <= nr,
            nr == ranges@.len(),
            events@.len() == 1 + k,
            events@[0] == (Event::BeginDevice { device_id: dev, details }),
            forall|j: int| 0 <= j < k ==> events@[j + 1] == mevents[j],
        decreases nr - k,
    {
        events.push(Event::Mapping { range: ranges[k] });
        k = k + 1;
    }
    events.push(Event::EndDevice);
    let wrepairs = region_events(&wbad, RepairKind::MappingNodeSkipped, Some(dev));
    let mut repairs = drepairs;
    let mut wr = wrepairs;
    let ghost repairs0 = repairs@;
    repairs.append(&mut wr);
    proof {
        assert(events@ =~= seq![Event::BeginDevice { device_id: dev, details }] + mevents + seq![
            Event::EndDevice,
        ]);
        assert(repairs@ =~= repairs0 + spec_region_events(
            wbad@,
            RepairKind::MappingNodeSkipped,
            Some(dev),
        ));
    }
    Ok((events, repairs))
}

/// Dumps the whole pool, exactly as `spec_dump` describes.  A clean
/// dump returns an empty repair list; a repaired one lists every
/// omission; a fatal error aborts with no partial output.
#[verifier::loop_isolation(false)]
#[verifier::rlimit(100)]
pub fn dump(im: &Image, opts: DumpOptions) -> (r: Result<ThinDump, DumpError>)
    requires
        im.wf(),
    ensures
        ({
            let s = spec_dump(im@, opts);
            match r {
                Ok(d) => s == Ok::<(Seq<Event>, Seq<RepairEvent>), DumpError>((
                    d.events@,
                    d.repairs@,
                )),
                Err(err) => s == Err::<(Seq<Event>, Seq<RepairEvent>), DumpError>(err),
            }
        }),
{
    if opts.overrides.data_block_size == Some(0u32) || opts.overrides.nr_data_blocks == Some(
        0u64,
    ) {
        return Err(DumpError::InvalidOverride);
    }
    let (sb, sb_repaired) = match read_superblock(im, &opts.overrides) {
        Ok(p) => p,
        Err(e) => {
            return Err(e);
        },
    };
    if opts.use_snapshot && sb.snapshot_root == 0 {
        return Err(DumpError::CorruptSuperblock);
    }
    let root = if opts.use_snapshot {
        sb.snapshot_root
    } else {
        sb.mapping_root
    };
    let nb = im.nr_blocks();
    let (sm, smbad) = read_space_map(im, sb.metadata_sm_root, nb);
    if smbad.len() > 0 && !opts.repair {
        return Err(DumpError::CorruptNode(smbad[0].block));
    }
    let (dentries, dbad) = walk_tree(
        im,
        Some(&sm),
        ValueKind::Details,
        sb.details_root,
        0,
        None,
        MAX_TREE_DEPTH,
    );
    if dbad.len() > 0 && !opts.repair {
        return Err(DumpError::CorruptNode(dbad[0].block));
    }
    let (mentries, mbad) = walk_tree(
        im,
        Some(&sm),
        ValueKind::BlockPtr,
        root,
        0,
        None,
        MAX_TREE_DEPTH,
    );
    if mbad.len() > 0 && !opts.repair {
        return Err(DumpError::CorruptNode(mbad[0].block));
    }

    let (devents, drepairs) = match dump_devices(
        im,
        &sm,
        &dentries,
        sb.details_root,
        sb.nr_data_blocks,
        opts,
        &mentries,
    ) {
        Ok(p) => p,
        Err(err) => {
            return Err(err);
        },
    };
    let (events, repairs) = assemble(sb, sb_repaired, &smbad, &dbad, &mbad, devents, drepairs);
    Ok(ThinDump { events, repairs })
}

/// Dumps every device of the top-level mapping tree, in id order,
/// exactly as `spec_devices_dump` describes from entry 0.
#[verifier::loop_isolation(false)]
#[verifier::rlimit(80)]
fn dump_devices(
    im: &Image,
    sm: &SpaceMap,
    dentries: &Vec<(u64, LeafValue)>,
    details_root: u64,
    nr_data_blocks: u64,
    opts: DumpOptions,
    mentries: &Vec<(u64, LeafValue)>,
) -> (r: Result<(Vec<Event>, Vec<RepairEvent>), DumpError>)
    requires
        im.wf(),
    ensures
        ({
            let s = spec_devices_dump(
                im@,
                sm@,
                dentries@,
                details_root,
                nr_data_blocks,
                opts,
                mentries@,
                0,
            );
            match r {
                Ok(p) => s == Ok::<(Seq<Event>, Seq<RepairEvent>), DumpError>((p.0@, p.1@)),
                Err(err) => s == Err::<(Seq<Event>, Seq<RepairEvent>), DumpError>(err),
            }
        }),
{
    let ghost dtarget = spec_devices_dump(
        im@,
        sm@,
        dentries@,
        details_root,
        nr_data_blocks,
        opts,
        mentries@,
        0,
    );
    let n = mentries.len();
    let mut devents: Vec<Event> = Vec::new();
    let mut drepairs: Vec<RepairEvent> = Vec::new();
    let mut i: usize = 0;
    while i < n
        invariant
            0 <= i <= n,
            n == mentries@.len(),
            ({
                let rem = spec_devices_dump(
                    im@,
                    sm@,
                    dentries@,
                    details_root,
                    nr_data_blocks,
                    opts,
                    mentries@,
                    i as int,
                );
                match rem {
                    Ok(p) => dtarget == Ok::<(Seq<Event>, Seq<RepairEvent>), DumpError>((
                        devents@ + p.0,
                        drepairs@ + p.1,
                    )),
                    Err(e) => dtarget == Err::<(Seq<Event>, Seq<RepairEvent>), DumpError>(e),
                }
            }),
        decreases n - i,
    {
        let e = mentries[i];
        let (mut ev, mut rp) = match dump_device(
            im,
            sm,
            dentries,
            details_root,
            nr_data_blocks,
            opts,
            e,
        ) {
            Ok(p) => p,
            Err(err) => {
                return Err(err);
            },
        };
        proof {
            let rem2 = spec_devices_dump(
                im@,
                sm@,
                dentries@,
                details_root,
                nr_data_blocks,
                opts,
                mentries@,
                i + 1,
            );
            if rem2 is Ok {
                let p = rem2->Ok_0;
                assert(devents@ + (ev@ + p.0) =~= (devents@ + ev@) + p.0);
                assert(drepairs@ + (rp@ + p.1) =~= (drepairs@ + rp@) + p.1);
            }
        }
        devents.append(&mut ev);
        drepairs.append(&mut rp);
        i = i + 1;
    }
    proof {
        assert(devents@ + Seq::<Event>::empty() =~= devents@);
        assert(drepairs@ + Seq::<RepairEvent>::empty() =~= drepairs@);
    }
    Ok((devents, drepairs))
}

/// Collects the repairs of every stage in pipeline order and wraps
/// the devices' event segments into the document, exactly as
/// `spec_assemble` describes.
#[verifier::loop_isolation(false)]
#[verifier::rlimit(80)]
fn assemble(
    sb: Superblock,
    sb_repaired: bool,
    smbad: &Vec<CorruptRegion>,
    dbad: &Vec<CorruptRegion>,
    mbad: &Vec<CorruptRegion>,
    devents: Vec<Event>,
    drepairs: Vec<RepairEvent>,
) -> (r: (Vec<Event>, Vec<RepairEvent>))
    ensures
        ({
            let s = spec_assemble(sb, sb_repaired, smbad@, dbad@, mbad@, devents@, drepairs@);
            r.0@ == s.0 && r.1@ == s.1
        }),
{
    let mut repairs: Vec<RepairEvent> = Vec::new();
    if sb_repaired {
        repairs.push(
            RepairEvent {
                kind: RepairKind::SuperblockOverridden,
                device_id: None,
                block: 0,
                key_low: 0,
                key_high: None,
            },
        );
    }
    let ghost r0 = repairs@;
    proof {
        if sb_repaired {
            assert(r0 =~= seq![spec_superblock_repair_event()]);
        } else {
            assert(r0 =~= Seq::<RepairEvent>::empty());
        }
    }
    let mut smr = region_events(smbad, RepairKind::SpaceMapNodeSkipped, None);
    repairs.append(&mut smr);
    let mut dr = region_events(dbad, RepairKind::DetailsNodeSkipped, None);
    repairs.append(&mut dr);
    let mut mr = region_events(mbad, RepairKind::MappingNodeSkipped, None);
    repairs.append(&mut mr);
    let mut dreps = drepairs;
    repairs.append(&mut dreps);

    // Assemble the event stream.
    let ghost notices = repairs@.map(|i: int, e: RepairEvent| Event::RepairNotice { event: e });
    let mut events: Vec<Event> = Vec::new();
    events.push(
        Event::BeginDocument {
            transaction_id: sb.transaction_id,
            data_block_size: sb.data_block_size,
            nr_data_blocks: sb.nr_data_blocks,
        },
    );
    let mut de = devents;
    events.append(&mut de);
    let nrep = repairs.len();
    let ghost emid = events@;
    let mut k: usize = 0;
    while k < nrep
        invariant
            0 <= k <= nrep,
            nrep == repairs@.len(),
            notices == repairs@.map(|i: int, e: RepairEvent| Event::RepairNotice { event: e }),
            events@.len() == emid.len() + k,
            forall|j: int| 0 <= j < emid.len() ==> events@[j] == emid[j],
            forall|j: int| 0 <= j < k ==> events@[emid.len() + j] == notices[j],
        decreases nrep - k,
    {
        let ev = repairs[k];
        events.push(Event::RepairNotice { event: ev });
        k = k + 1;
    }
    events.push(Event::EndDocument);
    proof {
        let sevents = seq![
            Event::BeginDocument {
                transaction_id: sb.transaction_id,
                data_block_size: sb.data_block_size,
                nr_data_blocks: sb.nr_data_blocks,
            },
        ] + devents@ + notices + seq![Event::EndDocument];
        assert(events@ =~= sevents);
    }
    (events, repairs)
}

/// Law: dumping is deterministic.  The outcome is a function of the
/// image and the options alone, so two dumps of the same uncorrupted
/// (or corrupted) image under the same options yield identical event
/// streams — and therefore byte-identical serialized output.
pub proof fn lemma_dump_deterministic(
    im: Seq<Seq<u8>>,
    opts: DumpOptions,
    r1: Result<(Seq<Event>, Seq<RepairEvent>), DumpError>,
    r2: Result<(Seq<Event>, Seq<RepairEvent>), DumpError>,
)
    requires
        r1 == spec_dump(im, opts),
        r2 == spec_dump(im, opts),
    ensures
        r1 == r2,
{
}

proof fn lemma_device_dump_err_shape(
    im: Seq<Seq<u8>>,
    sm: Seq<u8>,
    dentries: Seq<(u64, LeafValue)>,
    details_root: u64,
    nr_data_blocks: u64,
    opts: DumpOptions,
    e: (u64, LeafValue),
)
    ensures
        spec_device_dump(im, sm, dentries, details_root, nr_data_blocks, opts, e) is Err
            ==> spec_device_dump(im, sm, dentries, details_root, nr_data_blocks, opts, e)
            matches Err(DumpError::CorruptNode(_)),
{
}

proof fn lemma_devices_dump_strict(
    im: Seq<Seq<u8>>,
    sm: Seq<u8>,
    dentries: Seq<(u64, LeafValue)>,
    details_root: u64,
    nr_data_blocks: u64,
    opts: DumpOptions,
    mentries: Seq<(u64, LeafValue)>,
    i: int,
)
    requires
        !opts.repair,
    ensures
        match spec_devices_dump(im, sm, dentries, details_root, nr_data_blocks, opts, mentries, i) {
            Ok(p) => p.1.len() == 0,
            Err(e) => e matches DumpError::CorruptNode(_),
        },
    decreases mentries.len() - i,
{
    if 0 <= i < mentries.len() {
        lemma_device_dump_err_shape(im, sm, dentries, details_root, nr_data_blocks, opts, mentries[i]);
        lemma_devices_dump_strict(im, sm, dentries, details_root, nr_data_blocks, opts, mentries, i + 1);
    }
}

/// Law: in strict mode nothing is ever silently skipped.  When a
/// strict dump succeeds, its repair list holds at most the record of
/// an overridden superblock — never a skipped subtree or a substituted
/// device record; and when a strict dump fails, the error of any tree
/// stage is a `CorruptNode` naming the offending block.
pub proof fn lemma_strict_dump_has_no_omissions(im: Seq<Seq<u8>>, opts: DumpOptions)
    requires
        !opts.repair,
    ensures
        match spec_dump(im, opts) {
            Ok(d) => forall|j: int|
                0 <= j < d.1.len() ==> (#[trigger] d.1[j]).kind
                    == RepairKind::SuperblockOverridden,
            Err(_) => true,
        },
{
    if spec_dump(im, opts) is Ok {
        let (sb, sb_repaired) = spec_read_superblock(im, opts.overrides)->Ok_0;
        let root = if opts.use_snapshot {
            sb.snapshot_root
        } else {
            sb.mapping_root
        };
        let smr = spec_read_space_map(im, sb.metadata_sm_root, im.len());
        let dw = spec_walk(
            im,
            Some(smr.0),
            ValueKind::Details,
            sb.details_root,
            0,
            None,
            MAX_TREE_DEPTH as nat,
        );
        let mw = spec_walk(
            im,
            Some(smr.0),
            ValueKind::BlockPtr,
            root,
            0,
            None,
            MAX_TREE_DEPTH as nat,
        );
        lemma_devices_dump_strict(
            im,
            smr.0,
            dw.0,
            sb.details_root,
            sb.nr_data_blocks,
            opts,
            mw.0,
            0,
        );
        let d = spec_dump(im, opts)->Ok_0;
        let sbpart: Seq<RepairEvent> = if sb_repaired {
            seq![spec_superblock_repair_event()]
        } else {
            Seq::<RepairEvent>::empty()
        };
        assert(d.1 =~= sbpart);
    }
}

proof fn lemma_devices_dump_fatal(
    im: Seq<Seq<u8>>,
    sm: Seq<u8>,
    dentries: Seq<(u64, LeafValue)>,
    details_root: u64,
    nr_data_blocks: u64,
    opts: DumpOptions,
    mentries: Seq<(u64, LeafValue)>,
    j: int,
    i: int,
)
    requires
        !opts.repair,
        !opts.skip_mappings,
        0 <= j <= i < mentries.len(),
        spec_walk(
            im,
            Some(sm),
            ValueKind::Mapping { nr_data_blocks },
            spec_device_root(mentries[i]),
            0,
            None,
            MAX_TREE_DEPTH as nat,
        ).1.len() > 0,
    ensures
        spec_devices_dump(im, sm, dentries, details_root, nr_data_blocks, opts, mentries, j)
            matches Err(DumpError::CorruptNode(_)),
    decreases i - j,
{
    if j == i {
        lemma_device_dump_err_shape(im, sm, dentries, details_root, nr_data_blocks, opts, mentries[i]);
        assert(spec_device_dump(im, sm, dentries, details_root, nr_data_blocks, opts, mentries[i])
            is Err);
    } else {
        lemma_device_dump_err_shape(im, sm, dentries, details_root, nr_data_blocks, opts, mentries[j]);
        lemma_devices_dump_fatal(
            im,
            sm,
            dentries,
            details_root,
            nr_data_blocks,
            opts,
            mentries,
            j + 1,
            i,
        );
    }
}

/// Law: in strict mode a single rejected subtree in any one device's
/// mapping tree is fatal for the whole dump, with `CorruptNode` — no
/// partial output and no silent omission.  `i` names the device's
/// entry in the walked top-level mapping tree; the preconditions pin
/// the dump down to the device stage (a readable superblock, a clean
/// space map, clean details and top-level trees).
pub proof fn lemma_strict_corruption_is_fatal(im: Seq<Seq<u8>>, opts: DumpOptions, i: int)
    requires
        !opts.repair,
        !opts.skip_mappings,
        !spec_overrides_invalid(opts.overrides),
        spec_read_superblock(im, opts.overrides) is Ok,
        ({
            let sb = spec_read_superblock(im, opts.overrides)->Ok_0.0;
            let root = if opts.use_snapshot {
                sb.snapshot_root
            } else {
                sb.mapping_root
            };
            let smr = spec_read_space_map(im, sb.metadata_sm_root, im.len());
            let dw = spec_walk(
                im,
                Some(smr.0),
                ValueKind::Details,
                sb.details_root,
                0,
                None,
                MAX_TREE_DEPTH as nat,
            );
            let mw = spec_walk(
                im,
                Some(smr.0),
                ValueKind::BlockPtr,
                root,
                0,
                None,
                MAX_TREE_DEPTH as nat,
            );
            &&& !(opts.use_snapshot && sb.snapshot_root == 0)
            &&& smr.1.len() == 0
            &&& dw.1.len() == 0
            &&& mw.1.len() == 0
            &&& 0 <= i < mw.0.len()
            &&& spec_walk(
                im,
                Some(smr.0),
                ValueKind::Mapping { nr_data_blocks: sb.nr_data_blocks },
                spec_device_root(mw.0[i]),
                0,
                None,
                MAX_TREE_DEPTH as nat,
            ).1.len() > 0
        }),
    ensures
        spec_dump(im, opts) matches Err(DumpError::CorruptNode(_)),
{
    let sb = spec_read_superblock(im, opts.overrides)->Ok_0.0;
    let root = if opts.use_snapshot {
        sb.snapshot_root
    } else {
        sb.mapping_root
    };
    let smr = spec_read_space_map(im, sb.metadata_sm_root, im.len());
    let dw = spec_walk(
        im,
        Some(smr.0),
        ValueKind::Details,
        sb.details_root,
        0,
        None,
        MAX_TREE_DEPTH as nat,
    );
    let mw = spec_walk(
        im,
        Some(smr.0),
        ValueKind::BlockPtr,
        root,
        0,
        None,
        MAX_TREE_DEPTH as nat,
    );
    lemma_devices_dump_fatal(
        im,
        smr.0,
        dw.0,
        sb.details_root,
        sb.nr_data_blocks,
        opts,
        mw.0,
        0,
        i,
    );
}

proof fn lemma_devices_dump_repair_ok(
    im: Seq<Seq<u8>>,
    sm: Seq<u8>,
    dentries: Seq<(u64, LeafValue)>,
    details_root: u64,
    nr_data_blocks: u64,
    opts: DumpOptions,
    mentries: Seq<(u64, LeafValue)>,
    i: int,
)
    requires
        opts.repair,
    ensures
        spec_devices_dump(im, sm, dentries, details_root, nr_data_blocks, opts, mentries, i)
            is Ok,
    decreases mentries.len() - i,
{
    if 0 <= i < mentries.len() {
        lemma_devices_dump_repair_ok(
            im,
            sm,
            dentries,
            details_root,
            nr_data_blocks,
            opts,
            mentries,
            i + 1,
        );
    }
}

proof fn lemma_devices_dump_repair_names(
    im: Seq<Seq<u8>>,
    sm: Seq<u8>,
    dentries: Seq<(u64, LeafValue)>,
    details_root: u64,
    nr_data_blocks: u64,
    opts: DumpOptions,
    mentries: Seq<(u64, LeafValue)>,
    j: int,
    i: int,
)
    requires
        opts.repair,
        !opts.skip_mappings,
        0 <= j <= i < mentries.len(),
        spec_walk(
            im,
            Some(sm),
            ValueKind::Mapping { nr_data_blocks },
            spec_device_root(mentries[i]),
            0,
            None,
            MAX_TREE_DEPTH as nat,
        ).1.len() > 0,
    ensures
        ({
            let r = spec_devices_dump(
                im,
                sm,
                dentries,
                details_root,
                nr_data_blocks,
                opts,
                mentries,
                j,
            );
            &&& r is Ok
            &&& exists|k: int|
                0 <= k < r->Ok_0.1.len() && (#[trigger] r->Ok_0.1[k]).kind
                    == RepairKind::MappingNodeSkipped && r->Ok_0.1[k].device_id == Some(
                    mentries[i].0,
                )
        }),
    decreases i - j,
{
    lemma_devices_dump_repair_ok(
        im,
        sm,
        dentries,
        details_root,
        nr_data_blocks,
        opts,
        mentries,
        j,
    );
    lemma_devices_dump_repair_ok(
        im,
        sm,
        dentries,
        details_root,
        nr_data_blocks,
        opts,
        mentries,
        j + 1,
    );
    let h = spec_device_dump(
        im,
        sm,
        dentries,
        details_root,
        nr_data_blocks,
        opts,
        mentries[j],
    )->Ok_0;
    let rest = spec_devices_dump(
        im,
        sm,
        dentries,
        details_root,
        nr_data_blocks,
        opts,
        mentries,
        j + 1,
    )->Ok_0;
    let r = spec_devices_dump(im, sm, dentries, details_root, nr_data_blocks, opts, mentries, j);
    assert(r->Ok_0.1 == h.1 + rest.1);
    if j == i {
        // The device's own segment records the skipped subtree first
        // among its walk's rejections.
        let w = spec_walk(
            im,
            Some(sm),
            ValueKind::Mapping { nr_data_blocks },
            spec_device_root(mentries[i]),
            0,
            None,
            MAX_TREE_DEPTH as nat,
        );
        let regions = spec_region_events(w.1, RepairKind::MappingNodeSkipped, Some(mentries[i].0));
        assert(regions.len() == w.1.len());
        assert(regions[0].kind == RepairKind::MappingNodeSkipped && regions[0].device_id == Some(
            mentries[i].0,
        ));
        let base = h.1.len() - regions.len();
        assert(h.1[base] == regions[0]);
        assert(0 <= base < r->Ok_0.1.len() && r->Ok_0.1[base] == regions[0]);
    } else {
        lemma_devices_dump_repair_names(
            im,
            sm,
            dentries,
            details_root,
            nr_data_blocks,
            opts,
            mentries,
            j + 1,
            i,
        );
        let k0 = choose|k: int|
            0 <= k < rest.1.len() && (#[trigger] rest.1[k]).kind == RepairKind::MappingNodeSkipped
                && rest.1[k].device_id == Some(mentries[i].0);
        let k1 = h.1.len() + k0;
        assert(0 <= k1 < r->Ok_0.1.len() && r->Ok_0.1[k1] == rest.1[k0]);
    }
}

/// Law: a repair-mode dump of a pool with a rejected subtree in one
/// device's mapping tree still succeeds, and its repair-event list
/// names that device: some recorded repair carries the device's id
/// and the skipped-subtree kind.  `i` names the device's entry in the
/// walked top-level mapping tree.
pub proof fn lemma_repair_dump_names_corrupt_device(im: Seq<Seq<u8>>, opts: DumpOptions, i: int)
    requires
        opts.repair,
        !opts.skip_mappings,
        !spec_overrides_invalid(opts.overrides),
        spec_read_superblock(im, opts.overrides) is Ok,
        ({
            let sb = spec_read_superblock(im, opts.overrides)->Ok_0.0;
            let root = if opts.use_snapshot {
                sb.snapshot_root
            } else {
                sb.mapping_root
            };
            let smr = spec_read_space_map(im, sb.metadata_sm_root, im.len());
            let mw = spec_walk(
                im,
                Some(smr.0),
                ValueKind::BlockPtr,
                root,
                0,
                None,
                MAX_TREE_DEPTH as nat,
            );
            &&& !(opts.use_snapshot && sb.snapshot_root == 0)
            &&& 0 <= i < mw.0.len()
            &&& spec_walk(
                im,
                Some(smr.0),
                ValueKind::Mapping { nr_data_blocks: sb.nr_data_blocks },
                spec_device_root(mw.0[i]),
                0,
                None,
                MAX_TREE_DEPTH as nat,
            ).1.len() > 0
        }),
    ensures
        spec_dump(im, opts) is Ok,
        ({
            let d = spec_dump(im, opts)->Ok_0;
            let sb = spec_read_superblock(im, opts.overrides)->Ok_0.0;
            let root = if opts.use_snapshot {
                sb.snapshot_root
            } else {
                sb.mapping_root
            };
            let smr = spec_read_space_map(im, sb.metadata_sm_root, im.len());
            let mw = spec_walk(
                im,
                Some(smr.0),
                ValueKind::BlockPtr,
                root,
                0,
                None,
                MAX_TREE_DEPTH as nat,
            );
            exists|k: int|
                0 <= k < d.1.len() && (#[trigger] d.1[k]).kind == RepairKind::MappingNodeSkipped
                    && d.1[k].device_id == Some(mw.0[i].0)
        }),
{
    let sb = spec_read_superblock(im, opts.overrides)->Ok_0.0;
    let root = if opts.use_snapshot {
        sb.snapshot_root
    } else {
        sb.mapping_root
    };
    let smr = spec_read_space_map(im, sb.metadata_sm_root, im.len());
    let dw = spec_walk(
        im,
        Some(smr.0),
        ValueKind::Details,
        sb.details_root,
        0,
        None,
        MAX_TREE_DEPTH as nat,
    );
    let mw = spec_walk(
        im,
        Some(smr.0),
        ValueKind::BlockPtr,
        root,
        0,
        None,
        MAX_TREE_DEPTH as nat,
    );
    lemma_devices_dump_repair_names(
        im,
        smr.0,
        dw.0,
        sb.details_root,
        sb.nr_data_blocks,
        opts,
        mw.0,
        0,
        i,
    );
    let devs = spec_devices_dump(
        im,
        smr.0,
        dw.0,
        sb.details_root,
        sb.nr_data_blocks,
        opts,
        mw.0,
        0,
    )->Ok_0;
    let d = spec_dump(im, opts)->Ok_0;
    let k0 = choose|k: int|
        0 <= k < devs.1.len() && (#[trigger] devs.1[k]).kind == RepairKind::MappingNodeSkipped
            && devs.1[k].device_id == Some(mw.0[i].0);
    let base = d.1.len() - devs.1.len();
    assert(d.1[base + k0] == devs.1[k0]);
}

/// Law: repair mode degrades per subtree, never pool-wide.  Once the
/// superblock could be read (or repaired through overrides) and the
/// requested mapping root exists, a repair-mode dump always succeeds,
/// whatever corruption the trees hold: every rejected subtree becomes
/// a recorded omission instead of an abort.
pub proof fn lemma_repair_dump_succeeds(im: Seq<Seq<u8>>, opts: DumpOptions)
    requires
        opts.repair,
        !spec_overrides_invalid(opts.overrides),
        spec_read_superblock(im, opts.overrides) is Ok,
        !(opts.use_snapshot && spec_read_superblock(im, opts.overrides)->Ok_0.0.snapshot_root
            == 0),
    ensures
        spec_dump(im, opts) is Ok,
{
    let sb = spec_read_superblock(im, opts.overrides)->Ok_0.0;
    let root = if opts.use_snapshot {
        sb.snapshot_root
    } else {
        sb.mapping_root
    };
    let smr = spec_read_space_map(im, sb.metadata_sm_root, im.len());
    let dw = spec_walk(
        im,
        Some(smr.0),
        ValueKind::Details,
        sb.details_root,
        0,
        None,
        MAX_TREE_DEPTH as nat,
    );
    let mw = spec_walk(
        im,
        Some(smr.0),
        ValueKind::BlockPtr,
        root,
        0,
        None,
        MAX_TREE_DEPTH as nat,
    );
    lemma_devices_dump_repair_ok(
        im,
        smr.0,
        dw.0,
        sb.details_root,
        sb.nr_data_blocks,
        opts,
        mw.0,
        0,
    );
}

} // verus!
