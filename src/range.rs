use vstd::prelude::*;
use crate::key::{key_lt, key_less};
use crate::region::{
    copy_bytes, first_peer_on, Peer, Region, RegionInfo, RegionInfoModel, RegionModel,
    Role,
};

verus! {

/// The key a lower bound starts at: `None` is the lowest key, the empty one.
pub open spec fn lower_key(lo: Option<Seq<u8>>) -> Seq<u8> {
    match lo {
        None => Seq::empty(),
        Some(k) => k,
    }
}

/// The interval from lower bound `lo` to upper bound `hi` (`None` is unbounded) is not empty.
pub open spec fn bound_lt(lo: Option<Seq<u8>>, hi: Option<Seq<u8>>) -> bool {
    match hi {
        None => true,
        Some(h) => key_lt(lower_key(lo), h),
    }
}

/// Lower bound `a` is at or below lower bound `b`.
pub open spec fn lower_le(a: Option<Seq<u8>>, b: Option<Seq<u8>>) -> bool {
    !key_lt(lower_key(b), lower_key(a))
}

/// Upper bound `a` is at or below upper bound `b`.
pub open spec fn upper_le(a: Option<Seq<u8>>, b: Option<Seq<u8>>) -> bool {
    match (a, b) {
        (_, None) => true,
        (None, Some(_)) => false,
        (Some(x), Some(y)) => !key_lt(y, x),
    }
}

/// The larger of two lower bounds.
pub open spec fn max_lower(a: Option<Seq<u8>>, b: Option<Seq<u8>>) -> Option<Seq<u8>> {
    match (a, b) {
        (None, _) => b,
        (_, None) => a,
        (Some(x), Some(y)) => if key_lt(x, y) { b } else { a },
    }
}

/// The smaller of two upper bounds.
pub open spec fn min_upper(a: Option<Seq<u8>>, b: Option<Seq<u8>>) -> Option<Seq<u8>> {
    match (a, b) {
        (None, _) => b,
        (_, None) => a,
        (Some(x), Some(y)) => if key_lt(x, y) { a } else { b },
    }
}

/// A region's lower bound: its start key, or none where that key is empty.
pub open spec fn region_lower(r: RegionModel) -> Option<Seq<u8>> {
    if r.start_key.len() == 0 { None } else { Some(r.start_key) }
}

/// A region's upper bound: its end key, or none where that key is empty.
pub open spec fn region_upper(r: RegionModel) -> Option<Seq<u8>> {
    if r.end_key.len() == 0 { None } else { Some(r.end_key) }
}

/// A region whose range holds at least one key.
pub open spec fn region_wf(r: RegionModel) -> bool {
    bound_lt(region_lower(r), region_upper(r))
}

/// The start of the request `[start, end)` clipped to region `r`.
pub open spec fn clip_start(start: Option<Seq<u8>>, r: RegionModel) -> Option<Seq<u8>> {
    max_lower(start, region_lower(r))
}

/// The end of the request `[start, end)` clipped to region `r`.
pub open spec fn clip_end(end: Option<Seq<u8>>, r: RegionModel) -> Option<Seq<u8>> {
    min_upper(end, region_upper(r))
}

/// Region `info` is led from this store and overlaps the request `[start, end)`.
pub open spec fn is_backed_up(
    info: RegionInfoModel,
    start: Option<Seq<u8>>,
    end: Option<Seq<u8>>,
) -> bool {
    info.role == Role::Leader && bound_lt(clip_start(start, info.region), clip_end(end, info.region))
}

/// One shard of work: the part of a request that falls in one locally-led region.
#[derive(Debug)]
pub struct BackupRange {
    pub start_key: Option<Vec<u8>>,
    pub end_key: Option<Vec<u8>>,
    pub region: Region,
    pub leader: Peer,
}

/// A shard as a mathematical value.
pub struct BackupRangeModel {
    pub start_key: Option<Seq<u8>>,
    pub end_key: Option<Seq<u8>>,
    pub region: RegionModel,
    pub leader: Peer,
}

/// The value of an optional key.
pub open spec fn opt_view(k: Option<Vec<u8>>) -> Option<Seq<u8>> {
    match k {
        None => None,
        Some(v) => Some(v@),
    }
}

impl View for BackupRange {
    type V = BackupRangeModel;

    open spec fn view(&self) -> BackupRangeModel {
        BackupRangeModel {
            start_key: opt_view(self.start_key),
            end_key: opt_view(self.end_key),
            region: self.region@,
            leader: self.leader,
        }
    }
}

/// The shard that region `info` contributes to the request `[start, end)`.
pub open spec fn shard_of(
    info: RegionInfoModel,
    store_id: u64,
    start: Option<Seq<u8>>,
    end: Option<Seq<u8>>,
) -> BackupRangeModel {
    BackupRangeModel {
        start_key: clip_start(start, info.region),
        end_key: clip_end(end, info.region),
        region: info.region,
        leader: first_peer_on(info.region.peers, store_id).unwrap(),
    }
}

/// The shards of the request `[start, end)` over `regions`, in the regions' order:
/// one for each locally-led region whose clipped range is not empty.
pub open spec fn backup_ranges(
    regions: Seq<RegionInfoModel>,
    store_id: u64,
    start: Option<Seq<u8>>,
    end: Option<Seq<u8>>,
) -> Seq<BackupRangeModel>
    decreases regions.len(),
{
    if regions.len() == 0 {
        Seq::empty()
    } else {
        let prev = backup_ranges(regions.drop_last(), store_id, start, end);
        if is_backed_up(regions.last(), start, end) {
            prev.push(shard_of(regions.last(), store_id, start, end))
        } else {
            prev
        }
    }
}

/// The values of registry entries.
pub open spec fn infos_view(regions: Seq<RegionInfo>) -> Seq<RegionInfoModel> {
    regions.map_values(|i: RegionInfo| i@)
}

/// The values of shards.
pub open spec fn ranges_view(ranges: Seq<BackupRange>) -> Seq<BackupRangeModel> {
    ranges.map_values(|r: BackupRange| r@)
}

/// Every locally-led region that overlaps the request has a peer on this store.
pub open spec fn leaders_placed(
    regions: Seq<RegionInfoModel>,
    store_id: u64,
    start: Option<Seq<u8>>,
    end: Option<Seq<u8>>,
) -> bool {
    forall|i: int|
        0 <= i < regions.len() && #[trigger] is_backed_up(regions[i], start, end)
            ==> first_peer_on(regions[i].region.peers, store_id) is Some
}

/// A fresh copy of an optional key.
pub fn copy_key(k: &Option<Vec<u8>>) -> (r: Option<Vec<u8>>)
    ensures
        opt_view(r) == opt_view(*k),
{
    match k {
        None => None,
        Some(v) => Some(copy_bytes(v)),
    }
}

/// The bounds of `region`: a missing bound where its key is empty.
pub fn key_from_region(region: &Region) -> (r: (Option<Vec<u8>>, Option<Vec<u8>>))
    ensures
        opt_view(r.0) == region_lower(region@),
        opt_view(r.1) == region_upper(region@),
{
    let start = if region.start_key.len() == 0 {
        None
    } else {
        Some(copy_bytes(&region.start_key))
    };
    let end = if region.end_key.len() == 0 {
        None
    } else {
        Some(copy_bytes(&region.end_key))
    };
    (start, end)
}

/// The larger of two lower bounds.
pub fn larger_start(a: Option<Vec<u8>>, b: Option<Vec<u8>>) -> (r: Option<Vec<u8>>)
    ensures
        opt_view(r) == max_lower(opt_view(a), opt_view(b)),
{
    match (&a, &b) {
        (None, _) => b,
        (_, None) => a,
        (Some(x), Some(y)) => if key_less(x.as_slice(), y.as_slice()) { b } else { a },
    }
}

/// The smaller of two upper bounds.
pub fn smaller_end(a: Option<Vec<u8>>, b: Option<Vec<u8>>) -> (r: Option<Vec<u8>>)
    ensures
        opt_view(r) == min_upper(opt_view(a), opt_view(b)),
{
    match (&a, &b) {
        (None, _) => b,
        (_, None) => a,
        (Some(x), Some(y)) => if key_less(x.as_slice(), y.as_slice()) { a } else { b },
    }
}

/// Whether the interval from lower bound `lo` to upper bound `hi` holds a key.
pub fn is_nonempty(lo: &Option<Vec<u8>>, hi: &Option<Vec<u8>>) -> (r: bool)
    ensures
        r == bound_lt(opt_view(*lo), opt_view(*hi)),
{
    match hi {
        None => true,
        Some(h) => match lo {
            None => h.len() > 0,
            Some(l) => key_less(l.as_slice(), h.as_slice()),
        },
    }
}

} // verus!
