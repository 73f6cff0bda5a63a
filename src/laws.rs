use vstd::prelude::*;
use crate::key::{
    key_lt, lemma_key_lt_asymmetric, lemma_key_lt_irreflexive, lemma_key_lt_total,
    lemma_key_lt_transitive,
};
use crate::range::{
    backup_ranges, bound_lt, clip_end, clip_start, lower_key, lower_le, max_lower, min_upper,
    region_lower, region_upper, shard_of, upper_le, BackupRangeModel,
};
use crate::range::{is_backed_up, region_wf};
use crate::region::{first_peer_on, RegionInfoModel, RegionModel, Role};
use crate::response::{answers, stamped, BackupError, BackupResponse, File, KvError, RegionError};
use crate::scan::{action_for, Phase, ScanEvent};
use crate::range::BackupRange;

verus! {

proof fn lemma_max_lower_bounds(a: Option<Seq<u8>>, b: Option<Seq<u8>>)
    ensures
        lower_le(a, max_lower(a, b)),
        lower_le(b, max_lower(a, b)),
{
    lemma_key_lt_irreflexive(lower_key(a));
    lemma_key_lt_irreflexive(lower_key(b));
    if let (Some(x), Some(y)) = (a, b) {
        if key_lt(x, y) {
            lemma_key_lt_asymmetric(x, y);
        }
    }
}

proof fn lemma_min_upper_bounds(a: Option<Seq<u8>>, b: Option<Seq<u8>>)
    ensures
        upper_le(min_upper(a, b), a),
        upper_le(min_upper(a, b), b),
{
    if let Some(x) = a {
        lemma_key_lt_irreflexive(x);
    }
    if let Some(y) = b {
        lemma_key_lt_irreflexive(y);
    }
    if let (Some(x), Some(y)) = (a, b) {
        if key_lt(x, y) {
            lemma_key_lt_asymmetric(x, y);
        }
    }
}

/// The shard cut from one region for `[start, end)` lies inside both.
pub open spec fn shard_within(
    shard: BackupRangeModel,
    start: Option<Seq<u8>>,
    end: Option<Seq<u8>>,
) -> bool {
    &&& bound_lt(shard.start_key, shard.end_key)
    &&& lower_le(start, shard.start_key)
    &&& upper_le(shard.end_key, end)
    &&& lower_le(region_lower(shard.region), shard.start_key)
    &&& upper_le(shard.end_key, region_upper(shard.region))
}

/// Every shard of a request is a non-empty range that lies inside both the
/// request's range and the range of the region it was cut from.
pub proof fn lemma_shards_within_request_and_region(
    regions: Seq<RegionInfoModel>,
    store_id: u64,
    start: Option<Seq<u8>>,
    end: Option<Seq<u8>>,
)
    ensures
        forall|k: int|
            0 <= k < backup_ranges(regions, store_id, start, end).len() ==> shard_within(
                #[trigger] backup_ranges(regions, store_id, start, end)[k],
                start,
                end,
            ),
    decreases regions.len(),
{
    if regions.len() > 0 {
        lemma_shards_within_request_and_region(regions.drop_last(), store_id, start, end);
        let r = regions.last().region;
        lemma_max_lower_bounds(start, region_lower(r));
        lemma_min_upper_bounds(end, region_upper(r));
        let prev = backup_ranges(regions.drop_last(), store_id, start, end);
        let all = backup_ranges(regions, store_id, start, end);
        assert forall|k: int| 0 <= k < all.len() implies shard_within(#[trigger] all[k], start, end) by {
            if k < prev.len() {
                assert(all[k] == prev[k]);
            }
        }
    }
}

/// The shard that covers the whole of a locally-led region.
pub open spec fn whole_region_shard(info: RegionInfoModel, store_id: u64) -> BackupRangeModel {
    BackupRangeModel {
        start_key: region_lower(info.region),
        end_key: region_upper(info.region),
        region: info.region,
        leader: first_peer_on(info.region.peers, store_id).unwrap(),
    }
}

/// One whole-region shard for each region led from this store, in order.
pub open spec fn led_regions(regions: Seq<RegionInfoModel>, store_id: u64) -> Seq<BackupRangeModel>
    decreases regions.len(),
{
    if regions.len() == 0 {
        Seq::empty()
    } else {
        let prev = led_regions(regions.drop_last(), store_id);
        if regions.last().role == Role::Leader {
            prev.push(whole_region_shard(regions.last(), store_id))
        } else {
            prev
        }
    }
}

/// A request with no lower bound starts each shard where its region starts; one
/// with no upper bound ends each shard where its region ends; and one with
/// neither covers every locally-led region whole.
pub proof fn lemma_unbounded_request(
    regions: Seq<RegionInfoModel>,
    store_id: u64,
    start: Option<Seq<u8>>,
    end: Option<Seq<u8>>,
)
    requires
        forall|i: int| 0 <= i < regions.len() ==> region_wf(#[trigger] regions[i].region),
    ensures
        start is None ==> forall|k: int|
            0 <= k < backup_ranges(regions, store_id, start, end).len() ==> (
            #[trigger] backup_ranges(regions, store_id, start, end)[k]).start_key == region_lower(
                backup_ranges(regions, store_id, start, end)[k].region,
            ),
        end is None ==> forall|k: int|
            0 <= k < backup_ranges(regions, store_id, start, end).len() ==> (
            #[trigger] backup_ranges(regions, store_id, start, end)[k]).end_key == region_upper(
                backup_ranges(regions, store_id, start, end)[k].region,
            ),
        start is None && end is None ==> backup_ranges(regions, store_id, start, end) == led_regions(
            regions,
            store_id,
        ),
    decreases regions.len(),
{
    if regions.len() > 0 {
        let init = regions.drop_last();
        assert forall|i: int| 0 <= i < init.len() implies region_wf(#[trigger] init[i].region) by {
            assert(init[i] == regions[i]);
        }
        lemma_unbounded_request(init, store_id, start, end);
        let prev = backup_ranges(init, store_id, start, end);
        let all = backup_ranges(regions, store_id, start, end);
        assert(region_wf(regions[regions.len() - 1].region));
        assert forall|k: int| 0 <= k < prev.len() implies all[k] == #[trigger] prev[k] by {}
    }
}

/// Key `a` is at or below key `b`.
pub open spec fn key_le(a: Seq<u8>, b: Seq<u8>) -> bool {
    !key_lt(b, a)
}

proof fn lemma_key_le_transitive(a: Seq<u8>, b: Seq<u8>, c: Seq<u8>)
    requires
        key_le(a, b),
        key_le(b, c),
    ensures
        key_le(a, c),
{
    lemma_key_lt_total(a, b);
    lemma_key_lt_total(b, c);
    if key_lt(c, a) {
        if key_lt(a, b) {
            lemma_key_lt_transitive(c, a, b);
        }
    }
}

proof fn lemma_key_le_lt(a: Seq<u8>, b: Seq<u8>, c: Seq<u8>)
    requires
        key_le(a, b),
        key_lt(b, c),
    ensures
        key_lt(a, c),
{
    lemma_key_lt_total(a, b);
    if key_lt(a, b) {
        lemma_key_lt_transitive(a, b, c);
    }
}

/// Region `a` ends at or before region `b` starts.
pub open spec fn ends_before(a: RegionModel, b: RegionModel) -> bool {
    match region_upper(a) {
        None => false,
        Some(x) => key_le(x, b.start_key),
    }
}

/// The registry's regions are non-empty and listed in key order, none
/// overlapping another: what a registry that partitions the key space gives.
pub open spec fn regions_ordered(regions: Seq<RegionInfoModel>) -> bool {
    &&& forall|i: int| 0 <= i < regions.len() ==> region_wf(#[trigger] regions[i].region)
    &&& forall|i: int, j: int|
        0 <= i < j < regions.len() ==> ends_before(#[trigger] regions[i].region, #[trigger] regions[j].region)
}

proof fn lemma_none_backed_up(
    regions: Seq<RegionInfoModel>,
    store_id: u64,
    start: Option<Seq<u8>>,
    end: Option<Seq<u8>>,
)
    requires
        forall|j: int| 0 <= j < regions.len() ==> !is_backed_up(#[trigger] regions[j], start, end),
    ensures
        backup_ranges(regions, store_id, start, end) == Seq::<BackupRangeModel>::empty(),
    decreases regions.len(),
{
    if regions.len() > 0 {
        let init = regions.drop_last();
        assert forall|j: int| 0 <= j < init.len() implies !is_backed_up(#[trigger] init[j], start, end) by {
            assert(init[j] == regions[j]);
        }
        assert(!is_backed_up(regions[regions.len() - 1], start, end));
        lemma_none_backed_up(init, store_id, start, end);
    }
}

proof fn lemma_only_one_backed_up(
    regions: Seq<RegionInfoModel>,
    store_id: u64,
    start: Option<Seq<u8>>,
    end: Option<Seq<u8>>,
    k: int,
)
    requires
        0 <= k < regions.len(),
        is_backed_up(regions[k], start, end),
        forall|j: int| 0 <= j < regions.len() && j != k ==> !is_backed_up(#[trigger] regions[j], start, end),
    ensures
        backup_ranges(regions, store_id, start, end) == seq![shard_of(regions[k], store_id, start, end)],
    decreases regions.len(),
{
    let init = regions.drop_last();
    if k == regions.len() - 1 {
        assert forall|j: int| 0 <= j < init.len() implies !is_backed_up(#[trigger] init[j], start, end) by {
            assert(init[j] == regions[j]);
        }
        lemma_none_backed_up(init, store_id, start, end);
        assert(backup_ranges(regions, store_id, start, end) =~= seq![shard_of(regions[k], store_id, start, end)]);
    } else {
        assert forall|j: int| 0 <= j < init.len() && j != k implies !is_backed_up(#[trigger] init[j], start, end) by {
            assert(init[j] == regions[j]);
        }
        assert(init[k] == regions[k]);
        assert(!is_backed_up(regions[regions.len() - 1], start, end));
        lemma_only_one_backed_up(init, store_id, start, end, k);
    }
}

/// A request whose range lies inside one locally-led region of an ordered
/// registry yields exactly one shard, with the request's own bounds.
pub proof fn lemma_request_inside_one_region(
    regions: Seq<RegionInfoModel>,
    store_id: u64,
    start: Option<Seq<u8>>,
    end: Option<Seq<u8>>,
    k: int,
)
    requires
        regions_ordered(regions),
        0 <= k < regions.len(),
        regions[k].role == Role::Leader,
        lower_le(region_lower(regions[k].region), start),
        upper_le(end, region_upper(regions[k].region)),
        bound_lt(start, end),
    ensures
        backup_ranges(regions, store_id, start, end) == seq![
            BackupRangeModel {
                start_key: start,
                end_key: end,
                region: regions[k].region,
                leader: first_peer_on(regions[k].region.peers, store_id).unwrap(),
            },
        ],
{
    let rk = regions[k].region;
    // The request's bounds survive the clipping to region k.
    if let (Some(x), Some(y)) = (end, region_upper(rk)) {
        lemma_key_lt_total(x, y);
    }
    assert(clip_start(start, rk) == start);
    assert(clip_end(end, rk) == end);
    assert forall|j: int| 0 <= j < regions.len() && j != k implies !is_backed_up(
        #[trigger] regions[j],
        start,
        end,
    ) by {
        let rj = regions[j].region;
        let cs = clip_start(start, rj);
        let ce = clip_end(end, rj);
        lemma_max_lower_bounds(start, region_lower(rj));
        lemma_min_upper_bounds(end, region_upper(rj));
        if bound_lt(cs, ce) {
            let ce_key = ce.unwrap();
            if j < k {
                assert(ends_before(rj, rk));
                let xj = region_upper(rj).unwrap();
                // ce <= xj <= start of k <= start <= cs < ce
                assert(key_le(ce_key, xj));
                assert(key_le(rk.start_key, lower_key(start)));
                lemma_key_le_transitive(ce_key, xj, rk.start_key);
                lemma_key_le_transitive(ce_key, rk.start_key, lower_key(start));
                lemma_key_le_transitive(ce_key, lower_key(start), lower_key(cs));
                lemma_key_le_lt(ce_key, lower_key(cs), ce_key);
                lemma_key_lt_irreflexive(ce_key);
            } else {
                assert(ends_before(rk, rj));
                let yk = region_upper(rk).unwrap();
                let x = end.unwrap();
                // ce <= end <= end of k <= start of j <= cs < ce
                assert(key_le(ce_key, x));
                assert(key_le(x, yk));
                assert(key_le(rj.start_key, lower_key(cs)));
                lemma_key_le_transitive(ce_key, x, yk);
                lemma_key_le_transitive(ce_key, yk, rj.start_key);
                lemma_key_le_transitive(ce_key, rj.start_key, lower_key(cs));
                lemma_key_le_lt(ce_key, lower_key(cs), ce_key);
                lemma_key_lt_irreflexive(ce_key);
            }
        }
    }
    lemma_only_one_backed_up(regions, store_id, start, end, k);
}

/// In the answer to a shard backed up at timestamp `ts` that succeeded, every file covers exactly the response's key range, and both
/// its versions are `ts`.
pub proof fn lemma_files_carry_response_range(
    r: BackupResponse,
    b: BackupRange,
    files: Vec<File>,
    ts: u64,
)
    requires
        answers(r, b, Ok(files), ts),
    ensures
        r.error is None,
        forall|i: int|
            0 <= i < r.files@.len() ==> {
                &&& (#[trigger] r.files@[i]).start_key@ == r.start_key@
                &&& r.files@[i].end_key@ == r.end_key@
                &&& r.files@[i].start_version == ts
                &&& r.files@[i].end_version == ts
            },
{
    assert forall|i: int| 0 <= i < r.files@.len() implies {
        &&& (#[trigger] r.files@[i]).start_key@ == r.start_key@
        &&& r.files@[i].end_key@ == r.end_key@
        &&& r.files@[i].start_version == ts
        &&& r.files@[i].end_version == ts
    } by {
        assert(stamped(r.files@[i]@, files@[i]@, r.start_key@, r.end_key@, ts));
    }
}

/// Key `k` is at or above lower bound `lo`.
pub open spec fn above_lower(k: Seq<u8>, lo: Option<Seq<u8>>) -> bool {
    !key_lt(k, lower_key(lo))
}

/// Key `k` is below upper bound `hi`.
pub open spec fn below_upper(k: Seq<u8>, hi: Option<Seq<u8>>) -> bool {
    match hi {
        None => true,
        Some(h) => key_lt(k, h),
    }
}

/// Key `k` lies in the interval from `lo` to `hi`.
pub open spec fn key_within(k: Seq<u8>, lo: Option<Seq<u8>>, hi: Option<Seq<u8>>) -> bool {
    above_lower(k, lo) && below_upper(k, hi)
}

proof fn lemma_shard_listed(
    regions: Seq<RegionInfoModel>,
    store_id: u64,
    start: Option<Seq<u8>>,
    end: Option<Seq<u8>>,
    i: int,
)
    requires
        0 <= i < regions.len(),
        is_backed_up(regions[i], start, end),
    ensures
        exists|j: int|
            0 <= j < backup_ranges(regions, store_id, start, end).len()
                && #[trigger] backup_ranges(regions, store_id, start, end)[j] == shard_of(
                regions[i],
                store_id,
                start,
                end,
            ),
    decreases regions.len(),
{
    let all = backup_ranges(regions, store_id, start, end);
    if i == regions.len() - 1 {
        assert(all[all.len() - 1] == shard_of(regions[i], store_id, start, end));
    } else {
        let init = regions.drop_last();
        assert(init[i] == regions[i]);
        lemma_shard_listed(init, store_id, start, end, i);
        let prev = backup_ranges(init, store_id, start, end);
        let j = choose|j: int| 0 <= j < prev.len() && #[trigger] prev[j] == shard_of(init[i], store_id, start, end);
        assert(all[j] == prev[j]);
    }
}

/// Every key of the request `[start, end)` that lies in a region led from
/// this store lies in a shard cut from that region. So a request with no
/// lower bound is covered from the lowest key, one with no upper bound to the
/// top of the key space, and one with neither everywhere the store leads.
pub proof fn lemma_request_keys_covered(
    regions: Seq<RegionInfoModel>,
    store_id: u64,
    start: Option<Seq<u8>>,
    end: Option<Seq<u8>>,
    i: int,
    k: Seq<u8>,
)
    requires
        0 <= i < regions.len(),
        regions[i].role == Role::Leader,
        key_within(k, region_lower(regions[i].region), region_upper(regions[i].region)),
        key_within(k, start, end),
    ensures
        exists|j: int|
            0 <= j < backup_ranges(regions, store_id, start, end).len() && {
                let b = #[trigger] backup_ranges(regions, store_id, start, end)[j];
                &&& b.region == regions[i].region
                &&& key_within(k, b.start_key, b.end_key)
            },
{
    let r = regions[i].region;
    let cs = clip_start(start, r);
    let ce = clip_end(end, r);
    // k is at or above the larger lower bound and below the smaller upper one.
    assert(above_lower(k, cs));
    if let (Some(x), Some(y)) = (end, region_upper(r)) {
        lemma_key_lt_total(x, y);
    }
    assert(below_upper(k, ce));
    if let Some(h) = ce {
        lemma_key_lt_total(k, lower_key(cs));
        if key_lt(lower_key(cs), k) {
            lemma_key_lt_transitive(lower_key(cs), k, h);
        }
    }
    assert(is_backed_up(regions[i], start, end));
    lemma_shard_listed(regions, store_id, start, end, i);
    let all = backup_ranges(regions, store_id, start, end);
    let j = choose|j: int| 0 <= j < all.len() && #[trigger] all[j] == shard_of(regions[i], store_id, start, end);
    assert(all[j].region == r && key_within(k, all[j].start_key, all[j].end_key));
}

/// A shard whose region refuses the snapshot (for instance because this store
/// no longer leads it) is answered with that region error and no files.
pub proof fn lemma_snapshot_failure_answered(
    r: BackupResponse,
    b: BackupRange,
    e: RegionError,
    ts: u64,
)
    requires
        answers(r, b, action_for(Phase::Snapshot, ScanEvent::SnapshotFailed(e))->Report_0, ts),
    ensures
        r.error == Some(BackupError::RegionError(e)),
        r.files@.len() == 0,
{
}

/// A shard whose scan fails (for instance on a key locked by a transaction
/// that started before the backup) is answered with that kv error and no files.
pub proof fn lemma_scan_failure_answered(r: BackupResponse, b: BackupRange, e: KvError, ts: u64)
    requires
        answers(r, b, action_for(Phase::Scanning, ScanEvent::ScanFailed(e))->Report_0, ts),
    ensures
        r.error == Some(BackupError::KvError(e)),
        r.files@.len() == 0,
{
}

} // verus!
