use vstd::prelude::*;
use crate::range::{
    backup_ranges, copy_key, infos_view, is_backed_up, is_nonempty,
    key_from_region, larger_start, leaders_placed, opt_view, ranges_view, smaller_end,
    BackupRange,
};
use crate::region::{find_peer, first_peer_on, RegionInfo, Role};
use crate::codec::{encode_key, encoded};
use crate::response::{answers, bounds_decodable, fill_response, BackupResponse, ShardResult};
use crate::task::Task;

verus! {

/// Settings of a backup endpoint.
#[derive(Clone, Copy, Debug, PartialEq, Eq, Structural)]
pub struct Config {
    /// The store this endpoint runs on.
    pub store_id: u64,
    /// How many shards are scanned at once.
    pub concurrency: usize,
}

/// The backup endpoint of one store.
#[derive(Debug)]
pub struct Endpoint {
    pub store_id: u64,
    pub concurrency: usize,
}

impl Endpoint {
    pub fn new(cfg: Config) -> (r: Endpoint)
        ensures
            r.store_id == cfg.store_id,
            r.concurrency == cfg.concurrency,
    {
        Endpoint { store_id: cfg.store_id, concurrency: cfg.concurrency }
    }

    /// Splits the request `[start_key, end_key)` (a missing bound is unbounded)
    /// over `regions`, the registry's regions in key order: one shard for each
    /// region led from this store whose range meets the request, clipped to it.
    pub fn seek_backup_range(
        &self,
        regions: &Vec<RegionInfo>,
        start_key: &Option<Vec<u8>>,
        end_key: &Option<Vec<u8>>,
    ) -> (r: Vec<BackupRange>)
        requires
            leaders_placed(infos_view(regions@), self.store_id, opt_view(*start_key), opt_view(*end_key)),
        ensures
            ranges_view(r@) == backup_ranges(
                infos_view(regions@),
                self.store_id,
                opt_view(*start_key),
                opt_view(*end_key),
            ),
    {
        let ghost s = opt_view(*start_key);
        let ghost e = opt_view(*end_key);
        let ghost infos = infos_view(regions@);
        let mut out: Vec<BackupRange> = Vec::new();
        let mut i: usize = 0;
        while i < regions.len()
            invariant
                i <= regions@.len(),
                infos == infos_view(regions@),
                s == opt_view(*start_key),
                e == opt_view(*end_key),
                leaders_placed(infos, self.store_id, s, e),
                ranges_view(out@) == backup_ranges(infos.take(i as int), self.store_id, s, e),
            decreases regions.len() - i,
        {
            let info = &regions[i];
            assert(infos.take(i + 1).drop_last() =~= infos.take(i as int));
            assert(infos.take(i + 1).last() == info@);
            if info.role == Role::Leader {
                let (region_start, region_end) = key_from_region(&info.region);
                let skey = larger_start(copy_key(start_key), region_start);
                let ekey = smaller_end(copy_key(end_key), region_end);
                if is_nonempty(&skey, &ekey) {
                    assert(is_backed_up(infos[i as int], s, e));
                    let leader = find_peer(&info.region, self.store_id).unwrap();
                    let brange = BackupRange {
                        start_key: skey,
                        end_key: ekey,
                        region: info.region.duplicate(),
                        leader,
                    };
                    let ghost before = out@;
                    let ghost shard = brange@;
                    out.push(brange);
                    assert(ranges_view(out@) =~= ranges_view(before).push(shard));
                }
            }
            i = i + 1;
        }
        assert(infos.take(regions@.len() as int) =~= infos);
        out
    }
}

/// The encoded bound of a raw request key: the empty key leaves that side unbounded.
pub open spec fn request_bound(k: Seq<u8>) -> Option<Seq<u8>> {
    if k.len() == 0 {
        None
    } else {
        Some(encoded(k))
    }
}

/// The encoded bound of the raw request key `k`.
pub fn encode_bound(k: &Vec<u8>) -> (r: Option<Vec<u8>>)
    ensures
        opt_view(r) == request_bound(k@),
{
    if k.len() == 0 {
        None
    } else {
        Some(encode_key(k.as_slice()))
    }
}

impl Endpoint {
    /// Whether every region of `regions` that this store leads and that meets
    /// the request `[start_key, end_key)` has a peer on this store.
    pub fn leaders_placed(
        &self,
        regions: &Vec<RegionInfo>,
        start_key: &Option<Vec<u8>>,
        end_key: &Option<Vec<u8>>,
    ) -> (r: bool)
        ensures
            r == leaders_placed(infos_view(regions@), self.store_id, opt_view(*start_key), opt_view(*end_key)),
    {
        let ghost s = opt_view(*start_key);
        let ghost e = opt_view(*end_key);
        let ghost infos = infos_view(regions@);
        let mut i: usize = 0;
        while i < regions.len()
            invariant
                i <= regions@.len(),
                infos == infos_view(regions@),
                s == opt_view(*start_key),
                e == opt_view(*end_key),
                forall|j: int|
                    0 <= j < i && #[trigger] is_backed_up(infos[j], s, e) ==> first_peer_on(
                        infos[j].region.peers,
                        self.store_id,
                    ) is Some,
            decreases regions.len() - i,
        {
            let info = &regions[i];
            assert(infos[i as int] == info@);
            if info.role == Role::Leader {
                let (region_start, region_end) = key_from_region(&info.region);
                let skey = larger_start(copy_key(start_key), region_start);
                let ekey = smaller_end(copy_key(end_key), region_end);
                if is_nonempty(&skey, &ekey) && find_peer(&info.region, self.store_id).is_none() {
                    assert(is_backed_up(infos[i as int], s, e));
                    return false;
                }
            }
            i = i + 1;
        }
        true
    }

    /// The shards of a full backup of `task` over `regions`, the registry's
    /// regions in key order.
    pub fn handle_backup_task(&self, task: &Task, regions: &Vec<RegionInfo>) -> (r: Vec<BackupRange>)
        requires
            leaders_placed(
                infos_view(regions@),
                self.store_id,
                request_bound(task.start_key@),
                request_bound(task.end_key@),
            ),
        ensures
            ranges_view(r@) == backup_ranges(
                infos_view(regions@),
                self.store_id,
                request_bound(task.start_key@),
                request_bound(task.end_key@),
            ),
    {
        let start_key = encode_bound(&task.start_key);
        let end_key = encode_bound(&task.end_key);
        self.seek_backup_range(regions, &start_key, &end_key)
    }

    /// The shards to back up for `task`: those of a full backup, and none for
    /// an incremental one, which is not carried out.
    pub fn run(&self, task: &Task, regions: &Vec<RegionInfo>) -> (r: Vec<BackupRange>)
        requires
            leaders_placed(
                infos_view(regions@),
                self.store_id,
                request_bound(task.start_key@),
                request_bound(task.end_key@),
            ),
        ensures
            task.start_ts == task.end_ts ==> ranges_view(r@) == backup_ranges(
                infos_view(regions@),
                self.store_id,
                request_bound(task.start_key@),
                request_bound(task.end_key@),
            ),
            task.start_ts != task.end_ts ==> r@.len() == 0,
    {
        if task.is_full_backup() {
            self.handle_backup_task(task, regions)
        } else {
            Vec::new()
        }
    }
}

/// The responses of `task` for the shard results `results`, in their order:
/// one for each, never more, never fewer. Files carry the task's backup
/// timestamp, its `end_ts`, as both versions.
pub fn collect_responses(task: &Task, results: Vec<(BackupRange, ShardResult)>) -> (r: Vec<
    BackupResponse,
>)
    requires
        forall|i: int| 0 <= i < results@.len() ==> bounds_decodable(#[trigger] results@[i].0),
    ensures
        r@.len() == results@.len(),
        forall|i: int|
            0 <= i < results@.len() ==> answers(
                #[trigger] r@[i],
                results@[i].0,
                results@[i].1,
                task.end_ts,
            ),
{
    let ghost all = results@;
    let mut rest = results;
    let mut out: Vec<BackupResponse> = Vec::new();
    let n = rest.len();
    let mut i: usize = 0;
    while i < n
        invariant
            n == all.len(),
            i <= n,
            rest@ == all.skip(i as int),
            out@.len() == i,
            forall|j: int| 0 <= j < all.len() ==> bounds_decodable(#[trigger] all[j].0),
            forall|j: int|
                0 <= j < i ==> answers(#[trigger] out@[j], all[j].0, all[j].1, task.end_ts),
        decreases n - i,
    {
        assert(rest@[0] == all[i as int]);
        let (brange, res) = rest.remove(0);
        assert(rest@ =~= all.skip(i + 1));
        let resp = fill_response(&brange, res, task.end_ts);
        out.push(resp);
        i = i + 1;
    }
    out
}

} // verus!
