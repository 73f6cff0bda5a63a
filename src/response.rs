use vstd::prelude::*;
use crate::codec::{decode_key, decoded};
use crate::range::{opt_view, BackupRange};
use crate::region::{copy_bytes, Peer};

verus! {

/// One backup file, as it was uploaded to the sink.
#[derive(Debug)]
pub struct File {
    pub name: String,
    pub sha256: Vec<u8>,
    pub crc32: u32,
    pub size: u64,
    pub start_key: Vec<u8>,
    pub end_key: Vec<u8>,
    pub start_version: u64,
    pub end_version: u64,
    pub cf: String,
}

/// A file descriptor as a mathematical value.
pub struct FileModel {
    pub name: Seq<char>,
    pub sha256: Seq<u8>,
    pub crc32: u32,
    pub size: u64,
    pub start_key: Seq<u8>,
    pub end_key: Seq<u8>,
    pub start_version: u64,
    pub end_version: u64,
    pub cf: Seq<char>,
}

impl View for File {
    type V = FileModel;

    open spec fn view(&self) -> FileModel {
        FileModel {
            name: self.name@,
            sha256: self.sha256@,
            crc32: self.crc32,
            size: self.size,
            start_key: self.start_key@,
            end_key: self.end_key@,
            start_version: self.start_version,
            end_version: self.end_version,
            cf: self.cf@,
        }
    }
}

/// Why a region could not serve the read.
#[derive(Debug)]
pub enum RegionError {
    /// This store's replica no longer leads the region.
    NotLeader { region_id: u64, leader: Option<Peer> },
    /// The region's epoch changed since the request was planned.
    EpochNotMatch,
    /// The region is not on this store.
    RegionNotFound { region_id: u64 },
    /// The key lies outside the region.
    KeyNotInRegion,
    /// The store is too busy to serve.
    ServerIsBusy,
    /// The request went to the wrong store.
    StoreNotMatch,
}

/// A lock met during a scan.
#[derive(Debug)]
pub struct LockInfo {
    pub primary_lock: Vec<u8>,
    pub key: Vec<u8>,
    pub lock_version: u64,
}

/// Why the transaction layer could not read the range.
#[derive(Debug)]
pub enum KvError {
    /// A key is locked by a transaction that started at or before the read.
    Locked(LockInfo),
    /// The read failed for another reason.
    Abort { msg: String },
}

/// Why a shard was not backed up.
#[derive(Debug)]
pub enum BackupError {
    RegionError(RegionError),
    KvError(KvError),
    Other { msg: String },
}

/// The answer for one shard.
#[derive(Debug)]
pub struct BackupResponse {
    pub start_key: Vec<u8>,
    pub end_key: Vec<u8>,
    pub files: Vec<File>,
    pub error: Option<BackupError>,
}

/// What the scan of one shard came to: its files, or why it failed.
pub type ShardResult = Result<Vec<File>, BackupError>;

/// A shard bound given back in raw keys: an unbounded side is the empty key.
pub open spec fn raw_bound(k: Option<Seq<u8>>) -> Seq<u8> {
    match k {
        None => Seq::empty(),
        Some(e) => decoded(e).unwrap(),
    }
}

/// Each bound of the shard is a well-formed encoded key.
pub open spec fn bounds_decodable(b: BackupRange) -> bool {
    &&& (opt_view(b.start_key) is Some ==> decoded(opt_view(b.start_key).unwrap()) is Some)
    &&& (opt_view(b.end_key) is Some ==> decoded(opt_view(b.end_key).unwrap()) is Some)
}

/// File `f` is file `g` stamped with the shard's raw bounds and, as both its
/// versions, the timestamp `backup_ts` of the snapshot it was read from.
pub open spec fn stamped(
    f: FileModel,
    g: FileModel,
    start: Seq<u8>,
    end: Seq<u8>,
    backup_ts: u64,
) -> bool {
    &&& f.name == g.name
    &&& f.sha256 == g.sha256
    &&& f.crc32 == g.crc32
    &&& f.size == g.size
    &&& f.cf == g.cf
    &&& f.start_key == start
    &&& f.end_key == end
    &&& f.start_version == backup_ts
    &&& f.end_version == backup_ts
}

/// Response `r` answers the shard `b` whose scan came to `res`.
pub open spec fn answers(
    r: BackupResponse,
    b: BackupRange,
    res: ShardResult,
    backup_ts: u64,
) -> bool {
    &&& r.start_key@ == raw_bound(opt_view(b.start_key))
    &&& r.end_key@ == raw_bound(opt_view(b.end_key))
    &&& match res {
        Ok(files) => {
            &&& r.error is None
            &&& r.files@.len() == files@.len()
            &&& forall|i: int|
                0 <= i < files@.len() ==> stamped(
                    #[trigger] r.files@[i]@,
                    files@[i]@,
                    r.start_key@,
                    r.end_key@,
                    backup_ts,
                )
        },
        Err(e) => r.error == Some(e) && r.files@.len() == 0,
    }
}

/// The raw key of a shard bound.
fn raw_key(k: &Option<Vec<u8>>) -> (r: Vec<u8>)
    requires
        opt_view(*k) is Some ==> decoded(opt_view(*k).unwrap()) is Some,
    ensures
        r@ == raw_bound(opt_view(*k)),
{
    match k {
        None => Vec::new(),
        Some(e) => decode_key(e.as_slice()).unwrap(),
    }
}

/// The response for shard `brange` whose scan came to `res`: its bounds as raw
/// keys, and either its files, each stamped with those bounds and with the
/// backup timestamp `backup_ts` as both versions, or the error.
pub fn fill_response(brange: &BackupRange, res: ShardResult, backup_ts: u64) -> (r: BackupResponse)
    requires
        bounds_decodable(*brange),
    ensures
        answers(r, *brange, res, backup_ts),
{
    let start_key = raw_key(&brange.start_key);
    let end_key = raw_key(&brange.end_key);
    match res {
        Ok(files) => {
            let mut out: Vec<File> = Vec::with_capacity(files.len());
            let mut i: usize = 0;
            while i < files.len()
                invariant
                    i <= files@.len(),
                    out@.len() == i,
                    forall|j: int|
                        0 <= j < i ==> stamped(
                            #[trigger] out@[j]@,
                            files@[j]@,
                            start_key@,
                            end_key@,
                            backup_ts,
                        ),
                decreases files.len() - i,
            {
                let f = &files[i];
                let g = File {
                    name: f.name.clone(),
                    sha256: copy_bytes(&f.sha256),
                    crc32: f.crc32,
                    size: f.size,
                    start_key: copy_bytes(&start_key),
                    end_key: copy_bytes(&end_key),
                    start_version: backup_ts,
                    end_version: backup_ts,
                    cf: f.cf.clone(),
                };
                out.push(g);
                i = i + 1;
            }
            BackupResponse { start_key, end_key, files: out, error: None }
        },
        Err(e) => BackupResponse { start_key, end_key, files: Vec::new(), error: Some(e) },
    }
}

/// The files that a shard's writers leave: the file of the `default` column
/// family, then that of the `write` one, each only where its writer got
/// entries.
pub fn saved_files(default_cf: Option<File>, write_cf: Option<File>) -> (r: Vec<File>)
    ensures
        r@.len() == (if default_cf is Some { 1int } else { 0 }) + (if write_cf is Some { 1int } else { 0 }),
        r@.len() <= 2,
        default_cf is Some ==> r@[0] == default_cf->Some_0,
        write_cf is Some ==> r@[r@.len() - 1] == write_cf->Some_0,
{
    let mut files: Vec<File> = Vec::new();
    match default_cf {
        Some(f) => files.push(f),
        None => {},
    }
    match write_cf {
        Some(f) => files.push(f),
        None => {},
    }
    files
}

} // verus!
