use backup::codec::{decode_key, encode_key};
use backup::endpoint::{collect_responses, encode_bound, Config, Endpoint};
use backup::range::BackupRange;
use backup::region::{Peer, Region, RegionEpoch, RegionInfo, Role};
use backup::response::{
    saved_files, BackupError, BackupResponse, File, KvError, LockInfo, RegionError, ShardResult,
};
use backup::scan::{Phase, ScanAction, ScanEvent, ShardScan};
use backup::task::{BackupRequest, Task};

fn new_endpoint() -> Endpoint {
    Endpoint::new(Config { store_id: 1, concurrency: 4 })
}

fn encoded_or_empty(raw: &[u8]) -> Vec<u8> {
    if raw.is_empty() {
        vec![]
    } else {
        encode_key(raw)
    }
}

fn regions_of(spec: Vec<(&[u8], &[u8], u64)>) -> Vec<RegionInfo> {
    spec.into_iter()
        .map(|(s, e, id)| RegionInfo {
            region: Region {
                id,
                epoch: RegionEpoch { conf_ver: 1, version: 1 },
                start_key: encoded_or_empty(s),
                end_key: encoded_or_empty(e),
                peers: vec![Peer { id: 1, store_id: 1 }],
            },
            role: Role::Leader,
        })
        .collect()
}

fn raw_of(k: &Option<Vec<u8>>) -> Vec<u8> {
    match k {
        None => vec![],
        Some(e) => decode_key(e).unwrap(),
    }
}

fn file(name: &str, cf: &str) -> File {
    File {
        name: name.to_string(),
        sha256: vec![1, 2, 3],
        crc32: 7,
        size: 100,
        start_key: vec![],
        end_key: vec![],
        start_version: 0,
        end_version: 0,
        cf: cf.to_string(),
    }
}

/// Drives one shard through the given events and returns what it reported.
fn drive(events: Vec<ScanEvent>) -> ShardResult {
    let mut scan = ShardScan::new();
    for ev in events {
        if let ScanAction::Report(res) = scan.step(ev) {
            return res;
        }
    }
    panic!("shard did not report");
}

fn successful_scan(files: Vec<File>) -> Vec<ScanEvent> {
    vec![
        ScanEvent::SnapshotTaken,
        ScanEvent::Batch { len: 10 },
        ScanEvent::Written,
        ScanEvent::Batch { len: 0 },
        ScanEvent::Saved(files),
    ]
}

fn request(start: &[u8], end: &[u8], ts: u64, path: &str) -> BackupRequest {
    BackupRequest {
        start_key: start.to_vec(),
        end_key: end.to_vec(),
        start_version: ts,
        end_version: ts,
        path: path.to_string(),
    }
}

fn backup(endpoint: &Endpoint, regions: &Vec<RegionInfo>, task: &Task) -> Vec<BackupResponse> {
    let ranges = endpoint.run(task, regions);
    let results: Vec<(BackupRange, ShardResult)> = ranges
        .into_iter()
        .map(|r| (r, drive(successful_scan(vec![]))))
        .collect();
    collect_responses(task, results)
}

#[test]
fn test_seek_range() {
    let endpoint = new_endpoint();
    let regions = regions_of(vec![
        (b"", b"1", 1),
        (b"1", b"2", 2),
        (b"3", b"4", 3),
        (b"7", b"9", 4),
        (b"9", b"", 5),
    ]);
    let t = |start_key: &[u8], end_key: &[u8], expect: Vec<(&[u8], &[u8])>| {
        let start_key = encode_bound(&start_key.to_vec());
        let end_key = encode_bound(&end_key.to_vec());
        let ranges = endpoint.seek_backup_range(&regions, &start_key, &end_key);
        assert_eq!(ranges.len(), expect.len(), "got {:?}, expect {:?}", ranges, expect);
        for (a, b) in ranges.into_iter().zip(expect) {
            assert_eq!(raw_of(&a.start_key), b.0);
            assert_eq!(raw_of(&a.end_key), b.1);
        }
    };
    let tt = |start_key: &[u8], end_key: &[u8], expect: Vec<(&[u8], &[u8])>| {
        let task = Task::new(request(start_key, end_key, 1, "local:///tmp/backup")).unwrap();
        let resps = backup(&endpoint, &regions, &task);
        let mut counter = 0;
        for a in &resps {
            counter += 1;
            assert!(
                expect.iter().any(|b| a.start_key == b.0 && a.end_key == b.1),
                "{:?} {:?}",
                resps,
                expect
            );
        }
        assert_eq!(counter, expect.len());
    };

    let case: Vec<(&[u8], &[u8], Vec<(&[u8], &[u8])>)> = vec![
        (b"", b"1", vec![(b"", b"1")]),
        (b"", b"2", vec![(b"", b"1"), (b"1", b"2")]),
        (b"1", b"2", vec![(b"1", b"2")]),
        (b"1", b"3", vec![(b"1", b"2")]),
        (b"1", b"4", vec![(b"1", b"2"), (b"3", b"4")]),
        (b"4", b"6", vec![]),
        (b"4", b"5", vec![]),
        (b"2", b"7", vec![(b"3", b"4")]),
        (b"3", b"", vec![(b"3", b"4"), (b"7", b"9"), (b"9", b"")]),
        (b"5", b"", vec![(b"7", b"9"), (b"9", b"")]),
        (b"7", b"", vec![(b"7", b"9"), (b"9", b"")]),
        (b"8", b"91", vec![(b"8", b"9"), (b"9", b"91")]),
        (b"8", b"", vec![(b"8", b"9"), (b"9", b"")]),
        (
            b"",
            b"",
            vec![(b"", b"1"), (b"1", b"2"), (b"3", b"4"), (b"7", b"9"), (b"9", b"")],
        ),
    ];
    for (start_key, end_key, ranges) in case {
        t(start_key, end_key, ranges.clone());
        tt(start_key, end_key, ranges);
    }
}

#[test]
fn test_handle_backup_task() {
    let endpoint = new_endpoint();
    let regions = regions_of(vec![(b"", b"5", 1)]);
    let short_value_max_len: usize = 255;

    let mut ts = 1;
    let mut backup_tss = vec![];
    for len in &[short_value_max_len - 1, short_value_max_len * 2] {
        for _ in 0..10u8 {
            ts += 3;
            backup_tss.push((ts, *len));
        }
    }

    for (ts, len) in backup_tss {
        // Empty path should return an error.
        assert!(Task::new(request(b"", b"5", ts, "")).is_err());

        let path = format!("local:///tmp/backup/{}", ts);
        let task = Task::new(request(b"", b"5", ts, &path)).unwrap();
        let ranges = endpoint.handle_backup_task(&task, &regions);
        assert_eq!(ranges.len(), 1);
        // The SST writer is outside this library: what it leaves is given here
        // as it would be, one file per column family that got entries. Short
        // values are kept in the write column family alone.
        let default_cf = if len <= short_value_max_len { None } else { Some(file("d", "default")) };
        let files = saved_files(default_cf, Some(file("w", "write")));
        let results: Vec<(BackupRange, ShardResult)> = ranges
            .into_iter()
            .map(|r| (r, drive(successful_scan(files_copy(&files)))))
            .collect();
        let resps = collect_responses(&task, results);
        assert_eq!(resps.len(), 1);
        let resp = &resps[0];
        assert!(resp.error.is_none(), "{:?}", resp);
        let file_len = if len <= short_value_max_len { 1 } else { 2 };
        assert_eq!(resp.files.len(), file_len, "{:?}", resp);
    }
}

fn files_copy(files: &Vec<File>) -> Vec<File> {
    files
        .iter()
        .map(|f| File {
            name: f.name.clone(),
            sha256: f.sha256.clone(),
            crc32: f.crc32,
            size: f.size,
            start_key: f.start_key.clone(),
            end_key: f.end_key.clone(),
            start_version: f.start_version,
            end_version: f.end_version,
            cf: f.cf.clone(),
        })
        .collect()
}

#[test]
fn test_scan_error() {
    let endpoint = new_endpoint();
    let regions = regions_of(vec![(b"", b"5", 1)]);

    let start: u64 = 2;
    let key = format!("{}", start);
    let now: u64 = 3;
    let path = format!("local:///tmp/backup/{}", now);
    let task = Task::new(request(b"", b"5", now, &path)).unwrap();
    let ranges = endpoint.handle_backup_task(&task, &regions);
    let results: Vec<(BackupRange, ShardResult)> = ranges
        .into_iter()
        .map(|r| {
            let lock = LockInfo {
                primary_lock: key.as_bytes().to_vec(),
                key: key.as_bytes().to_vec(),
                lock_version: start,
            };
            let res = drive(vec![
                ScanEvent::SnapshotTaken,
                ScanEvent::ScanFailed(KvError::Locked(lock)),
            ]);
            (r, res)
        })
        .collect();
    let resps = collect_responses(&task, results);
    assert_eq!(resps.len(), 1);
    let resp = &resps[0];
    assert!(matches!(resp.error, Some(BackupError::KvError(_))), "{:?}", resp);
    assert!(matches!(resp.error, Some(BackupError::KvError(KvError::Locked(_)))), "{:?}", resp);
    assert_eq!(resp.files.len(), 0, "{:?}", resp);

    // The region's leader moved away before the snapshot.
    let now: u64 = 5;
    let path = format!("local:///tmp/backup/{}", now);
    let task = Task::new(request(b"", b"5", now, &path)).unwrap();
    let ranges = endpoint.handle_backup_task(&task, &regions);
    let results: Vec<(BackupRange, ShardResult)> = ranges
        .into_iter()
        .map(|r| {
            let err = RegionError::NotLeader { region_id: r.region.id, leader: None };
            (r, drive(vec![ScanEvent::SnapshotFailed(err)]))
        })
        .collect();
    let resps = collect_responses(&task, results);
    assert_eq!(resps.len(), 1);
    let resp = &resps[0];
    assert!(matches!(resp.error, Some(BackupError::RegionError(_))), "{:?}", resp);
    assert!(
        matches!(resp.error, Some(BackupError::RegionError(RegionError::NotLeader { .. }))),
        "{:?}",
        resp
    );
    assert_eq!(resp.files.len(), 0, "{:?}", resp);
}

#[test]
fn files_carry_the_backup_timestamp_as_both_versions() {
    let endpoint = new_endpoint();
    let regions = regions_of(vec![(b"", b"", 1)]);
    let mut req = request(b"a", b"b", 8, "noop://");
    req.start_version = 3;
    let task = Task::new(req).unwrap();
    let ranges = endpoint.handle_backup_task(&task, &regions);
    let results: Vec<(BackupRange, ShardResult)> = ranges
        .into_iter()
        .map(|r| (r, drive(successful_scan(saved_files(None, Some(file("w", "write")))))))
        .collect();
    let resps = collect_responses(&task, results);
    assert_eq!(resps.len(), 1);
    assert_eq!(resps[0].files[0].start_version, 8);
    assert_eq!(resps[0].files[0].end_version, 8);
}

#[test]
fn task_text_shows_keys_in_hex() {
    let task = Task::new(request(b"a\x0f", b"", 12, "noop://")).unwrap();
    assert_eq!(
        task.describe(),
        "BackupTask { start_ts: 12, end_ts: 12, start_key: \"610F\", end_key: \"\" }"
    );
}

#[test]
fn incremental_backup_yields_no_shard() {
    let endpoint = new_endpoint();
    let regions = regions_of(vec![(b"", b"5", 1)]);
    let mut req = request(b"", b"", 3, "noop://");
    req.start_version = 2;
    let task = Task::new(req).unwrap();
    assert!(!task.is_full_backup());
    assert!(endpoint.run(&task, &regions).is_empty());
}

#[test]
fn followers_are_skipped() {
    let endpoint = new_endpoint();
    let mut regions = regions_of(vec![(b"", b"3", 1), (b"3", b"6", 2), (b"6", b"", 3)]);
    regions[1].role = Role::Follower;
    let ranges = endpoint.seek_backup_range(&regions, &None, &None);
    let ids: Vec<u64> = ranges.iter().map(|r| r.region.id).collect();
    assert_eq!(ids, vec![1, 3]);
    assert_eq!(ranges[0].leader, Peer { id: 1, store_id: 1 });
}

#[test]
fn request_inside_one_region_keeps_its_bounds() {
    let endpoint = new_endpoint();
    let regions = regions_of(vec![(b"", b"1", 1), (b"1", b"5", 2), (b"5", b"", 3)]);
    let start = encode_bound(&b"2".to_vec());
    let end = encode_bound(&b"3".to_vec());
    let ranges = endpoint.seek_backup_range(&regions, &start, &end);
    assert_eq!(ranges.len(), 1);
    assert_eq!(ranges[0].region.id, 2);
    assert_eq!(raw_of(&ranges[0].start_key), b"2".to_vec());
    assert_eq!(raw_of(&ranges[0].end_key), b"3".to_vec());
}

#[test]
fn unbounded_request_covers_whole_regions() {
    let endpoint = new_endpoint();
    let regions = regions_of(vec![(b"", b"1", 1), (b"1", b"5", 2), (b"5", b"", 3)]);
    let ranges = endpoint.seek_backup_range(&regions, &None, &None);
    assert_eq!(ranges.len(), 3);
    assert_eq!(ranges[0].start_key, None);
    assert_eq!(ranges[0].end_key, Some(encode_key(b"1")));
    assert_eq!(ranges[1].start_key, Some(encode_key(b"1")));
    assert_eq!(ranges[2].end_key, None);
}

#[test]
fn inverted_request_yields_nothing() {
    let endpoint = new_endpoint();
    let regions = regions_of(vec![(b"", b"", 1)]);
    let start = encode_bound(&b"5".to_vec());
    let end = encode_bound(&b"3".to_vec());
    assert!(endpoint.seek_backup_range(&regions, &start, &end).is_empty());
}

#[test]
fn responses_carry_raw_bounds_and_versions() {
    let endpoint = new_endpoint();
    let regions = regions_of(vec![(b"", b"m", 1), (b"m", b"", 2)]);
    let task = Task::new(request(b"c", b"x", 9, "noop://")).unwrap();
    let ranges = endpoint.handle_backup_task(&task, &regions);
    let results: Vec<(BackupRange, ShardResult)> = ranges
        .into_iter()
        .map(|r| (r, drive(successful_scan(saved_files(Some(file("d", "default")), Some(file("w", "write")))))))
        .collect();
    let resps = collect_responses(&task, results);
    assert_eq!(resps.len(), 2);
    assert_eq!(resps[0].start_key, b"c".to_vec());
    assert_eq!(resps[0].end_key, b"m".to_vec());
    assert_eq!(resps[1].start_key, b"m".to_vec());
    assert_eq!(resps[1].end_key, b"x".to_vec());
    for resp in &resps {
        assert_eq!(resp.files.len(), 2);
        for f in &resp.files {
            assert_eq!(f.start_key, resp.start_key);
            assert_eq!(f.end_key, resp.end_key);
            assert_eq!(f.start_version, 9);
            assert_eq!(f.end_version, 9);
            assert_eq!(f.sha256, vec![1, 2, 3]);
        }
        assert_eq!(resp.files[0].cf, "default");
        assert_eq!(resp.files[1].cf, "write");
    }
}

#[test]
fn every_shard_gets_one_response_even_on_errors() {
    let endpoint = new_endpoint();
    let regions = regions_of(vec![(b"", b"3", 1), (b"3", b"6", 2), (b"6", b"", 3)]);
    let task = Task::new(request(b"", b"", 4, "noop://")).unwrap();
    let ranges = endpoint.handle_backup_task(&task, &regions);
    assert_eq!(ranges.len(), 3);
    let results: Vec<(BackupRange, ShardResult)> = ranges
        .into_iter()
        .enumerate()
        .map(|(i, r)| {
            let events = match i {
                0 => successful_scan(vec![]),
                1 => vec![ScanEvent::SnapshotTaken, ScanEvent::Batch { len: 3 }, ScanEvent::WriteFailed { msg: "disk full".to_string() }],
                _ => vec![ScanEvent::SnapshotTaken, ScanEvent::Batch { len: 0 }, ScanEvent::SaveFailed { msg: "exists".to_string() }],
            };
            (r, drive(events))
        })
        .collect();
    let resps = collect_responses(&task, results);
    assert_eq!(resps.len(), 3);
    assert!(resps[0].error.is_none());
    assert!(matches!(resps[1].error, Some(BackupError::Other { .. })));
    assert!(matches!(resps[2].error, Some(BackupError::Other { .. })));
}
