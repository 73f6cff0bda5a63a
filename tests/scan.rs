use backup::response::BackupError;
use backup::scan::{Phase, ScanAction, ScanEvent, ScanStatistics, ShardScan};

#[test]
fn scan_walks_snapshot_batches_and_save() {
    let mut s = ShardScan::new();
    assert_eq!(s.phase, Phase::Snapshot);
    assert!(matches!(s.step(ScanEvent::SnapshotTaken), ScanAction::ScanNext));
    assert_eq!(s.phase, Phase::Scanning);
    assert!(matches!(s.step(ScanEvent::Batch { len: 1024 }), ScanAction::WriteBatch));
    assert_eq!(s.phase, Phase::Writing);
    assert!(matches!(s.step(ScanEvent::Written), ScanAction::ScanNext));
    assert!(matches!(s.step(ScanEvent::Batch { len: 0 }), ScanAction::Save));
    assert_eq!(s.phase, Phase::Saving);
    assert!(matches!(s.step(ScanEvent::Saved(vec![])), ScanAction::Report(Ok(_))));
    assert_eq!(s.phase, Phase::Done);
}

#[test]
fn scan_reports_once() {
    let mut s = ShardScan::new();
    let mut reports = 0;
    let events = vec![
        ScanEvent::SnapshotTaken,
        ScanEvent::WriterFailed { msg: "no space".to_string() },
        ScanEvent::Batch { len: 0 },
        ScanEvent::Saved(vec![]),
        ScanEvent::SaveFailed { msg: "late".to_string() },
    ];
    for ev in events {
        if let ScanAction::Report(res) = s.step(ev) {
            reports += 1;
            assert!(matches!(res, Err(BackupError::Other { .. })));
        }
    }
    assert_eq!(reports, 1);
    assert_eq!(s.phase, Phase::Done);
}

#[test]
fn scan_ignores_events_out_of_phase() {
    let mut s = ShardScan::new();
    assert!(matches!(s.step(ScanEvent::Written), ScanAction::Idle));
    assert!(matches!(s.step(ScanEvent::Batch { len: 3 }), ScanAction::Idle));
    assert_eq!(s.phase, Phase::Snapshot);
}

#[test]
fn scan_counts_entries_and_batches() {
    let mut s = ShardScan::new();
    s.step(ScanEvent::SnapshotTaken);
    s.step(ScanEvent::Batch { len: 1024 });
    s.step(ScanEvent::Written);
    s.step(ScanEvent::Batch { len: 7 });
    s.step(ScanEvent::Written);
    s.step(ScanEvent::Batch { len: 0 });
    assert_eq!(s.stats, ScanStatistics { entries: 1031, batches: 2 });
}

#[test]
fn statistics_add_and_saturate() {
    let mut sum = ScanStatistics::new();
    sum.add(&ScanStatistics { entries: 5, batches: 1 });
    sum.add(&ScanStatistics { entries: 6, batches: 2 });
    assert_eq!(sum, ScanStatistics { entries: 11, batches: 3 });
    sum.add(&ScanStatistics { entries: u64::MAX, batches: 0 });
    assert_eq!(sum.entries, u64::MAX);
}
