use vstd::prelude::*;
use crate::response::{BackupError, File, KvError, RegionError, ShardResult};

verus! {

/// Where the backup of one shard stands.
#[derive(Clone, Copy, Debug, PartialEq, Eq, Structural)]
pub enum Phase {
    /// Waiting for a snapshot of the region.
    Snapshot,
    /// Waiting for the next batch of entries from the scanner.
    Scanning,
    /// Waiting for a batch to be written into the files.
    Writing,
    /// Waiting for the files to be uploaded to the sink.
    Saving,
    /// The shard's result has been reported.
    Done,
}

/// What the outside world tells the shard's driver.
#[derive(Debug)]
pub enum ScanEvent {
    /// A snapshot of the region was taken and a scanner opened on it.
    SnapshotTaken,
    /// The region could not give a snapshot.
    SnapshotFailed(RegionError),
    /// The file writer could not be created.
    WriterFailed { msg: String },
    /// The scanner gave a batch of `len` entries; none means the range is exhausted.
    Batch { len: usize },
    /// The scanner failed.
    ScanFailed(KvError),
    /// The last batch was written.
    Written,
    /// The last batch could not be written.
    WriteFailed { msg: String },
    /// The files were uploaded.
    Saved(Vec<File>),
    /// The files could not be uploaded.
    SaveFailed { msg: String },
}

/// What the shard's driver asks the outside world to do next.
#[derive(Debug)]
pub enum ScanAction {
    /// Fill the next batch of entries from the scanner.
    ScanNext,
    /// Write the batch just scanned into the files.
    WriteBatch,
    /// Close the files and upload them.
    Save,
    /// Send the shard's result.
    Report(ShardResult),
    /// Nothing: the event did not fit the phase.
    Idle,
}

/// The phase that event `ev` leads to from phase `p`.
pub open spec fn next_phase(p: Phase, ev: ScanEvent) -> Phase {
    match (p, ev) {
        (Phase::Snapshot, ScanEvent::SnapshotTaken) => Phase::Scanning,
        (Phase::Snapshot, ScanEvent::SnapshotFailed(_)) => Phase::Done,
        (Phase::Scanning, ScanEvent::WriterFailed { .. }) => Phase::Done,
        (Phase::Scanning, ScanEvent::Batch { len }) => if len == 0 {
            Phase::Saving
        } else {
            Phase::Writing
        },
        (Phase::Scanning, ScanEvent::ScanFailed(_)) => Phase::Done,
        (Phase::Writing, ScanEvent::Written) => Phase::Scanning,
        (Phase::Writing, ScanEvent::WriteFailed { .. }) => Phase::Done,
        (Phase::Saving, ScanEvent::Saved(_)) => Phase::Done,
        (Phase::Saving, ScanEvent::SaveFailed { .. }) => Phase::Done,
        _ => p,
    }
}

/// The action that event `ev` calls for in phase `p`.
pub open spec fn action_for(p: Phase, ev: ScanEvent) -> ScanAction {
    match (p, ev) {
        (Phase::Snapshot, ScanEvent::SnapshotTaken) => ScanAction::ScanNext,
        (Phase::Snapshot, ScanEvent::SnapshotFailed(e)) => ScanAction::Report(
            Err(BackupError::RegionError(e)),
        ),
        (Phase::Scanning, ScanEvent::WriterFailed { msg }) => ScanAction::Report(
            Err(BackupError::Other { msg }),
        ),
        (Phase::Scanning, ScanEvent::Batch { len }) => if len == 0 {
            ScanAction::Save
        } else {
            ScanAction::WriteBatch
        },
        (Phase::Scanning, ScanEvent::ScanFailed(e)) => ScanAction::Report(
            Err(BackupError::KvError(e)),
        ),
        (Phase::Writing, ScanEvent::Written) => ScanAction::ScanNext,
        (Phase::Writing, ScanEvent::WriteFailed { msg }) => ScanAction::Report(
            Err(BackupError::Other { msg }),
        ),
        (Phase::Saving, ScanEvent::Saved(files)) => ScanAction::Report(Ok(files)),
        (Phase::Saving, ScanEvent::SaveFailed { msg }) => ScanAction::Report(
            Err(BackupError::Other { msg }),
        ),
        _ => ScanAction::Idle,
    }
}

/// `a + b`, or the largest `u64` where the sum does not fit.
pub open spec fn sat_add(a: u64, b: u64) -> u64 {
    if a + b > u64::MAX { u64::MAX } else { (a + b) as u64 }
}

/// What a shard's scan read: entries scanned and batches written. The counts
/// stop at the largest `u64`.
#[derive(Clone, Copy, Debug, PartialEq, Eq, Structural)]
pub struct ScanStatistics {
    pub entries: u64,
    pub batches: u64,
}

impl ScanStatistics {
    /// Nothing read yet.
    pub fn new() -> (r: ScanStatistics)
        ensures
            r.entries == 0,
            r.batches == 0,
    {
        ScanStatistics { entries: 0, batches: 0 }
    }

    /// Adds the counts of `other`, as when summing the shards of a request.
    pub fn add(&mut self, other: &ScanStatistics)
        ensures
            final(self).entries == sat_add(old(self).entries, other.entries),
            final(self).batches == sat_add(old(self).batches, other.batches),
    {
        self.entries = self.entries.saturating_add(other.entries);
        self.batches = self.batches.saturating_add(other.batches);
    }
}

/// The statistics after event `ev` in phase `p`.
pub open spec fn stats_after(p: Phase, s: ScanStatistics, ev: ScanEvent) -> ScanStatistics {
    match (p, ev) {
        (Phase::Scanning, ScanEvent::Batch { len }) => ScanStatistics {
            entries: sat_add(s.entries, len as u64),
            batches: s.batches,
        },
        (Phase::Writing, ScanEvent::Written) => ScanStatistics {
            entries: s.entries,
            batches: sat_add(s.batches, 1),
        },
        _ => s,
    }
}

/// The driver of the backup of one shard: snapshot, then scan and write batch
/// by batch until the scanner is exhausted, then upload, then report.
#[derive(Debug)]
pub struct ShardScan {
    pub phase: Phase,
    pub stats: ScanStatistics,
}

impl ShardScan {
    /// A driver waiting for its snapshot.
    pub fn new() -> (r: ShardScan)
        ensures
            r.phase == Phase::Snapshot,
            r.stats.entries == 0,
            r.stats.batches == 0,
    {
        ShardScan { phase: Phase::Snapshot, stats: ScanStatistics::new() }
    }

    /// Takes in event `ev` and gives the next action.
    pub fn step(&mut self, ev: ScanEvent) -> (r: ScanAction)
        ensures
            final(self).phase == next_phase(old(self).phase, ev),
            r == action_for(old(self).phase, ev),
            final(self).stats == stats_after(old(self).phase, old(self).stats, ev),
    {
        let p = self.phase;
        match (p, ev) {
            (Phase::Snapshot, ScanEvent::SnapshotTaken) => {
                self.phase = Phase::Scanning;
                ScanAction::ScanNext
            },
            (Phase::Snapshot, ScanEvent::SnapshotFailed(e)) => {
                self.phase = Phase::Done;
                ScanAction::Report(Err(BackupError::RegionError(e)))
            },
            (Phase::Scanning, ScanEvent::WriterFailed { msg }) => {
                self.phase = Phase::Done;
                ScanAction::Report(Err(BackupError::Other { msg }))
            },
            (Phase::Scanning, ScanEvent::Batch { len }) => {
                self.stats.entries = self.stats.entries.saturating_add(len as u64);
                if len == 0 {
                    self.phase = Phase::Saving;
                    ScanAction::Save
                } else {
                    self.phase = Phase::Writing;
                    ScanAction::WriteBatch
                }
            },
            (Phase::Scanning, ScanEvent::ScanFailed(e)) => {
                self.phase = Phase::Done;
                ScanAction::Report(Err(BackupError::KvError(e)))
            },
            (Phase::Writing, ScanEvent::Written) => {
                self.phase = Phase::Scanning;
                self.stats.batches = self.stats.batches.saturating_add(1);
                ScanAction::ScanNext
            },
            (Phase::Writing, ScanEvent::WriteFailed { msg }) => {
                self.phase = Phase::Done;
                ScanAction::Report(Err(BackupError::Other { msg }))
            },
            (Phase::Saving, ScanEvent::Saved(files)) => {
                self.phase = Phase::Done;
                ScanAction::Report(Ok(files))
            },
            (Phase::Saving, ScanEvent::SaveFailed { msg }) => {
                self.phase = Phase::Done;
                ScanAction::Report(Err(BackupError::Other { msg }))
            },
            _ => ScanAction::Idle,
        }
    }
}

/// The phase reached from `p` after the events `evs`, in order.
pub open spec fn phase_after(p: Phase, evs: Seq<ScanEvent>) -> Phase
    decreases evs.len(),
{
    if evs.len() == 0 {
        p
    } else {
        phase_after(next_phase(p, evs[0]), evs.drop_first())
    }
}

/// How many of the actions called for by the events `evs`, from `p`, are reports.
pub open spec fn reports_after(p: Phase, evs: Seq<ScanEvent>) -> nat
    decreases evs.len(),
{
    if evs.len() == 0 {
        0
    } else {
        (if action_for(p, evs[0]) is Report { 1nat } else { 0nat }) + reports_after(
            next_phase(p, evs[0]),
            evs.drop_first(),
        )
    }
}

/// Whatever the events, a shard's driver reports at most once, and it
/// reports exactly when it has come to its end: each shard that runs to the
/// end gives exactly one result, failed or not.
pub proof fn lemma_one_report_per_shard(p: Phase, evs: Seq<ScanEvent>)
    ensures
        reports_after(p, evs) == if p != Phase::Done && phase_after(p, evs) == Phase::Done {
            1nat
        } else {
            0nat
        },
    decreases evs.len(),
{
    if evs.len() > 0 {
        lemma_one_report_per_shard(next_phase(p, evs[0]), evs.drop_first());
        if next_phase(p, evs[0]) == Phase::Done {
            lemma_done_stays(evs.drop_first());
        }
    }
}

proof fn lemma_done_stays(evs: Seq<ScanEvent>)
    ensures
        phase_after(Phase::Done, evs) == Phase::Done,
    decreases evs.len(),
{
    if evs.len() > 0 {
        lemma_done_stays(evs.drop_first());
    }
}

} // verus!
