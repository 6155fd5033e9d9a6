//! The progress of a backup.

use vstd::prelude::*;
use crate::middleware::backup_phase;

verus! {

/// How far a backup has come.
#[derive(Debug, Clone, Copy, PartialEq, Eq, Structural)]
pub struct BackupProgress {
    /// The phase.
    pub phase: u64,
    /// How many files are done.
    pub files_done: u64,
    /// How many files there are.
    pub files_total: u64,
    /// How many bytes are done.
    pub bytes_done: u64,
    /// How many bytes there are.
    pub bytes_total: u64,
}

impl BackupProgress {
    /// The progress at the start of a phase.
    pub open spec fn started(phase: u64) -> BackupProgress {
        BackupProgress { phase, files_done: 0, files_total: 0, bytes_done: 0, bytes_total: 0 }
    }

    /// The progress while no backup is running.
    pub fn new() -> (r: Self)
        ensures
            r == BackupProgress::started(backup_phase::IDLE),
    {
        BackupProgress {
            phase: backup_phase::IDLE,
            files_done: 0,
            files_total: 0,
            bytes_done: 0,
            bytes_total: 0,
        }
    }

    /// Begins a phase with all counters at zero.
    pub fn reset(&mut self, phase: u64)
        ensures
            *final(self) == BackupProgress::started(phase),
    {
        self.files_done = 0;
        self.files_total = 0;
        self.bytes_done = 0;
        self.bytes_total = 0;
        self.phase = phase;
    }
}

impl Default for BackupProgress {
    fn default() -> (r: Self)
        ensures
            r == BackupProgress::started(backup_phase::IDLE),
    {
        BackupProgress::new()
    }
}

/// A backup starts with nothing done and nothing known, in the phase it is given; the phases
/// follow one another and are told apart.
pub proof fn law_backups_start_with_nothing_done(phase: u64)
    ensures
        ({
            let p = BackupProgress::started(phase);
            &&& p.phase == phase
            &&& p.files_done == 0 && p.files_total == 0
            &&& p.bytes_done == 0 && p.bytes_total == 0
        }),
        backup_phase::IDLE == 0,
        backup_phase::IDLE < backup_phase::SNAPSHOT_DB < backup_phase::COUNT_FILES
            < backup_phase::COMPRESS < backup_phase::DONE,
{
}

} // verus!
