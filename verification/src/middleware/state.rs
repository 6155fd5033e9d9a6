//! The state that requests and background work share.

use vstd::prelude::*;
use vstd::string::*;
use crate::text;
use crate::text::{clone_opt, concat};

verus! {

/// The settings of automatic backups at one moment.
#[derive(Debug, Clone)]
pub struct AutoFullBackupSettingsSnapshot {
    /// Hours between backups.
    pub interval_hours: u64,
    /// How many backups are kept.
    pub copies_to_keep: u64,
    /// Whether backups hold the keys of the onion service.
    pub include_tor_hidden_service_keys: bool,
    /// How backups are stored.
    pub storage_mode: String,
    /// The most bytes of one part of a split archive.
    pub split_zip_part_size: u64,
}

/// The model of the settings of automatic backups.
#[verifier::ext_equal]
pub struct BackupSettingsView {
    /// Hours between backups.
    pub interval_hours: u64,
    /// How many backups are kept.
    pub copies_to_keep: u64,
    /// Whether backups hold the keys of the onion service.
    pub include_tor_hidden_service_keys: bool,
    /// How backups are stored.
    pub storage_mode: Seq<char>,
    /// The most bytes of one part of a split archive.
    pub split_zip_part_size: u64,
}

impl View for AutoFullBackupSettingsSnapshot {
    type V = BackupSettingsView;

    open spec fn view(&self) -> BackupSettingsView {
        BackupSettingsView {
            interval_hours: self.interval_hours,
            copies_to_keep: self.copies_to_keep,
            include_tor_hidden_service_keys: self.include_tor_hidden_service_keys,
            storage_mode: self.storage_mode@,
            split_zip_part_size: self.split_zip_part_size,
        }
    }
}

/// The settings of automatic backups.
#[derive(Debug)]
pub struct AutoFullBackupSettings {
    /// The settings in force.
    current: AutoFullBackupSettingsSnapshot,
}

impl View for AutoFullBackupSettings {
    type V = BackupSettingsView;

    closed spec fn view(&self) -> BackupSettingsView {
        self.current@
    }
}

/// The settings that are asked for, with at least one backup kept.
pub open spec fn backup_settings(
    interval_hours: u64,
    copies_to_keep: u64,
    include_tor_hidden_service_keys: bool,
    storage_mode: Seq<char>,
    split_zip_part_size: u64,
) -> BackupSettingsView {
    BackupSettingsView {
        interval_hours,
        copies_to_keep: if copies_to_keep == 0 {
            1
        } else {
            copies_to_keep
        },
        include_tor_hidden_service_keys,
        storage_mode,
        split_zip_part_size,
    }
}

impl AutoFullBackupSettings {
    /// The settings that are asked for, with at least one backup kept.
    pub fn new(
        interval_hours: u64,
        copies_to_keep: u64,
        include_tor_hidden_service_keys: bool,
        storage_mode: &str,
        split_zip_part_size: u64,
    ) -> (r: Self)
        ensures
            r@ == backup_settings(
                interval_hours,
                copies_to_keep,
                include_tor_hidden_service_keys,
                storage_mode@,
                split_zip_part_size,
            ),
    {
        AutoFullBackupSettings {
            current: AutoFullBackupSettingsSnapshot {
                interval_hours,
                copies_to_keep: if copies_to_keep == 0 {
                    1
                } else {
                    copies_to_keep
                },
                include_tor_hidden_service_keys,
                storage_mode: storage_mode.to_owned(),
                split_zip_part_size,
            },
        }
    }

    /// A copy of the settings in force.
    pub fn snapshot(&self) -> (r: AutoFullBackupSettingsSnapshot)
        ensures
            r@ == self@,
    {
        AutoFullBackupSettingsSnapshot {
            interval_hours: self.current.interval_hours,
            copies_to_keep: self.current.copies_to_keep,
            include_tor_hidden_service_keys: self.current.include_tor_hidden_service_keys,
            storage_mode: self.current.storage_mode.clone(),
            split_zip_part_size: self.current.split_zip_part_size,
        }
    }

    /// Replaces the settings in force.
    pub fn update(
        &mut self,
        interval_hours: u64,
        copies_to_keep: u64,
        include_tor_hidden_service_keys: bool,
        storage_mode: &str,
        split_zip_part_size: u64,
    )
        ensures
            final(self)@ == backup_settings(
                interval_hours,
                copies_to_keep,
                include_tor_hidden_service_keys,
                storage_mode@,
                split_zip_part_size,
            ),
    {
        *self = AutoFullBackupSettings::new(
            interval_hours,
            copies_to_keep,
            include_tor_hidden_service_keys,
            storage_mode,
            split_zip_part_size,
        );
    }
}

/// What lets one maintenance operation run at a time.
pub struct MaintenanceGate {
    /// The operation that runs.
    active: Option<String>,
    /// Which gate it is: its guards carry the same identity. Only proofs speak of it.
    identity: Ghost<int>,
}

impl View for MaintenanceGate {
    type V = Option<Seq<char>>;

    closed spec fn view(&self) -> Option<Seq<char>> {
        text::opt_view(self.active)
    }
}

/// The right to run a maintenance operation.
pub struct MaintenanceGuard {
    /// What gave it: only `try_begin` makes guards.
    gate: Ghost<int>,
}

impl MaintenanceGuard {
    /// The identity of what gave the guard.
    pub closed spec fn gate(&self) -> int {
        self.gate@
    }
}

/// What is said to an operation that has to wait for another.
pub open spec fn conflict_text(active: Seq<char>) -> Seq<char> {
    active + " is already running. Try again after it finishes."@
}

impl MaintenanceGate {
    /// Which one it is.
    pub closed spec fn identity(&self) -> int {
        self.identity@
    }

    /// Whether the operation that runs is the one of the guard: it was given here, and it
    /// was not handed back yet.
    pub open spec fn gave(&self, guard: MaintenanceGuard) -> bool {
        guard.gate() == self.identity() && self@ is Some
    }

    /// Nothing runs yet.
    pub fn new() -> (r: Self)
        ensures
            r@ is None,
    {
        MaintenanceGate { active: None, identity: Ghost(arbitrary()) }
    }

    /// Begins an operation, or says which other one runs. No operation begins while the
    /// guard of another is held.
    pub fn try_begin(&mut self, label: &str) -> (r: Result<MaintenanceGuard, String>)
        ensures
            final(self).identity() == old(self).identity(),
            match r {
                Ok(guard) => old(self)@ is None && final(self)@ == Some(label@)
                    && final(self).gave(guard),
                Err(message) => old(self)@ is Some && final(self)@ == old(self)@ && message@
                    == conflict_text(old(self)@->Some_0),
            },
            forall|held: MaintenanceGuard| #[trigger]
                old(self).gave(held) ==> r is Err && final(self).gave(held),
    {
        match &self.active {
            Some(current) => {
                return Err(
                    concat(current.as_str(), " is already running. Try again after it finishes."),
                );
            },
            None => {},
        }
        self.active = Some(label.to_owned());
        Ok(MaintenanceGuard { gate: self.identity })
    }

    /// Ends the operation that the guard stands for.
    pub fn finish(&mut self, guard: MaintenanceGuard)
        requires
            old(self).gave(guard),
        ensures
            final(self)@ is None,
            final(self).identity() == old(self).identity(),
    {
        self.active = None;
    }

    /// Whether an operation runs.
    pub fn is_active(&self) -> (r: bool)
        ensures
            r == (self@ is Some),
    {
        self.active.is_some()
    }

    /// The operation that runs, if one does.
    pub fn active_label(&self) -> (r: Option<String>)
        ensures
            text::opt_view(r) == self@,
    {
        clone_opt(&self.active)
    }
}

impl Default for MaintenanceGate {
    fn default() -> (r: Self)
        ensures
            r@ is None,
    {
        MaintenanceGate::new()
    }
}

/// What lets one upload be processed at a time.
pub struct MediaUploadGate {
    /// Whether an upload is being processed.
    busy: bool,
    /// Which gate it is: its guards carry the same identity. Only proofs speak of it.
    identity: Ghost<int>,
}

impl View for MediaUploadGate {
    type V = bool;

    /// Whether an upload is being processed.
    closed spec fn view(&self) -> bool {
        self.busy
    }
}

/// The right to process an upload.
pub struct MediaUploadGuard {
    /// What gave it: only `try_begin` makes guards.
    gate: Ghost<int>,
}

impl MediaUploadGuard {
    /// The identity of what gave the guard.
    pub closed spec fn gate(&self) -> int {
        self.gate@
    }
}

impl MediaUploadGate {
    /// Which one it is.
    pub closed spec fn identity(&self) -> int {
        self.identity@
    }

    /// Whether the upload that is processed is the one of the guard: it was given here,
    /// and it was not handed back yet.
    pub open spec fn gave(&self, guard: MediaUploadGuard) -> bool {
        guard.gate() == self.identity() && self@
    }

    /// Nothing runs yet.
    pub fn new() -> (r: Self)
        ensures
            !r@,
    {
        MediaUploadGate { busy: false, identity: Ghost(arbitrary()) }
    }

    /// Begins an upload, or nothing while another is being processed. No upload begins
    /// while the guard of another is held.
    pub fn try_begin(&mut self) -> (r: Option<MediaUploadGuard>)
        ensures
            final(self).identity() == old(self).identity(),
            r is Some <==> !old(self)@,
            final(self)@,
            r is Some ==> final(self).gave(r->Some_0),
            forall|held: MediaUploadGuard| #[trigger]
                old(self).gave(held) ==> r is None && final(self).gave(held),
    {
        if self.busy {
            None
        } else {
            self.busy = true;
            Some(MediaUploadGuard { gate: self.identity })
        }
    }

    /// Ends the upload that the guard stands for.
    pub fn finish(&mut self, guard: MediaUploadGuard)
        requires
            old(self).gave(guard),
        ensures
            !final(self)@,
            final(self).identity() == old(self).identity(),
    {
        self.busy = false;
    }
}

impl Default for MediaUploadGate {
    fn default() -> (r: Self)
        ensures
            !r@,
    {
        MediaUploadGate::new()
    }
}

/// What lets one federation snapshot be imported at a time. The right to import can be
/// shared, and another may begin once every share of it has been given back.
pub struct ChanImportGate {
    /// How many shares of the right are held.
    holders: u64,
    /// Which gate it is: its guards carry the same identity. Only proofs speak of it.
    identity: Ghost<int>,
}

impl View for ChanImportGate {
    type V = u64;

    /// How many shares of the right are held.
    closed spec fn view(&self) -> u64 {
        self.holders
    }
}

/// A share of the right to import a snapshot.
pub struct ChanImportGuard {
    /// What gave it: only `try_begin` and `share` make guards.
    gate: Ghost<int>,
}

impl ChanImportGuard {
    /// The identity of what gave the guard.
    pub closed spec fn gate(&self) -> int {
        self.gate@
    }
}

impl ChanImportGate {
    /// Which one it is.
    pub closed spec fn identity(&self) -> int {
        self.identity@
    }

    /// Whether the import that runs is the one of the guard: it was given here, and not
    /// all shares were handed back yet.
    pub open spec fn gave(&self, guard: ChanImportGuard) -> bool {
        guard.gate() == self.identity() && self@ > 0
    }

    /// Nothing runs yet.
    pub fn new() -> (r: Self)
        ensures
            r@ == 0,
    {
        ChanImportGate { holders: 0, identity: Ghost(arbitrary()) }
    }

    /// Begins an import, or nothing while another runs. No import begins while a share of
    /// another is held.
    pub fn try_begin(&mut self) -> (r: Option<ChanImportGuard>)
        ensures
            final(self).identity() == old(self).identity(),
            r is Some <==> old(self)@ == 0,
            final(self)@ == if old(self)@ == 0 {
                1
            } else {
                old(self)@
            },
            r is Some ==> final(self).gave(r->Some_0),
            forall|held: ChanImportGuard| #[trigger]
                old(self).gave(held) ==> r is None && final(self).gave(held),
    {
        if self.holders > 0 {
            None
        } else {
            self.holders = 1;
            Some(ChanImportGuard { gate: self.identity })
        }
    }

    /// Whether one more share of the right can be counted.
    pub fn can_share(&self) -> (r: bool)
        ensures
            r == (self@ < u64::MAX),
    {
        self.holders < u64::MAX
    }

    /// Shares the right of an import that runs.
    pub fn share(&mut self, guard: &ChanImportGuard) -> (r: ChanImportGuard)
        requires
            old(self).gave(*guard),
            old(self)@ < u64::MAX,
        ensures
            final(self).identity() == old(self).identity(),
            final(self)@ == old(self)@ + 1,
            final(self).gave(r),
            final(self).gave(*guard),
    {
        self.holders = self.holders + 1;
        ChanImportGuard { gate: self.identity }
    }

    /// Gives a share back. The import goes on while another share is held.
    pub fn finish(&mut self, guard: ChanImportGuard)
        requires
            old(self).gave(guard),
        ensures
            final(self).identity() == old(self).identity(),
            final(self)@ == old(self)@ - 1,
            forall|held: ChanImportGuard|
                old(self)@ > 1 && #[trigger] old(self).gave(held) ==> final(self).gave(held),
    {
        self.holders = self.holders - 1;
    }
}

impl Default for ChanImportGate {
    fn default() -> (r: Self)
        ensures
            r@ == 0,
    {
        ChanImportGate::new()
    }
}

/// The stage of a maintenance job.
#[derive(Debug, Clone, Copy, PartialEq, Eq, Structural)]
pub enum DbMaintenanceJobPhase {
    /// The job is being set up.
    Starting,
    /// The database is being copied.
    Backup,
    /// The database is being checked and repaired.
    Repair,
}

/// What is known of the last maintenance job; `R` is what a job reports.
#[derive(Debug)]
pub enum DbMaintenanceJobStatus<R> {
    /// No job has started.
    Idle,
    /// The job runs.
    Running {
        /// The job.
        job_id: u64,
        /// When it started.
        started_at: i64,
        /// Its stage.
        phase: DbMaintenanceJobPhase,
    },
    /// The job succeeded.
    Finished {
        /// The job.
        job_id: u64,
        /// What it reported.
        report: R,
    },
    /// The job failed.
    Failed {
        /// The job.
        job_id: u64,
        /// When it failed.
        finished_at: i64,
        /// Why it failed.
        message: String,
    },
}

impl<R> DbMaintenanceJobStatus<R> {
    /// The job, if one has started.
    pub open spec fn id(self) -> Option<u64> {
        match self {
            DbMaintenanceJobStatus::Idle => None,
            DbMaintenanceJobStatus::Running { job_id, .. } => Some(job_id),
            DbMaintenanceJobStatus::Finished { job_id, .. } => Some(job_id),
            DbMaintenanceJobStatus::Failed { job_id, .. } => Some(job_id),
        }
    }

    /// The job, if one has started.
    pub fn job_id(&self) -> (r: Option<u64>)
        ensures
            r == self.id(),
    {
        match self {
            DbMaintenanceJobStatus::Idle => None,
            DbMaintenanceJobStatus::Running { job_id, .. } => Some(*job_id),
            DbMaintenanceJobStatus::Finished { job_id, .. } => Some(*job_id),
            DbMaintenanceJobStatus::Failed { job_id, .. } => Some(*job_id),
        }
    }

    /// Whether the given job runs.
    pub open spec fn runs(self, job: u64) -> bool {
        self matches DbMaintenanceJobStatus::Running { job_id, .. } && job_id == job
    }
}

/// The maintenance jobs of the database.
#[derive(Debug)]
pub struct DbMaintenanceJobs<R> {
    /// The number of the next job.
    pub next_job_id: u64,
    /// What is known of the last job.
    pub status: DbMaintenanceJobStatus<R>,
}

impl<R> DbMaintenanceJobs<R> {
    /// The jobs once one more has started.
    pub open spec fn started(self, now: i64) -> Self {
        DbMaintenanceJobs {
            next_job_id: if self.next_job_id == u64::MAX {
                0
            } else {
                (self.next_job_id + 1) as u64
            },
            status: DbMaintenanceJobStatus::Running {
                job_id: self.next_job_id,
                started_at: now,
                phase: DbMaintenanceJobPhase::Starting,
            },
        }
    }

    /// The jobs once a job has reported what it is at.
    pub open spec fn reported(self, job: u64, status: DbMaintenanceJobStatus<R>) -> Self {
        if self.status.runs(job) {
            DbMaintenanceJobs { next_job_id: self.next_job_id, status }
        } else {
            self
        }
    }

    /// Jobs of which none has started.
    pub fn new() -> (r: Self)
        ensures
            r.next_job_id == 1,
            r.status is Idle,
    {
        DbMaintenanceJobs { next_job_id: 1, status: DbMaintenanceJobStatus::Idle }
    }

    /// Starts a job and gives its number. The last job is not looked at any more.
    pub fn mark_running(&mut self, now: i64) -> (r: u64)
        ensures
            r == old(self).next_job_id,
            final(self).next_job_id == if old(self).next_job_id == u64::MAX {
                0
            } else {
                old(self).next_job_id + 1
            },
            final(self).status == (DbMaintenanceJobStatus::<R>::Running {
                job_id: r,
                started_at: now,
                phase: DbMaintenanceJobPhase::Starting,
            }),
            *final(self) == old(self).started(now),
    {
        let job_id: u64 = self.next_job_id;
        self.next_job_id = if job_id == u64::MAX {
            0
        } else {
            job_id + 1
        };
        self.status = DbMaintenanceJobStatus::Running {
            job_id,
            started_at: now,
            phase: DbMaintenanceJobPhase::Starting,
        };
        job_id
    }

    /// Notes the stage of a job, if it is the one that runs.
    pub fn mark_phase(&mut self, job: u64, phase: DbMaintenanceJobPhase) -> (r: bool)
        ensures
            r == old(self).status.runs(job),
            final(self).next_job_id == old(self).next_job_id,
            r ==> final(self).status == (DbMaintenanceJobStatus::<R>::Running {
                job_id: job,
                started_at: old(self).status->started_at,
                phase,
            }),
            !r ==> final(self).status == old(self).status,
            *final(self) == old(self).reported(
                job,
                DbMaintenanceJobStatus::<R>::Running {
                    job_id: job,
                    started_at: old(self).status->started_at,
                    phase,
                },
            ),
    {
        let started: Option<i64> = match &self.status {
            DbMaintenanceJobStatus::Running { job_id, started_at, .. } => if *job_id == job {
                Some(*started_at)
            } else {
                None
            },
            _ => None,
        };
        match started {
            Some(started_at) => {
                self.status = DbMaintenanceJobStatus::Running { job_id: job, started_at, phase };
                true
            },
            None => false,
        }
    }

    /// Whether the given job runs.
    fn is_running(&self, job: u64) -> (r: bool)
        ensures
            r == self.status.runs(job),
    {
        match &self.status {
            DbMaintenanceJobStatus::Running { job_id, .. } => *job_id == job,
            _ => false,
        }
    }

    /// Notes the success of a job, if it is the one that runs.
    pub fn mark_finished(&mut self, job: u64, report: R) -> (r: bool)
        ensures
            r == old(self).status.runs(job),
            final(self).next_job_id == old(self).next_job_id,
            r ==> final(self).status == (DbMaintenanceJobStatus::Finished { job_id: job, report }),
            !r ==> final(self).status == old(self).status,
            *final(self) == old(self).reported(
                job,
                DbMaintenanceJobStatus::Finished { job_id: job, report },
            ),
    {
        if self.is_running(job) {
            self.status = DbMaintenanceJobStatus::Finished { job_id: job, report };
            true
        } else {
            false
        }
    }

    /// Notes the failure of a job, if it is the one that runs.
    pub fn mark_failed(&mut self, job: u64, now: i64, message: String) -> (r: bool)
        ensures
            r == old(self).status.runs(job),
            final(self).next_job_id == old(self).next_job_id,
            r ==> final(self).status == (DbMaintenanceJobStatus::<R>::Failed {
                job_id: job,
                finished_at: now,
                message,
            }),
            !r ==> final(self).status == old(self).status,
            *final(self) == old(self).reported(
                job,
                DbMaintenanceJobStatus::<R>::Failed { job_id: job, finished_at: now, message },
            ),
    {
        if self.is_running(job) {
            self.status = DbMaintenanceJobStatus::Failed { job_id: job, finished_at: now, message };
            true
        } else {
            false
        }
    }

    /// What is known of the last job.
    pub fn snapshot(&self) -> (r: &DbMaintenanceJobStatus<R>)
        ensures
            *r == self.status,
    {
        &self.status
    }
}

impl<R> Default for DbMaintenanceJobs<R> {
    fn default() -> (r: Self)
        ensures
            r.next_job_id == 1,
            r.status is Idle,
    {
        DbMaintenanceJobs::new()
    }
}

/// A job that starts has a number that the one before did not have, and only it can report:
/// what an earlier job reports afterwards changes nothing.
pub proof fn law_only_the_last_job_reports<R>(
    jobs: DbMaintenanceJobs<R>,
    now: i64,
    late: u64,
    status: DbMaintenanceJobStatus<R>,
)
    ensures
        ({
            let next = jobs.started(now);
            &&& next.status is Running
            &&& next.status.id() == Some(jobs.next_job_id)
            &&& next.status->started_at == now
            &&& next.status->phase is Starting
            &&& next.next_job_id != jobs.next_job_id
            &&& late != jobs.next_job_id ==> next.reported(late, status) == next
            &&& next.reported(jobs.next_job_id, status).status == status
            &&& next.reported(late, status).next_job_id == next.next_job_id
        }),
{
}

/// A job that has finished or failed stays as it is, and one that has not started cannot
/// report.
pub proof fn law_ended_jobs_stay_ended<R>(
    jobs: DbMaintenanceJobs<R>,
    job: u64,
    status: DbMaintenanceJobStatus<R>,
)
    ensures
        !(jobs.status is Running) ==> jobs.reported(job, status) == jobs,
        jobs.status is Running && jobs.status->Running_job_id == job ==> jobs.reported(
            job,
            status,
        ).status == status,
{
}

/// At least one backup is kept, and every other setting is kept as it is given.
pub proof fn law_one_backup_is_always_kept(
    interval_hours: u64,
    copies_to_keep: u64,
    keys: bool,
    storage_mode: Seq<char>,
    part_size: u64,
)
    ensures
        ({
            let s = backup_settings(interval_hours, copies_to_keep, keys, storage_mode, part_size);
            &&& s.copies_to_keep >= 1
            &&& copies_to_keep >= 1 ==> s.copies_to_keep == copies_to_keep
            &&& copies_to_keep == 0 ==> s.copies_to_keep == 1
            &&& s.interval_hours == interval_hours
            &&& s.include_tor_hidden_service_keys == keys
            &&& s.storage_mode == storage_mode
            &&& s.split_zip_part_size == part_size
        }),
{
}

/// A conflict names the operation that runs.
pub proof fn law_conflicts_name_what_runs(active: Seq<char>, other: Seq<char>)
    ensures
        text::begins(conflict_text(active), active),
        text::finishes(
            conflict_text(active),
            " is already running. Try again after it finishes."@,
        ),
        conflict_text(active) == conflict_text(other) ==> active == other,
{
    let tail = " is already running. Try again after it finishes."@;
    assert(conflict_text(active).take(active.len() as int) =~= active);
    assert(conflict_text(active).skip(active.len() as int) =~= tail);
    if conflict_text(active) == conflict_text(other) {
        assert(active.len() == other.len());
        assert(conflict_text(other).take(other.len() as int) =~= other);
    }
}

} // verus!
