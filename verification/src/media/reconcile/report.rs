//! What one reconciliation pass reports, and the limits that bound it.

use vstd::prelude::*;
use std::collections::BTreeMap;
use crate::text;

verus! {

/// Examples kept by a pass with configured limits.
pub const DEFAULT_EXAMPLE_LIMIT: usize = 32;

/// Whether a reconciliation pass may schedule narrowly proven repairs.
#[derive(Debug, Clone, Copy, PartialEq, Eq, Structural)]
pub enum ReconcileMode {
    /// Inspect and report without changing database rows or files.
    Audit,
    /// Revalidate and durably schedule only explicitly supported repairs.
    Repair,
}

impl Default for ReconcileMode {
    fn default() -> (r: Self)
        ensures
            r == ReconcileMode::Audit,
    {
        ReconcileMode::Audit
    }
}

/// Bounded work limits for one reconciliation pass.
#[derive(Debug, Clone, Copy, PartialEq, Eq, Structural)]
pub struct ReconcileLimits {
    /// Maximum filesystem entries classified in one pass.
    pub files_per_pass: usize,
    /// Maximum authoritative database rows loaded into one snapshot.
    pub database_rows_per_pass: usize,
    /// Maximum bytes read while verifying digests in one pass.
    pub hash_bytes_per_pass: u64,
    /// Maximum repairs attempted in one pass.
    pub repairs_per_pass: usize,
    /// Maximum examples and errors kept in one report.
    pub examples_per_pass: usize,
}

impl Default for ReconcileLimits {
    fn default() -> (r: Self)
        ensures
            r == (ReconcileLimits {
                files_per_pass: 512,
                database_rows_per_pass: 16_384,
                hash_bytes_per_pass: 67_108_864,
                repairs_per_pass: 32,
                examples_per_pass: 32,
            }),
    {
        ReconcileLimits {
            files_per_pass: 512,
            database_rows_per_pass: 16_384,
            hash_bytes_per_pass: 67_108_864,
            repairs_per_pass: 32,
            examples_per_pass: DEFAULT_EXAMPLE_LIMIT,
        }
    }
}

/// The nearest value to `n` from `low` to `high`.
pub open spec fn clamped(n: int, low: int, high: int) -> int {
    if n < low {
        low
    } else if n > high {
        high
    } else {
        n
    }
}

fn clamp_count(n: usize, low: usize, high: usize) -> (r: usize)
    requires
        low <= high,
    ensures
        r == clamped(n as int, low as int, high as int),
{
    if n < low {
        low
    } else if n > high {
        high
    } else {
        n
    }
}

impl ReconcileLimits {
    /// Whether every limit lies within its supported range.
    pub open spec fn in_bounds(self) -> bool {
        &&& 1 <= self.files_per_pass <= 10_000
        &&& 1 <= self.database_rows_per_pass <= 250_000
        &&& 1 <= self.hash_bytes_per_pass <= 4_294_967_296
        &&& 1 <= self.repairs_per_pass <= 1_000
        &&& 1 <= self.examples_per_pass <= 256
    }

    /// The limits, each within its supported range.
    pub open spec fn within(self) -> Self {
        ReconcileLimits {
            files_per_pass: clamped(self.files_per_pass as int, 1, 10_000) as usize,
            database_rows_per_pass: clamped(self.database_rows_per_pass as int, 1, 250_000) as usize,
            hash_bytes_per_pass: clamped(self.hash_bytes_per_pass as int, 1, 4_294_967_296) as u64,
            repairs_per_pass: clamped(self.repairs_per_pass as int, 1, 1_000) as usize,
            examples_per_pass: clamped(self.examples_per_pass as int, 1, 256) as usize,
        }
    }

    /// Clamps every limit to its supported range.
    pub fn bounded(self) -> (r: Self)
        ensures
            r == self.within(),
            r.files_per_pass == clamped(self.files_per_pass as int, 1, 10_000),
            r.database_rows_per_pass == clamped(self.database_rows_per_pass as int, 1, 250_000),
            r.hash_bytes_per_pass == clamped(self.hash_bytes_per_pass as int, 1, 4_294_967_296),
            r.repairs_per_pass == clamped(self.repairs_per_pass as int, 1, 1_000),
            r.examples_per_pass == clamped(self.examples_per_pass as int, 1, 256),
            r.in_bounds(),
            self.in_bounds() ==> r == self,
    {
        let hash_bytes: u64 = if self.hash_bytes_per_pass < 1 {
            1
        } else if self.hash_bytes_per_pass > 4_294_967_296 {
            4_294_967_296
        } else {
            self.hash_bytes_per_pass
        };
        ReconcileLimits {
            files_per_pass: clamp_count(self.files_per_pass, 1, 10_000),
            database_rows_per_pass: clamp_count(self.database_rows_per_pass, 1, 250_000),
            hash_bytes_per_pass: hash_bytes,
            repairs_per_pass: clamp_count(self.repairs_per_pass, 1, 1_000),
            examples_per_pass: clamp_count(self.examples_per_pass, 1, 256),
        }
    }
}

/// The operator's settings for media reconciliation.
#[derive(Debug, Clone, Copy, PartialEq, Eq, Structural)]
pub struct ReconcileSettings {
    /// Whether passes may repair what they find.
    pub repair_enabled: bool,
    /// Maximum filesystem entries classified in one pass.
    pub files_per_pass: usize,
    /// Maximum authoritative database rows loaded into one snapshot.
    pub database_rows_per_pass: usize,
    /// Maximum bytes read while verifying digests in one pass.
    pub hash_bytes_per_pass: u64,
    /// Maximum repairs attempted in one pass.
    pub repairs_per_pass: usize,
}

/// The mode that the settings select.
pub fn configured_mode(settings: &ReconcileSettings) -> (r: ReconcileMode)
    ensures
        r == (if settings.repair_enabled {
            ReconcileMode::Repair
        } else {
            ReconcileMode::Audit
        }),
{
    if settings.repair_enabled {
        ReconcileMode::Repair
    } else {
        ReconcileMode::Audit
    }
}

/// The limits that the settings select, each within its supported range.
pub fn configured_limits(settings: &ReconcileSettings) -> (r: ReconcileLimits)
    ensures
        r.in_bounds(),
        r.files_per_pass == clamped(settings.files_per_pass as int, 1, 10_000),
        r.database_rows_per_pass == clamped(settings.database_rows_per_pass as int, 1, 250_000),
        r.hash_bytes_per_pass == clamped(settings.hash_bytes_per_pass as int, 1, 4_294_967_296),
        r.repairs_per_pass == clamped(settings.repairs_per_pass as int, 1, 1_000),
        r.examples_per_pass == 32,
{
    ReconcileLimits {
        files_per_pass: settings.files_per_pass,
        database_rows_per_pass: settings.database_rows_per_pass,
        hash_bytes_per_pass: settings.hash_bytes_per_pass,
        repairs_per_pass: settings.repairs_per_pass,
        examples_per_pass: DEFAULT_EXAMPLE_LIMIT,
    }.bounded()
}

/// Where the next pass over the filesystem continues.
#[derive(Debug, Clone)]
pub struct ReconcileCursor {
    /// Key of the last entry classified by the previous pass.
    pub after_managed_key: Option<String>,
}

impl ReconcileCursor {
    /// The key of the last entry classified by the previous pass.
    pub open spec fn after(self) -> Option<Seq<char>> {
        text::opt_view(self.after_managed_key)
    }
}

impl Default for ReconcileCursor {
    fn default() -> (r: Self)
        ensures
            r.after() is None,
    {
        ReconcileCursor { after_managed_key: None }
    }
}

/// The kind of managed media that a path holds.
#[derive(Debug, Clone, Copy, PartialEq, Eq, PartialOrd, Ord, Hash, Structural)]
pub enum MediaCategory {
    /// Uploaded primary or secondary original.
    Original,
    /// Generated thumbnail.
    Thumbnail,
    /// Generated audio waveform.
    Waveform,
    /// Generated video transcode.
    TranscodedOutput,
    /// Upload staged for installation.
    UploadStage,
    /// Recognised temporary file.
    KnownTemporary,
    /// Anything else.
    Unknown,
}

/// What an audit concluded about one path or row.
#[derive(Debug, Clone, Copy, PartialEq, Eq, PartialOrd, Ord, Hash, Structural)]
pub enum AuditClassification {
    Healthy,
    LifecycleInProgress,
    ScheduledDeletion,
    MissingPrimary,
    MissingThumbnail,
    MissingWaveform,
    MissingDeterministicOutput,
    MissingStageInstalledDestination,
    IntentionallyPrunedOriginal,
    RecoverableMissingDerived,
    UnrecoverableActiveReference,
    SafeOrphanCandidate,
    AmbiguousOrphan,
    StaleHashMissingFile,
    StaleHashUnreferenced,
    MissingHashMetadata,
    DigestConflict,
    ConflictingHashMetadata,
    CrossBoardMetadata,
    ObsoleteJob,
    MalformedJob,
    IntentConflictsWithActiveReference,
    CompletedIntent,
    IntentInconsistency,
    MalformedIntent,
    UnsafeExternalIntent,
    UnsafeSymlink,
    UnsafeHardLink,
    UnexpectedDirectory,
    UnsafeSpecialEntry,
    UnsafePath,
    CrossBoardPath,
    ScanError,
}

/// What an operator or a repair pass should do about a classification.
#[derive(Debug, Clone, Copy, PartialEq, Eq, PartialOrd, Ord, Hash, Structural)]
pub enum RecommendedAction {
    /// Nothing.
    NoAction,
    /// Keep the data and look at it.
    PreserveAndReview,
    /// Schedule a durable deletion.
    ScheduleDurableDeletion,
    /// Remove the stale digest row.
    RemoveStaleHash,
    /// Remove the obsolete job row.
    ResolveObsoleteJob,
    /// Remove the completed intent row.
    RemoveCompletedIntent,
    /// Queue the derived media again.
    EnqueueDerivedMedia,
}

impl MediaCategory {
    /// The position of the category in declaration order.
    pub open spec fn rank_spec(self) -> u64 {
        match self {
            MediaCategory::Original => 0,
            MediaCategory::Thumbnail => 1,
            MediaCategory::Waveform => 2,
            MediaCategory::TranscodedOutput => 3,
            MediaCategory::UploadStage => 4,
            MediaCategory::KnownTemporary => 5,
            MediaCategory::Unknown => 6,
        }
    }

    /// The position of the category in declaration order.
    pub fn rank(self) -> (r: u64)
        ensures
            r == self.rank_spec(),
    {
        match self {
            MediaCategory::Original => 0,
            MediaCategory::Thumbnail => 1,
            MediaCategory::Waveform => 2,
            MediaCategory::TranscodedOutput => 3,
            MediaCategory::UploadStage => 4,
            MediaCategory::KnownTemporary => 5,
            MediaCategory::Unknown => 6,
        }
    }
}

impl AuditClassification {
    /// The position of the classification in declaration order.
    pub open spec fn rank_spec(self) -> u64 {
        match self {
            AuditClassification::Healthy => 0,
            AuditClassification::LifecycleInProgress => 1,
            AuditClassification::ScheduledDeletion => 2,
            AuditClassification::MissingPrimary => 3,
            AuditClassification::MissingThumbnail => 4,
            AuditClassification::MissingWaveform => 5,
            AuditClassification::MissingDeterministicOutput => 6,
            AuditClassification::MissingStageInstalledDestination => 7,
            AuditClassification::IntentionallyPrunedOriginal => 8,
            AuditClassification::RecoverableMissingDerived => 9,
            AuditClassification::UnrecoverableActiveReference => 10,
            AuditClassification::SafeOrphanCandidate => 11,
            AuditClassification::AmbiguousOrphan => 12,
            AuditClassification::StaleHashMissingFile => 13,
            AuditClassification::StaleHashUnreferenced => 14,
            AuditClassification::MissingHashMetadata => 15,
            AuditClassification::DigestConflict => 16,
            AuditClassification::ConflictingHashMetadata => 17,
            AuditClassification::CrossBoardMetadata => 18,
            AuditClassification::ObsoleteJob => 19,
            AuditClassification::MalformedJob => 20,
            AuditClassification::IntentConflictsWithActiveReference => 21,
            AuditClassification::CompletedIntent => 22,
            AuditClassification::IntentInconsistency => 23,
            AuditClassification::MalformedIntent => 24,
            AuditClassification::UnsafeExternalIntent => 25,
            AuditClassification::UnsafeSymlink => 26,
            AuditClassification::UnsafeHardLink => 27,
            AuditClassification::UnexpectedDirectory => 28,
            AuditClassification::UnsafeSpecialEntry => 29,
            AuditClassification::UnsafePath => 30,
            AuditClassification::CrossBoardPath => 31,
            AuditClassification::ScanError => 32,
        }
    }

    /// The position of the classification in declaration order.
    pub fn rank(self) -> (r: u64)
        ensures
            r == self.rank_spec(),
    {
        match self {
            AuditClassification::Healthy => 0,
            AuditClassification::LifecycleInProgress => 1,
            AuditClassification::ScheduledDeletion => 2,
            AuditClassification::MissingPrimary => 3,
            AuditClassification::MissingThumbnail => 4,
            AuditClassification::MissingWaveform => 5,
            AuditClassification::MissingDeterministicOutput => 6,
            AuditClassification::MissingStageInstalledDestination => 7,
            AuditClassification::IntentionallyPrunedOriginal => 8,
            AuditClassification::RecoverableMissingDerived => 9,
            AuditClassification::UnrecoverableActiveReference => 10,
            AuditClassification::SafeOrphanCandidate => 11,
            AuditClassification::AmbiguousOrphan => 12,
            AuditClassification::StaleHashMissingFile => 13,
            AuditClassification::StaleHashUnreferenced => 14,
            AuditClassification::MissingHashMetadata => 15,
            AuditClassification::DigestConflict => 16,
            AuditClassification::ConflictingHashMetadata => 17,
            AuditClassification::CrossBoardMetadata => 18,
            AuditClassification::ObsoleteJob => 19,
            AuditClassification::MalformedJob => 20,
            AuditClassification::IntentConflictsWithActiveReference => 21,
            AuditClassification::CompletedIntent => 22,
            AuditClassification::IntentInconsistency => 23,
            AuditClassification::MalformedIntent => 24,
            AuditClassification::UnsafeExternalIntent => 25,
            AuditClassification::UnsafeSymlink => 26,
            AuditClassification::UnsafeHardLink => 27,
            AuditClassification::UnexpectedDirectory => 28,
            AuditClassification::UnsafeSpecialEntry => 29,
            AuditClassification::UnsafePath => 30,
            AuditClassification::CrossBoardPath => 31,
            AuditClassification::ScanError => 32,
        }
    }

    /// Whether the classification reports media that a live row still needs.
    pub open spec fn missing(self) -> bool {
        ||| self is MissingPrimary
        ||| self is MissingThumbnail
        ||| self is MissingWaveform
        ||| self is MissingDeterministicOutput
        ||| self is UnrecoverableActiveReference
    }

    /// Whether the classification reports media that a live row still needs.
    pub fn is_missing(self) -> (r: bool)
        ensures
            r == self.missing(),
    {
        matches!(
            self,
            AuditClassification::MissingPrimary | AuditClassification::MissingThumbnail
                | AuditClassification::MissingWaveform
                | AuditClassification::MissingDeterministicOutput
                | AuditClassification::UnrecoverableActiveReference
        )
    }
}

/// The action that a classification calls for.
pub open spec fn action_for(classification: AuditClassification) -> RecommendedAction {
    match classification {
        AuditClassification::SafeOrphanCandidate => RecommendedAction::ScheduleDurableDeletion,
        AuditClassification::StaleHashMissingFile => RecommendedAction::RemoveStaleHash,
        AuditClassification::StaleHashUnreferenced => RecommendedAction::RemoveStaleHash,
        AuditClassification::ObsoleteJob => RecommendedAction::ResolveObsoleteJob,
        AuditClassification::CompletedIntent => RecommendedAction::RemoveCompletedIntent,
        AuditClassification::RecoverableMissingDerived => RecommendedAction::EnqueueDerivedMedia,
        AuditClassification::Healthy => RecommendedAction::NoAction,
        AuditClassification::LifecycleInProgress => RecommendedAction::NoAction,
        AuditClassification::ScheduledDeletion => RecommendedAction::NoAction,
        AuditClassification::IntentionallyPrunedOriginal => RecommendedAction::NoAction,
        _ => RecommendedAction::PreserveAndReview,
    }
}

/// The action that a classification calls for.
pub fn recommended_action(classification: AuditClassification) -> (r: RecommendedAction)
    ensures
        r == action_for(classification),
{
    match classification {
        AuditClassification::SafeOrphanCandidate => RecommendedAction::ScheduleDurableDeletion,
        AuditClassification::StaleHashMissingFile
        | AuditClassification::StaleHashUnreferenced => RecommendedAction::RemoveStaleHash,
        AuditClassification::ObsoleteJob => RecommendedAction::ResolveObsoleteJob,
        AuditClassification::CompletedIntent => RecommendedAction::RemoveCompletedIntent,
        AuditClassification::RecoverableMissingDerived => RecommendedAction::EnqueueDerivedMedia,
        AuditClassification::Healthy
        | AuditClassification::LifecycleInProgress
        | AuditClassification::ScheduledDeletion
        | AuditClassification::IntentionallyPrunedOriginal => RecommendedAction::NoAction,
        _ => RecommendedAction::PreserveAndReview,
    }
}

/// Deletion is recommended of proven orphans alone.
pub proof fn law_only_safe_orphans_are_deleted(classification: AuditClassification)
    ensures
        action_for(classification) is ScheduleDurableDeletion
            <==> classification is SafeOrphanCandidate,
{
}

/// One audited path or row, kept to illustrate its classification.
#[derive(Debug, Clone)]
pub struct AuditExample {
    /// What the audit concluded.
    pub classification: AuditClassification,
    /// Kind of managed media.
    pub category: MediaCategory,
    /// Owning board, where one is trusted.
    pub board: Option<String>,
    /// Managed path, or a redacted identifier of an untrusted one.
    pub managed_id: String,
    /// Owning row, where there is one.
    pub owner: Option<String>,
    /// Size of the file in bytes.
    pub bytes: u64,
    /// What to do about it.
    pub recommended_action: RecommendedAction,
}

/// The model of an audit example.
#[verifier::ext_equal]
pub struct ExampleView {
    pub classification: AuditClassification,
    pub category: MediaCategory,
    pub board: Option<Seq<char>>,
    pub managed_id: Seq<char>,
    pub owner: Option<Seq<char>>,
    pub bytes: u64,
    pub recommended_action: RecommendedAction,
}

impl View for AuditExample {
    type V = ExampleView;

    open spec fn view(&self) -> ExampleView {
        ExampleView {
            classification: self.classification,
            category: self.category,
            board: text::opt_view(self.board),
            managed_id: self.managed_id@,
            owner: text::opt_view(self.owner),
            bytes: self.bytes,
            recommended_action: self.recommended_action,
        }
    }
}

/// The example that illustrates a classification, with the action it calls for.
pub open spec fn example(
    classification: AuditClassification,
    category: MediaCategory,
    board: Option<Seq<char>>,
    managed_id: Seq<char>,
    owner: Option<Seq<char>>,
    bytes: u64,
) -> ExampleView {
    ExampleView {
        classification,
        category,
        board,
        managed_id,
        owner,
        bytes,
        recommended_action: action_for(classification),
    }
}

/// Makes the example that illustrates a classification.
pub fn make_example(
    classification: AuditClassification,
    category: MediaCategory,
    board: Option<String>,
    managed_id: String,
    owner: Option<String>,
    bytes: u64,
) -> (r: AuditExample)
    ensures
        r@ == example(
            classification,
            category,
            text::opt_view(board),
            managed_id@,
            text::opt_view(owner),
            bytes,
        ),
{
    AuditExample {
        classification,
        category,
        board,
        managed_id,
        owner,
        bytes,
        recommended_action: recommended_action(classification),
    }
}

/// Counts of what a pass repaired.
#[derive(Debug, Clone, Copy, PartialEq, Eq, Structural)]
pub struct RepairSummary {
    /// Orphan files scheduled for deletion.
    pub files_scheduled: u64,
    /// Bytes of those files.
    pub bytes_scheduled: u64,
    /// Stale digest rows removed.
    pub stale_hash_rows_removed: u64,
    /// Obsolete job rows removed.
    pub obsolete_jobs_removed: u64,
    /// Completed intent rows removed.
    pub completed_intents_removed: u64,
    /// Repairs given up because the state had changed.
    pub revalidation_conflicts: u64,
    /// Repairs that failed.
    pub failures: u64,
}

impl Default for RepairSummary {
    fn default() -> (r: Self)
        ensures
            r == no_repairs(),
    {
        RepairSummary {
            files_scheduled: 0,
            bytes_scheduled: 0,
            stale_hash_rows_removed: 0,
            obsolete_jobs_removed: 0,
            completed_intents_removed: 0,
            revalidation_conflicts: 0,
            failures: 0,
        }
    }
}

/// The summary of a pass that repaired nothing.
pub open spec fn no_repairs() -> RepairSummary {
    RepairSummary {
        files_scheduled: 0,
        bytes_scheduled: 0,
        stale_hash_rows_removed: 0,
        obsolete_jobs_removed: 0,
        completed_intents_removed: 0,
        revalidation_conflicts: 0,
        failures: 0,
    }
}

/// The sum of two counters, held at the largest 64-bit value.
pub open spec fn saturated(a: int, b: int) -> u64 {
    if a + b > u64::MAX {
        u64::MAX
    } else {
        (a + b) as u64
    }
}

impl RepairSummary {
    /// The number of repairs that took effect, held at the largest 64-bit value.
    pub fn completed(self) -> (r: u64)
        ensures
            r == saturated(
                self.files_scheduled as int,
                self.stale_hash_rows_removed + self.obsolete_jobs_removed
                    + self.completed_intents_removed,
            ),
    {
        self.files_scheduled.saturating_add(self.stale_hash_rows_removed).saturating_add(
            self.obsolete_jobs_removed,
        ).saturating_add(self.completed_intents_removed)
    }
}

/// The counter with the given rank; zero where nothing was counted.
pub open spec fn tally_get(tally: Map<u64, u64>, rank: u64) -> u64 {
    if tally.dom().contains(rank) {
        tally[rank]
    } else {
        0
    }
}

/// The counters after an amount has been added to one of them.
pub open spec fn tally_add(tally: Map<u64, u64>, rank: u64, amount: u64) -> Map<u64, u64> {
    tally.insert(rank, saturated(tally_get(tally, rank) as int, amount as int))
}

/// The counter with the given rank.
pub fn count_of(tally: &BTreeMap<u64, u64>, rank: u64) -> (r: u64)
    ensures
        r == tally_get(tally@, rank),
{
    broadcast use vstd::std_specs::btree::group_btree_axioms;

    match tally.get(&rank) {
        Some(n) => *n,
        None => 0,
    }
}

/// Adds an amount to the counter with the given rank.
pub fn add_count(tally: &mut BTreeMap<u64, u64>, rank: u64, amount: u64)
    ensures
        final(tally)@ == tally_add(old(tally)@, rank, amount),
{
    broadcast use vstd::std_specs::btree::group_btree_axioms;

    let total: u64 = count_of(tally, rank).saturating_add(amount);
    tally.insert(rank, total);
}

/// What one reconciliation pass found and did.
#[derive(Debug, Clone)]
pub struct AuditReport {
    /// Unique identifier of the pass.
    pub scan_id: String,
    /// Unix time at which the pass began.
    pub started_at: i64,
    /// Unix time at which the pass ended.
    pub completed_at: i64,
    /// Board directories walked.
    pub boards_examined: u64,
    /// Filesystem entries classified.
    pub paths_examined: u64,
    /// Database references classified.
    pub references_examined: u64,
    /// Bytes per classification rank.
    pub bytes_by_classification: BTreeMap<u64, u64>,
    /// Entries per classification rank.
    pub counts: BTreeMap<u64, u64>,
    /// Entries per category rank.
    pub categories: BTreeMap<u64, u64>,
    /// Illustrating examples, bounded in number.
    pub examples: Vec<AuditExample>,
    /// Errors met, bounded in number.
    pub errors: Vec<String>,
    /// Whether the database stayed unchanged throughout the pass.
    pub transactionally_stable: bool,
    /// Whether something was left unexamined.
    pub incomplete: bool,
    /// Where the next pass continues.
    pub next_cursor: ReconcileCursor,
    /// What the pass repaired.
    pub repairs: RepairSummary,
}

/// The model of an audit report.
#[verifier::ext_equal]
pub struct ReportView {
    pub scan_id: Seq<char>,
    pub started_at: i64,
    pub completed_at: i64,
    pub boards_examined: u64,
    pub paths_examined: u64,
    pub references_examined: u64,
    pub bytes_by_classification: Map<u64, u64>,
    pub counts: Map<u64, u64>,
    pub categories: Map<u64, u64>,
    pub examples: Seq<ExampleView>,
    pub errors: Seq<Seq<char>>,
    pub transactionally_stable: bool,
    pub incomplete: bool,
    pub next_cursor: Option<Seq<char>>,
    pub repairs: RepairSummary,
}

impl View for AuditReport {
    type V = ReportView;

    open spec fn view(&self) -> ReportView {
        ReportView {
            scan_id: self.scan_id@,
            started_at: self.started_at,
            completed_at: self.completed_at,
            boards_examined: self.boards_examined,
            paths_examined: self.paths_examined,
            references_examined: self.references_examined,
            bytes_by_classification: self.bytes_by_classification@,
            counts: self.counts@,
            categories: self.categories@,
            examples: text::views(self.examples@),
            errors: text::views(self.errors@),
            transactionally_stable: self.transactionally_stable,
            incomplete: self.incomplete,
            next_cursor: self.next_cursor.after(),
            repairs: self.repairs,
        }
    }
}

impl ReportView {
    /// How often the classification was recorded.
    pub open spec fn count(self, classification: AuditClassification) -> u64 {
        tally_get(self.counts, classification.rank_spec())
    }

    /// The report of a pass that has seen nothing yet.
    pub open spec fn fresh(scan_id: Seq<char>, started_at: i64) -> ReportView {
        ReportView {
            scan_id,
            started_at,
            completed_at: started_at,
            boards_examined: 0,
            paths_examined: 0,
            references_examined: 0,
            bytes_by_classification: Map::empty(),
            counts: Map::empty(),
            categories: Map::empty(),
            examples: Seq::empty(),
            errors: Seq::empty(),
            transactionally_stable: false,
            incomplete: false,
            next_cursor: None,
            repairs: no_repairs(),
        }
    }

    /// The report after one more entry has been counted and, where there is
    /// room, illustrated.
    pub open spec fn recorded(
        self,
        classification: AuditClassification,
        category: MediaCategory,
        bytes: u64,
        shown: Option<ExampleView>,
        limit: usize,
    ) -> ReportView {
        ReportView {
            counts: tally_add(self.counts, classification.rank_spec(), 1),
            categories: tally_add(self.categories, category.rank_spec(), 1),
            bytes_by_classification: tally_add(
                self.bytes_by_classification,
                classification.rank_spec(),
                bytes,
            ),
            examples: if self.examples.len() < limit && shown is Some {
                self.examples.push(shown->Some_0)
            } else {
                self.examples
            },
            ..self
        }
    }

    /// The report after an error: incomplete, with the message where there is
    /// room.
    pub open spec fn with_error(self, message: Seq<char>, limit: usize) -> ReportView {
        ReportView {
            incomplete: true,
            errors: if self.errors.len() < limit {
                self.errors.push(message)
            } else {
                self.errors
            },
            ..self
        }
    }

    /// The report after an example has been counted under its own values.
    pub open spec fn shown(self, shown: ExampleView, limit: usize) -> ReportView {
        self.recorded(shown.classification, shown.category, shown.bytes, Some(shown), limit)
    }
}

impl AuditReport {
    /// The report of a pass that has seen nothing yet.
    pub fn new(scan_id: String, started_at: i64) -> (r: Self)
        ensures
            r@ == ReportView::fresh(scan_id@, started_at),
    {
        broadcast use text::group_views;
        broadcast use vstd::std_specs::btree::group_btree_axioms;

        AuditReport {
            scan_id,
            started_at,
            completed_at: started_at,
            boards_examined: 0,
            paths_examined: 0,
            references_examined: 0,
            bytes_by_classification: BTreeMap::new(),
            counts: BTreeMap::new(),
            categories: BTreeMap::new(),
            examples: Vec::new(),
            errors: Vec::new(),
            transactionally_stable: false,
            incomplete: false,
            next_cursor: ReconcileCursor { after_managed_key: None },
            repairs: RepairSummary::default(),
        }
    }

    /// Counts one entry and keeps its example while there is room.
    pub fn record(
        &mut self,
        classification: AuditClassification,
        category: MediaCategory,
        bytes: u64,
        example: Option<AuditExample>,
        example_limit: usize,
    )
        ensures
            final(self)@ == old(self)@.recorded(
                classification,
                category,
                bytes,
                text::opt_view(example),
                example_limit,
            ),
    {
        broadcast use text::group_views;

        add_count(&mut self.counts, classification.rank(), 1);
        add_count(&mut self.categories, category.rank(), 1);
        add_count(&mut self.bytes_by_classification, classification.rank(), bytes);
        if self.examples.len() < example_limit {
            if let Some(example) = example {
                self.examples.push(example);
            }
        }
    }

    /// Counts an example under its own values and keeps it while there is room.
    pub fn show(&mut self, example: AuditExample, example_limit: usize)
        ensures
            final(self)@ == old(self)@.shown(example@, example_limit),
    {
        let classification = example.classification;
        let category = example.category;
        let bytes: u64 = example.bytes;
        self.record(classification, category, bytes, Some(example), example_limit);
    }

    /// Marks the report incomplete and keeps the message while there is room.
    pub fn error(&mut self, message: String, example_limit: usize)
        ensures
            final(self)@ == old(self)@.with_error(message@, example_limit),
    {
        broadcast use text::group_views;

        self.incomplete = true;
        if self.errors.len() < example_limit {
            self.errors.push(message);
        }
    }

    /// How often the classification was recorded.
    pub fn count(&self, classification: AuditClassification) -> (r: u64)
        ensures
            r == self@.count(classification),
    {
        count_of(&self.counts, classification.rank())
    }

    /// The bytes recorded under the classification.
    pub fn bytes(&self, classification: AuditClassification) -> (r: u64)
        ensures
            r == tally_get(self@.bytes_by_classification, classification.rank_spec()),
    {
        count_of(&self.bytes_by_classification, classification.rank())
    }
}

/// No report holds more examples or errors than the limit, if it held no more
/// before.
pub proof fn law_report_stays_bounded(
    report: ReportView,
    classification: AuditClassification,
    category: MediaCategory,
    bytes: u64,
    shown: Option<ExampleView>,
    message: Seq<char>,
    limit: usize,
)
    requires
        report.examples.len() <= limit,
        report.errors.len() <= limit,
    ensures
        report.recorded(classification, category, bytes, shown, limit).examples.len() <= limit,
        report.with_error(message, limit).errors.len() <= limit,
{
}

/// An entry is counted under its classification whether or not its example is
/// kept.
pub proof fn law_recording_counts_once(
    report: ReportView,
    classification: AuditClassification,
    category: MediaCategory,
    bytes: u64,
    shown: Option<ExampleView>,
    limit: usize,
    other: AuditClassification,
)
    ensures
        report.recorded(classification, category, bytes, shown, limit).count(other) == (if other
            == classification {
            saturated(report.count(other) as int, 1)
        } else {
            report.count(other)
        }),
{
}

/// Each class has one action: only a proven orphan is deleted, only a stale digest row, an
/// obsolete job or a completed intent is removed, only media that can be made again is
/// queued, nothing is done about what is in order, and everything else is kept and looked
/// at.
pub proof fn law_actions_follow_the_class(class: AuditClassification)
    ensures
        action_for(class) is ScheduleDurableDeletion <==> class is SafeOrphanCandidate,
        action_for(class) is RemoveStaleHash <==> class is StaleHashMissingFile
            || class is StaleHashUnreferenced,
        action_for(class) is ResolveObsoleteJob <==> class is ObsoleteJob,
        action_for(class) is RemoveCompletedIntent <==> class is CompletedIntent,
        action_for(class) is EnqueueDerivedMedia <==> class is RecoverableMissingDerived,
        action_for(class) is NoAction <==> class is Healthy || class is LifecycleInProgress
            || class is ScheduledDeletion || class is IntentionallyPrunedOriginal,
{
}

/// Classes and categories are counted apart.
pub proof fn law_ranks_tell_apart(
    a: AuditClassification,
    b: AuditClassification,
    c: MediaCategory,
    d: MediaCategory,
)
    ensures
        a.rank_spec() == b.rank_spec() ==> a == b,
        c.rank_spec() == d.rank_spec() ==> c == d,
{
}

/// A limit within its bounds is kept, and one outside is moved to the nearer bound.
pub proof fn law_limits_are_moved_into_bounds(limits: ReconcileLimits)
    ensures
        ({
            let r = limits.within();
            &&& r.in_bounds()
            &&& 1 <= limits.files_per_pass <= 10_000 ==> r.files_per_pass == limits.files_per_pass
            &&& limits.files_per_pass > 10_000 ==> r.files_per_pass == 10_000
            &&& 1 <= limits.database_rows_per_pass <= 250_000 ==> r.database_rows_per_pass
                == limits.database_rows_per_pass
            &&& limits.database_rows_per_pass > 250_000 ==> r.database_rows_per_pass == 250_000
            &&& 1 <= limits.hash_bytes_per_pass <= 4_294_967_296 ==> r.hash_bytes_per_pass
                == limits.hash_bytes_per_pass
            &&& limits.hash_bytes_per_pass > 4_294_967_296 ==> r.hash_bytes_per_pass
                == 4_294_967_296
            &&& 1 <= limits.repairs_per_pass <= 1_000 ==> r.repairs_per_pass
                == limits.repairs_per_pass
            &&& limits.repairs_per_pass > 1_000 ==> r.repairs_per_pass == 1_000
            &&& 1 <= limits.examples_per_pass <= 256 ==> r.examples_per_pass
                == limits.examples_per_pass
            &&& limits.examples_per_pass > 256 ==> r.examples_per_pass == 256
            &&& limits.files_per_pass == 0 ==> r.files_per_pass == 1
            &&& limits.database_rows_per_pass == 0 ==> r.database_rows_per_pass == 1
            &&& limits.hash_bytes_per_pass == 0 ==> r.hash_bytes_per_pass == 1
            &&& limits.repairs_per_pass == 0 ==> r.repairs_per_pass == 1
            &&& limits.examples_per_pass == 0 ==> r.examples_per_pass == 1
        }),
{
}

/// What is recorded adds its bytes to its class and one to its category, and is shown while
/// there is room; nothing else of the report changes.
pub proof fn law_recording_adds_bytes_and_example(
    report: ReportView,
    shown: ExampleView,
    limit: usize,
    class: AuditClassification,
    category: MediaCategory,
)
    requires
        tally_get(report.bytes_by_classification, shown.classification.rank_spec()) + shown.bytes
            <= u64::MAX,
        tally_get(report.categories, shown.category.rank_spec()) < u64::MAX,
    ensures
        ({
            let r = report.shown(shown, limit);
            &&& tally_get(r.bytes_by_classification, class.rank_spec()) == tally_get(
                report.bytes_by_classification,
                class.rank_spec(),
            ) + if class == shown.classification {
                shown.bytes as int
            } else {
                0
            }
            &&& tally_get(r.categories, category.rank_spec()) == tally_get(
                report.categories,
                category.rank_spec(),
            ) + if category == shown.category {
                1int
            } else {
                0
            }
            &&& report.examples.len() < limit ==> r.examples == report.examples.push(shown)
            &&& report.examples.len() >= limit ==> r.examples == report.examples
            &&& r.errors == report.errors && r.incomplete == report.incomplete
            &&& r.repairs == report.repairs && r.next_cursor == report.next_cursor
            &&& r.transactionally_stable == report.transactionally_stable
            &&& r.paths_examined == report.paths_examined
            &&& r.references_examined == report.references_examined
        }),
{
}

/// An error makes the pass incomplete, whether or not there is room to show it.
pub proof fn law_errors_make_passes_incomplete(report: ReportView, message: Seq<char>, limit: usize)
    ensures
        ({
            let r = report.with_error(message, limit);
            &&& r.incomplete
            &&& report.errors.len() < limit ==> r.errors == report.errors.push(message)
            &&& report.errors.len() >= limit ==> r.errors == report.errors
            &&& r.counts == report.counts && r.repairs == report.repairs
            &&& r.transactionally_stable == report.transactionally_stable
        }),
{
}

} // verus!
