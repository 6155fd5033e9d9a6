//! The course of one reconciliation pass, and the counters kept across passes.

use vstd::prelude::*;
use vstd::string::*;
use crate::text;
use crate::text::concat;
use super::intents;
use super::intents::{collect_intents, IntentRow, IntentRowView};
use super::jobs;
use super::jobs::{collect_jobs, JobRow, JobRowView};
use super::model::{ModelView, ReferenceModel};
use super::orphans;
use super::orphans::{finalize_orphan_classifications, OrphanCandidate};
use super::report;
use super::report::{
    AuditClassification, AuditReport, ReconcileLimits, ReconcileMode, ReportView,
};
use super::rows;
use super::rows::{
    collect_boards, collect_hashes, collect_posts, BoardRow, BoardRowView, HashRow, HashRowView,
    PostRow, PostRowView,
};

verus! {

/// The rows of every table that claims media, read in one transaction.
#[derive(Debug, Clone)]
pub struct Snapshot {
    pub data_version: i64,
    pub boards: Vec<BoardRow>,
    pub posts: Vec<PostRow>,
    pub hashes: Vec<HashRow>,
    pub jobs: Vec<JobRow>,
    pub intents: Vec<IntentRow>,
}

/// The model of the rows.
pub struct SnapshotView {
    pub data_version: i64,
    pub boards: Seq<BoardRowView>,
    pub posts: Seq<PostRowView>,
    pub hashes: Seq<HashRowView>,
    pub jobs: Seq<JobRowView>,
    pub intents: Seq<IntentRowView>,
}

impl View for Snapshot {
    type V = SnapshotView;

    open spec fn view(&self) -> SnapshotView {
        SnapshotView {
            data_version: self.data_version,
            boards: text::views(self.boards@),
            posts: text::views(self.posts@),
            hashes: text::views(self.hashes@),
            jobs: text::views(self.jobs@),
            intents: text::views(self.intents@),
        }
    }
}

/// The claims that the rows make: boards first, then posts, digest rows, jobs
/// and intents, against one row limit.
pub open spec fn snapshot_model(s: SnapshotView, limit: usize) -> ModelView {
    let boards = rows::boards_collected(ModelView::fresh(s.data_version), s.boards, limit);
    let posts = rows::posts_collected(boards, s.posts, limit);
    let hashes = rows::hashes_collected(posts, s.hashes, limit);
    let jobs = jobs::jobs_collected(hashes, s.jobs, limit);
    intents::intents_collected(jobs, s.intents, limit)
}

/// Reads every table that claims media.
pub fn collect_reference_model(snapshot: Snapshot, row_limit: usize) -> (r: ReferenceModel)
    ensures
        r@ == snapshot_model(snapshot@, row_limit),
{
    let mut model = ReferenceModel::new(snapshot.data_version);
    collect_boards(&mut model, snapshot.boards, row_limit);
    collect_posts(&mut model, snapshot.posts, row_limit);
    collect_hashes(&mut model, snapshot.hashes, row_limit);
    collect_jobs(&mut model, snapshot.jobs, row_limit);
    collect_intents(&mut model, snapshot.intents, row_limit);
    model
}

/// The report of a pass whose references have been read.
pub open spec fn opened(scan_id: Seq<char>, started_at: i64, m: ModelView, limit: usize) -> ReportView {
    let r = ReportView {
        references_examined: m.database_rows_scanned as u64,
        ..ReportView::fresh(scan_id, started_at)
    };
    if m.incomplete {
        r.with_error(
            "authoritative database reference snapshot exceeded its configured row limit"@,
            limit,
        )
    } else {
        r
    }
}

/// Opens the report of a pass whose references have been read.
pub fn open_pass(
    scan_id: String,
    started_at: i64,
    m: &ReferenceModel,
    limits: &ReconcileLimits,
) -> (r: AuditReport)
    ensures
        r@ == opened(scan_id@, started_at, m@, limits.examples_per_pass),
{
    let mut report = AuditReport::new(scan_id, started_at);
    report.references_examined = m.database_rows_scanned as u64;
    if m.incomplete {
        report.error(
            "authoritative database reference snapshot exceeded its configured row limit".to_owned(),
            limits.examples_per_pass,
        );
    }
    report
}

/// Notes that the managed directories could not be walked.
pub fn inventory_unavailable(report: &mut AuditReport, error: &str, example_limit: usize)
    ensures
        final(report)@ == old(report)@.with_error(
            "managed filesystem inventory could not start: "@ + error@,
            example_limit,
        ),
{
    report.error(
        concat("managed filesystem inventory could not start: ", error),
        example_limit,
    );
}

/// The report once it is known whether the database stayed unchanged.
pub open spec fn stability_noted(m: ModelView, r: ReportView, final_version: i64, limit: usize) -> ReportView {
    let stable = final_version == m.data_version;
    let noted = ReportView { transactionally_stable: stable, ..r };
    if stable {
        noted
    } else {
        noted.with_error("database generation changed during filesystem enumeration"@, limit)
    }
}

/// Whether what the pass found may be repaired: the database stayed unchanged,
/// nothing was left unread, and no row was ambiguous.
pub open spec fn repair_safe(m: ModelView, r: ReportView) -> bool {
    r.transactionally_stable && !r.incomplete && !m.incomplete && !m.global_ambiguity
}

/// Closes the scan: notes whether the database stayed unchanged, shows the
/// orphan candidates, and says whether repairs are safe.
pub fn conclude_scan(
    m: &ReferenceModel,
    report: &mut AuditReport,
    final_data_version: i64,
    candidates: &Vec<OrphanCandidate>,
    example_limit: usize,
) -> (r: bool)
    ensures
        ({
            let noted = stability_noted(m@, old(report)@, final_data_version, example_limit);
            &&& r == repair_safe(m@, noted)
            &&& final(report)@ == orphans::with_orphans(
                noted,
                text::views(candidates@),
                r,
                example_limit,
            )
        }),
{
    report.transactionally_stable = final_data_version == m.data_version;
    if !report.transactionally_stable {
        report.error(
            "database generation changed during filesystem enumeration".to_owned(),
            example_limit,
        );
    }
    let safe = report.transactionally_stable && !report.incomplete && !m.incomplete
        && !m.global_ambiguity;
    finalize_orphan_classifications(candidates, safe, report, example_limit);
    safe
}

/// Whether the pass repairs what it found.
pub fn repairs_enabled(mode: ReconcileMode, safe: bool) -> (r: bool)
    ensures
        r == (mode is Repair && safe),
{
    mode == ReconcileMode::Repair && safe
}

/// A pass over a snapshot that changed, was cut off, or holds an ambiguous row
/// is never safe to repair.
pub proof fn law_unsafe_passes_repair_nothing(
    m: ModelView,
    r: ReportView,
    final_version: i64,
    limit: usize,
)
    requires
        final_version != m.data_version || m.incomplete || m.global_ambiguity || r.incomplete,
    ensures
        !repair_safe(m, stability_noted(m, r, final_version, limit)),
{
}

/// A snapshot cut off by the row limit makes its report incomplete.
pub proof fn law_truncated_snapshots_are_incomplete(
    scan_id: Seq<char>,
    started_at: i64,
    m: ModelView,
    limit: usize,
)
    requires
        m.incomplete,
    ensures
        opened(scan_id, started_at, m, limit).incomplete,
{
}

/// Reading a table never makes a snapshot complete or unambiguous again.
pub proof fn law_doubts_stay(
    m: ModelView,
    boards: Seq<BoardRowView>,
    posts: Seq<PostRowView>,
    hash_rows: Seq<HashRowView>,
    job_rows: Seq<JobRowView>,
    intent_rows: Seq<IntentRowView>,
    limit: usize,
)
    ensures
        keeps_doubts(m, rows::boards_collected(m, boards, limit)),
        keeps_doubts(m, rows::posts_collected(m, posts, limit)),
        keeps_doubts(m, rows::hashes_collected(m, hash_rows, limit)),
        keeps_doubts(m, jobs::jobs_collected(m, job_rows, limit)),
        keeps_doubts(m, intents::intents_collected(m, intent_rows, limit)),
{
    let left = super::model::rows_left(m, limit);
    lemma_boards_keep_doubts(
        super::model::counted(m, boards.len(), left),
        super::model::kept_rows(boards, left),
    );
    lemma_posts_keep_doubts(
        super::model::counted(m, posts.len(), left),
        super::model::kept_rows(posts, left),
    );
    lemma_hashes_keep_doubts(
        super::model::counted(m, hash_rows.len(), left),
        super::model::kept_rows(hash_rows, left),
    );
    let kept = super::model::kept_rows(job_rows, left);
    lemma_jobs_keep_doubts(super::model::counted(m, job_rows.len(), left), kept, kept.len());
    lemma_intents_keep_doubts(
        super::model::counted(m, intent_rows.len(), left),
        super::model::kept_rows(intent_rows, left),
    );
}

/// Whether the doubts about one snapshot remain in another.
pub open spec fn keeps_doubts(before: ModelView, after: ModelView) -> bool {
    (before.incomplete ==> after.incomplete) && (before.global_ambiguity
        ==> after.global_ambiguity)
}

proof fn lemma_boards_keep_doubts(m: ModelView, all: Seq<BoardRowView>)
    ensures
        keeps_doubts(m, rows::with_boards(m, all)),
    decreases all.len(),
{
    if all.len() > 0 {
        lemma_boards_keep_doubts(m, all.drop_last());
    }
}

proof fn lemma_posts_keep_doubts(m: ModelView, all: Seq<PostRowView>)
    ensures
        keeps_doubts(m, rows::with_posts(m, all)),
    decreases all.len(),
{
    if all.len() > 0 {
        lemma_posts_keep_doubts(m, all.drop_last());
    }
}

proof fn lemma_hashes_keep_doubts(m: ModelView, all: Seq<HashRowView>)
    ensures
        keeps_doubts(m, rows::with_hashes(m, all)),
    decreases all.len(),
{
    if all.len() > 0 {
        lemma_hashes_keep_doubts(m, all.drop_last());
    }
}

proof fn lemma_jobs_keep_doubts(m: ModelView, all: Seq<JobRowView>, n: nat)
    ensures
        keeps_doubts(m, jobs::with_jobs(m, all, n)),
    decreases n,
{
    if n > 0 {
        lemma_jobs_keep_doubts(m, all, (n - 1) as nat);
    }
}

proof fn lemma_intents_keep_doubts(m: ModelView, all: Seq<IntentRowView>)
    ensures
        keeps_doubts(m, intents::with_intents(m, all)),
    decreases all.len(),
{
    if all.len() > 0 {
        let before = intents::with_intents(m, all.drop_last());
        lemma_intents_keep_doubts(m, all.drop_last());
        lemma_intent_keeps_doubts(before, all.last());
    }
}

proof fn lemma_intent_keeps_doubts(m: ModelView, row: IntentRowView)
    ensures
        keeps_doubts(m, intents::with_intent(m, row).model),
{
    match row.body {
        intents::IntentView::DeleteFiles { paths, dirs } => {
            lemma_delete_paths_keep_doubts(m, row.id, paths);
            lemma_delete_dirs_keep_doubts(
                intents::with_delete_paths(m, row.id, paths).model,
                dirs,
            );
        },
        intents::IntentView::OriginalPrune { post_ids, paths } => {
            lemma_prune_paths_keep_doubts(m, row.id, paths, intents::post_owners(post_ids));
        },
        intents::IntentView::UploadFinalize(upload) => {
            if intents::stage_relative(upload) is Ok {
                lemma_artifacts_keep_doubts(
                    m,
                    row.id,
                    upload,
                    intents::stage_relative(upload)->Ok_0,
                    intents::artifact_paths(upload).len(),
                );
            }
        },
        _ => {},
    }
}

proof fn lemma_delete_paths_keep_doubts(m: ModelView, id: Seq<char>, paths: Seq<Seq<char>>)
    ensures
        keeps_doubts(m, intents::with_delete_paths(m, id, paths).model),
    decreases paths.len(),
{
    if paths.len() > 0 {
        lemma_delete_paths_keep_doubts(m, id, paths.drop_last());
    }
}

proof fn lemma_delete_dirs_keep_doubts(m: ModelView, dirs: Seq<Seq<char>>)
    ensures
        keeps_doubts(m, intents::with_delete_dirs(m, dirs).model),
    decreases dirs.len(),
{
    if dirs.len() > 0 {
        lemma_delete_dirs_keep_doubts(m, dirs.drop_last());
    }
}

proof fn lemma_prune_paths_keep_doubts(
    m: ModelView,
    id: Seq<char>,
    targets: Seq<crate::media::prune::CandidatePathView>,
    protected: Seq<Seq<char>>,
)
    ensures
        keeps_doubts(m, intents::with_prune_paths(m, id, targets, protected).model),
    decreases targets.len(),
{
    if targets.len() > 0 {
        lemma_prune_paths_keep_doubts(m, id, targets.drop_last(), protected);
    }
}

proof fn lemma_artifacts_keep_doubts(
    m: ModelView,
    id: Seq<char>,
    upload: intents::UploadView,
    stage: Seq<char>,
    n: nat,
)
    ensures
        keeps_doubts(m, intents::with_artifacts(m, id, upload, stage, n).model),
    decreases n,
{
    if n > 0 {
        lemma_artifacts_keep_doubts(m, id, upload, stage, (n - 1) as nat);
    }
}

/// Counters kept across passes.
#[derive(Debug, Clone, Copy, PartialEq, Eq, Structural)]
pub struct ReconcileMetrics {
    /// Filesystem entries classified.
    pub files_scanned_total: u64,
    /// Database references classified.
    pub references_scanned_total: u64,
    /// Live references without their file.
    pub missing_references_total: u64,
    /// Bytes of proven orphans.
    pub safe_orphan_bytes_total: u64,
    /// Orphans that could not be proven.
    pub ambiguous_files_total: u64,
    /// Repairs that took effect.
    pub repairs_total: u64,
    /// Repairs given up because the state had changed.
    pub repair_conflicts_total: u64,
    /// Passes that left something unexamined.
    pub incomplete_scans_total: u64,
}

impl Default for ReconcileMetrics {
    fn default() -> (r: Self)
        ensures
            r == (ReconcileMetrics {
                files_scanned_total: 0,
                references_scanned_total: 0,
                missing_references_total: 0,
                safe_orphan_bytes_total: 0,
                ambiguous_files_total: 0,
                repairs_total: 0,
                repair_conflicts_total: 0,
                incomplete_scans_total: 0,
            }),
    {
        ReconcileMetrics {
            files_scanned_total: 0,
            references_scanned_total: 0,
            missing_references_total: 0,
            safe_orphan_bytes_total: 0,
            ambiguous_files_total: 0,
            repairs_total: 0,
            repair_conflicts_total: 0,
            incomplete_scans_total: 0,
        }
    }
}

/// A copy of the counters.
pub fn metrics_snapshot(metrics: &ReconcileMetrics) -> (r: ReconcileMetrics)
    ensures
        r == *metrics,
{
    *metrics
}

/// A counter that wraps around at the largest 64-bit value.
pub open spec fn wrapped(a: u64, b: u64) -> u64 {
    if a + b > u64::MAX {
        (a + b - 0x1_0000_0000_0000_0000) as u64
    } else {
        (a + b) as u64
    }
}

fn wrapping(a: u64, b: u64) -> (r: u64)
    ensures
        r == wrapped(a, b),
{
    a.wrapping_add(b)
}

/// The entries reported as live references without their file, held at the
/// largest 64-bit value.
pub open spec fn missing_total(r: ReportView) -> u64 {
    report::saturated(
        r.count(AuditClassification::MissingPrimary) as int,
        r.count(AuditClassification::MissingThumbnail) + r.count(
            AuditClassification::MissingWaveform,
        ) + r.count(AuditClassification::MissingDeterministicOutput) + r.count(
            AuditClassification::UnrecoverableActiveReference,
        ),
    )
}

/// The entries that were unsafe to follow, held at the largest 64-bit value.
pub open spec fn unsafe_total(r: ReportView) -> u64 {
    report::saturated(
        r.count(AuditClassification::UnsafeSymlink) as int,
        r.count(AuditClassification::UnsafeHardLink) + r.count(
            AuditClassification::UnexpectedDirectory,
        ) + r.count(AuditClassification::UnsafeSpecialEntry) + r.count(
            AuditClassification::UnsafePath,
        ) + r.count(AuditClassification::CrossBoardPath),
    )
}

fn sum_missing(report: &AuditReport) -> (r: u64)
    ensures
        r == missing_total(report@),
{
    report.count(AuditClassification::MissingPrimary).saturating_add(
        report.count(AuditClassification::MissingThumbnail),
    ).saturating_add(report.count(AuditClassification::MissingWaveform)).saturating_add(
        report.count(AuditClassification::MissingDeterministicOutput),
    ).saturating_add(report.count(AuditClassification::UnrecoverableActiveReference))
}

fn sum_unsafe(report: &AuditReport) -> (r: u64)
    ensures
        r == unsafe_total(report@),
{
    report.count(AuditClassification::UnsafeSymlink).saturating_add(
        report.count(AuditClassification::UnsafeHardLink),
    ).saturating_add(report.count(AuditClassification::UnexpectedDirectory)).saturating_add(
        report.count(AuditClassification::UnsafeSpecialEntry),
    ).saturating_add(report.count(AuditClassification::UnsafePath)).saturating_add(
        report.count(AuditClassification::CrossBoardPath),
    )
}

/// The number of repairs that took effect.
pub open spec fn completed_repairs(r: ReportView) -> u64 {
    report::saturated(
        r.repairs.files_scheduled as int,
        r.repairs.stale_hash_rows_removed + r.repairs.obsolete_jobs_removed
            + r.repairs.completed_intents_removed,
    )
}

/// The counters after a pass.
pub open spec fn metered(metrics: ReconcileMetrics, r: ReportView) -> ReconcileMetrics {
    ReconcileMetrics {
        files_scanned_total: wrapped(
            metrics.files_scanned_total,
            r.paths_examined,
        ),
        references_scanned_total: wrapped(
            metrics.references_scanned_total,
            r.references_examined,
        ),
        missing_references_total: wrapped(
            metrics.missing_references_total,
            missing_total(r),
        ),
        safe_orphan_bytes_total: wrapped(
            metrics.safe_orphan_bytes_total,
            report::tally_get(
                r.bytes_by_classification,
                AuditClassification::SafeOrphanCandidate.rank_spec(),
            ),
        ),
        ambiguous_files_total: wrapped(
            metrics.ambiguous_files_total,
            r.count(AuditClassification::AmbiguousOrphan),
        ),
        repairs_total: wrapped(metrics.repairs_total, completed_repairs(r)),
        repair_conflicts_total: wrapped(
            metrics.repair_conflicts_total,
            r.repairs.revalidation_conflicts,
        ),
        incomplete_scans_total: if r.incomplete {
            wrapped(metrics.incomplete_scans_total, 1)
        } else {
            metrics.incomplete_scans_total
        },
    }
}

/// Adds a pass to the counters.
pub fn update_metrics(metrics: &mut ReconcileMetrics, report: &AuditReport)
    ensures
        *final(metrics) == (ReconcileMetrics {
            files_scanned_total: wrapped(
                old(metrics).files_scanned_total,
                report@.paths_examined,
            ),
            references_scanned_total: wrapped(
                old(metrics).references_scanned_total,
                report@.references_examined,
            ),
            missing_references_total: wrapped(
                old(metrics).missing_references_total,
                missing_total(report@),
            ),
            safe_orphan_bytes_total: wrapped(
                old(metrics).safe_orphan_bytes_total,
                report::tally_get(
                    report@.bytes_by_classification,
                    AuditClassification::SafeOrphanCandidate.rank_spec(),
                ),
            ),
            ambiguous_files_total: wrapped(
                old(metrics).ambiguous_files_total,
                report@.count(AuditClassification::AmbiguousOrphan),
            ),
            repairs_total: wrapped(old(metrics).repairs_total, completed_repairs(report@)),
            repair_conflicts_total: wrapped(
                old(metrics).repair_conflicts_total,
                report@.repairs.revalidation_conflicts,
            ),
            incomplete_scans_total: if report@.incomplete {
                wrapped(old(metrics).incomplete_scans_total, 1)
            } else {
                old(metrics).incomplete_scans_total
            },
        }),
        *final(metrics) == metered(*old(metrics), report@),
{
    metrics.files_scanned_total = wrapping(metrics.files_scanned_total, report.paths_examined);
    metrics.references_scanned_total =
    wrapping(metrics.references_scanned_total, report.references_examined);
    metrics.missing_references_total =
    wrapping(metrics.missing_references_total, sum_missing(report));
    metrics.safe_orphan_bytes_total =
    wrapping(
        metrics.safe_orphan_bytes_total,
        report.bytes(AuditClassification::SafeOrphanCandidate),
    );
    metrics.ambiguous_files_total =
    wrapping(
        metrics.ambiguous_files_total,
        report.count(AuditClassification::AmbiguousOrphan),
    );
    metrics.repairs_total = wrapping(metrics.repairs_total, report.repairs.completed());
    metrics.repair_conflicts_total =
    wrapping(metrics.repair_conflicts_total, report.repairs.revalidation_conflicts);
    if report.incomplete {
        metrics.incomplete_scans_total = wrapping(metrics.incomplete_scans_total, 1);
    }
}

/// What is logged of a completed pass.
#[derive(Debug, Clone, Copy, PartialEq, Eq, Structural)]
pub struct CompletionSummary {
    pub safe_orphans: u64,
    pub ambiguous: u64,
    pub missing: u64,
    pub unsafe_entries: u64,
    pub safe_orphan_bytes: u64,
    pub duration_seconds: i64,
}

/// The difference of two times, held within 64 bits.
pub open spec fn time_between(from: i64, to: i64) -> i64 {
    if to - from > i64::MAX {
        i64::MAX
    } else if to - from < i64::MIN {
        i64::MIN
    } else {
        (to - from) as i64
    }
}

/// The difference of two times, held within 64 bits.
pub fn seconds_between(from: i64, to: i64) -> (r: i64)
    ensures
        r == time_between(from, to),
{
    let d: i128 = (to as i128) - (from as i128);
    if d > 0x7fff_ffff_ffff_ffff {
        i64::MAX
    } else if d < -0x8000_0000_0000_0000 {
        i64::MIN
    } else {
        d as i64
    }
}

/// What is logged of a completed pass.
pub fn log_completion(report: &AuditReport) -> (r: CompletionSummary)
    ensures
        r == (CompletionSummary {
            safe_orphans: report@.count(AuditClassification::SafeOrphanCandidate),
            ambiguous: report@.count(AuditClassification::AmbiguousOrphan),
            missing: missing_total(report@),
            unsafe_entries: unsafe_total(report@),
            safe_orphan_bytes: report::tally_get(
                report@.bytes_by_classification,
                AuditClassification::SafeOrphanCandidate.rank_spec(),
            ),
            duration_seconds: time_between(report@.started_at, report@.completed_at),
        }),
{
    CompletionSummary {
        safe_orphans: report.count(AuditClassification::SafeOrphanCandidate),
        ambiguous: report.count(AuditClassification::AmbiguousOrphan),
        missing: sum_missing(report),
        unsafe_entries: sum_unsafe(report),
        safe_orphan_bytes: report.bytes(AuditClassification::SafeOrphanCandidate),
        duration_seconds: seconds_between(report.started_at, report.completed_at),
    }
}

/// Each counter goes up by what the pass found of its kind: the files and references that
/// were examined, the live references without their file, the bytes of proven orphans, the
/// unproven ones, the repairs that took effect and those that were given up, and the passes
/// that left something unexamined.
pub proof fn law_counters_add_up(metrics: ReconcileMetrics, r: ReportView)
    requires
        metrics.files_scanned_total + r.paths_examined <= u64::MAX,
        metrics.references_scanned_total + r.references_examined <= u64::MAX,
        metrics.missing_references_total + missing_sum(r) <= u64::MAX,
        metrics.safe_orphan_bytes_total + report::tally_get(r.bytes_by_classification, 11)
            <= u64::MAX,
        metrics.ambiguous_files_total + r.count(AuditClassification::AmbiguousOrphan) <= u64::MAX,
        metrics.repairs_total + r.repairs.files_scheduled + r.repairs.stale_hash_rows_removed
            + r.repairs.obsolete_jobs_removed + r.repairs.completed_intents_removed <= u64::MAX,
        metrics.repair_conflicts_total + r.repairs.revalidation_conflicts <= u64::MAX,
        metrics.incomplete_scans_total < u64::MAX,
    ensures
        ({
            let after = metered(metrics, r);
            &&& after.files_scanned_total == metrics.files_scanned_total + r.paths_examined
            &&& after.references_scanned_total == metrics.references_scanned_total
                + r.references_examined
            &&& after.missing_references_total == metrics.missing_references_total + missing_sum(r)
            &&& after.safe_orphan_bytes_total == metrics.safe_orphan_bytes_total
                + report::tally_get(r.bytes_by_classification, 11)
            &&& after.ambiguous_files_total == metrics.ambiguous_files_total + r.count(
                AuditClassification::AmbiguousOrphan,
            )
            &&& after.repairs_total == metrics.repairs_total + r.repairs.files_scheduled
                + r.repairs.stale_hash_rows_removed + r.repairs.obsolete_jobs_removed
                + r.repairs.completed_intents_removed
            &&& after.repair_conflicts_total == metrics.repair_conflicts_total
                + r.repairs.revalidation_conflicts
            &&& after.incomplete_scans_total == metrics.incomplete_scans_total + if r.incomplete {
                1int
            } else {
                0
            }
        }),
{
}

/// The live references without their file, of every kind.
pub open spec fn missing_sum(r: ReportView) -> int {
    r.count(AuditClassification::MissingPrimary) + r.count(AuditClassification::MissingThumbnail)
        + r.count(AuditClassification::MissingWaveform) + r.count(
        AuditClassification::MissingDeterministicOutput,
    ) + r.count(AuditClassification::UnrecoverableActiveReference)
}

/// A pass may repair exactly where the database stayed as it was and neither the snapshot
/// nor the walk left anything out or in doubt.
pub proof fn law_passes_repair_exactly_when_nothing_is_in_doubt(
    m: ModelView,
    r: ReportView,
    final_version: i64,
    limit: usize,
)
    ensures
        ({
            let noted = stability_noted(m, r, final_version, limit);
            &&& repair_safe(m, noted) <==> final_version == m.data_version && !r.incomplete
                && !m.incomplete && !m.global_ambiguity
            &&& noted.transactionally_stable <==> final_version == m.data_version
            &&& noted.incomplete <==> r.incomplete || final_version != m.data_version
            &&& noted.counts == r.counts && noted.repairs == r.repairs
        }),
{
}

/// A pass opens with the rows that were read, and incomplete exactly where some were left
/// out.
pub proof fn law_passes_open_with_the_rows_read(
    scan_id: Seq<char>,
    started_at: i64,
    m: ModelView,
    limit: usize,
)
    ensures
        ({
            let r = opened(scan_id, started_at, m, limit);
            &&& r.scan_id == scan_id && r.started_at == started_at
            &&& r.references_examined == m.database_rows_scanned
            &&& r.paths_examined == 0 && r.boards_examined == 0
            &&& r.incomplete <==> m.incomplete
            &&& r.examples.len() == 0
            &&& r.counts.dom() =~= Set::empty()
            &&& !r.transactionally_stable
        }),
{
}

/// A completed pass is told with what it found: everything that is missing, everything
/// that is not safe to touch, and how long it took.
pub proof fn law_summaries_add_up(r: ReportView)
    ensures
        ({
            let sum = r.count(AuditClassification::UnsafeSymlink) + r.count(
                AuditClassification::UnsafeHardLink,
            ) + r.count(AuditClassification::UnexpectedDirectory) + r.count(
                AuditClassification::UnsafeSpecialEntry,
            ) + r.count(AuditClassification::UnsafePath) + r.count(
                AuditClassification::CrossBoardPath,
            );
            &&& sum <= u64::MAX ==> unsafe_total(r) == sum
            &&& sum > u64::MAX ==> unsafe_total(r) == u64::MAX
        }),
        i64::MIN <= r.completed_at - r.started_at <= i64::MAX ==> time_between(
            r.started_at,
            r.completed_at,
        ) == r.completed_at - r.started_at,
        r.completed_at >= r.started_at ==> time_between(r.started_at, r.completed_at) >= 0,
        r.completed_at < r.started_at ==> time_between(r.started_at, r.completed_at) < 0,
{
}

/// A pass says why it is incomplete: that not all rows were read, or that the database
/// changed while the files were looked at.
pub proof fn law_incomplete_passes_say_why(
    scan_id: Seq<char>,
    started_at: i64,
    m: ModelView,
    r: ReportView,
    final_version: i64,
    limit: usize,
)
    ensures
        ({
            let start = opened(scan_id, started_at, m, limit);
            let end = stability_noted(m, r, final_version, limit);
            let last = r.errors.len() as int;
            &&& m.incomplete && limit > 0 ==> start.errors.len() == 1 && start.errors[0]
                == "authoritative database reference snapshot exceeded its configured row limit"@
            &&& !m.incomplete ==> start.errors.len() == 0 && !start.incomplete
            &&& final_version != m.data_version && last < limit ==> end.errors.len() == last + 1
                && end.errors[last] == "database generation changed during filesystem enumeration"@
            &&& final_version == m.data_version ==> end.errors == r.errors
        }),
{
}

} // verus!
