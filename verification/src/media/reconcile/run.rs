//! One whole reconciliation pass, given what was seen of the files and the database.

use vstd::prelude::*;
use vstd::string::*;
use crate::text;
use super::audit;
use super::audit::{
    audit_references, AuditState, DeletionObservation, DeletionView, HashBudget, ObservationView,
    ReferenceObservation,
};
use super::inventory;
use super::inventory::{EntryView, InventoryPage, PageView};
use super::model::{FindingView, IntentCandidateView, ModelView, ReferenceModel};
use super::orphans;
use super::orphans::{audit_inventory, EntryObservation, EntrySeen, OrphanCandidate, OrphanView};
use super::pass;
use super::pass::{conclude_scan, inventory_unavailable, open_pass, repairs_enabled};
use super::repairs;
use super::repairs::{apply_repairs, plan_repairs, RepairAttempt, RepairTarget};
use super::report;
use super::report::{AuditReport, ReconcileLimits, ReconcileMode, RepairSummary, ReportView};

verus! {

/// What a pass has found, and what it is going to repair.
#[derive(Debug)]
pub struct Examination {
    /// What is known of the references.
    pub model: ReferenceModel,
    /// The report so far.
    pub report: AuditReport,
    /// The files that nothing claims.
    pub orphans: Vec<OrphanCandidate>,
    /// Whether what was found may be repaired.
    pub repair_safe: bool,
    /// The repairs to attempt, in this order.
    pub plan: Vec<RepairTarget>,
}

/// The model of what a pass has found.
#[verifier::ext_equal]
pub struct ExaminationView {
    /// What is known of the references.
    pub model: ModelView,
    /// The report so far.
    pub report: ReportView,
    /// The files that nothing claims.
    pub orphans: Seq<OrphanView>,
    /// Whether what was found may be repaired.
    pub repair_safe: bool,
    /// The repairs to attempt, in this order.
    pub plan: Seq<RepairTarget>,
}

impl View for Examination {
    type V = ExaminationView;

    open spec fn view(&self) -> ExaminationView {
        ExaminationView {
            model: self.model@,
            report: self.report@,
            orphans: text::views(self.orphans@),
            repair_safe: self.repair_safe,
            plan: self.plan@,
        }
    }
}

/// The model of a page that was filled, or of the reason why none was.
pub open spec fn page_view(page: Result<InventoryPage, String>) -> Result<PageView, Seq<char>> {
    match page {
        Ok(p) => Ok(p@),
        Err(e) => Err(e@),
    }
}

/// The page that is audited.
pub open spec fn audited_page(page: Result<PageView, Seq<char>>) -> PageView {
    match page {
        Ok(p) => p,
        Err(_) => inventory::empty_page(),
    }
}

/// The state after every reference has been audited.
pub open spec fn references_seen(
    scan_id: Seq<char>,
    started_at: i64,
    m: ModelView,
    limits: ReconcileLimits,
    seen: Seq<ObservationView>,
    deletions: Seq<Option<DeletionView>>,
) -> AuditState {
    audit::references_audited(
        AuditState {
            model: m,
            report: pass::opened(scan_id, started_at, m, limits.examples_per_pass),
            remaining: limits.hash_bytes_per_pass,
        },
        seen,
        deletions,
        limits.examples_per_pass,
    )
}

/// The state after every file of the page has been audited.
pub open spec fn files_seen(
    s: AuditState,
    limits: ReconcileLimits,
    page: Result<PageView, Seq<char>>,
    entries: Seq<EntrySeen>,
) -> orphans::OrphanState {
    let report = match page {
        Ok(_) => s.report,
        Err(e) => s.report.with_error(
            "managed filesystem inventory could not start: "@ + e,
            limits.examples_per_pass,
        ),
    };
    orphans::inventory_audited(
        s.model,
        report,
        s.remaining,
        audited_page(page),
        entries,
        limits.examples_per_pass,
    )
}

/// What a pass finds in what was seen: of each reference, of each deletion, of the
/// files of a page, and of the version of the database afterwards. Each limit counts
/// within its supported range.
pub open spec fn examined(
    scan_id: Seq<char>,
    started_at: i64,
    m: ModelView,
    mode: ReconcileMode,
    given: ReconcileLimits,
    seen: Seq<ObservationView>,
    deletions: Seq<Option<DeletionView>>,
    page: Result<PageView, Seq<char>>,
    entries: Seq<EntrySeen>,
    final_version: i64,
) -> ExaminationView {
    let limits = given.within();
    let refs = references_seen(scan_id, started_at, m, limits, seen, deletions);
    let files = files_seen(refs, limits, page, entries);
    let noted = pass::stability_noted(
        refs.model,
        files.report,
        final_version,
        limits.examples_per_pass,
    );
    let safe = pass::repair_safe(refs.model, noted);
    ExaminationView {
        model: refs.model,
        report: orphans::with_orphans(noted, files.orphans, safe, limits.examples_per_pass),
        orphans: files.orphans,
        repair_safe: safe,
        plan: if mode is Repair && safe {
            repairs::at_most(
                repairs::repairable(refs.model, files.orphans),
                limits.repairs_per_pass,
            )
        } else {
            Seq::empty()
        },
    }
}

/// Audits the references and one page of files, and plans the repairs that are proven,
/// where the mode asks for them and the pass is safe.
pub fn reconcile_managed_media(
    scan_id: String,
    started_at: i64,
    model: ReferenceModel,
    mode: ReconcileMode,
    limits: &ReconcileLimits,
    seen: &Vec<ReferenceObservation>,
    deletions: &Vec<Option<DeletionObservation>>,
    page: Result<InventoryPage, String>,
    entries: &Vec<EntryObservation>,
    final_data_version: i64,
) -> (r: Examination)
    requires
        seen@.len() == model@.records.len(),
        deletions@.len() == model@.intent_candidates.len(),
        entries@.len() == audited_page(page_view(page)).entries.len(),
    ensures
        r@ == examined(
            scan_id@,
            started_at,
            model@,
            mode,
            *limits,
            text::views(seen@),
            audit::deletion_views(deletions@),
            page_view(page),
            text::views(entries@),
            final_data_version,
        ),
{
    let given: ReconcileLimits = *limits;
    let limits: ReconcileLimits = given.bounded();
    let mut m = model;
    let mut report = open_pass(scan_id, started_at, &m, &limits);
    let mut budget = HashBudget::new(limits.hash_bytes_per_pass);
    audit_references(
        &mut m,
        seen,
        deletions,
        &mut report,
        &mut budget,
        limits.examples_per_pass,
    );
    let inventory = match page {
        Ok(filled) => filled,
        Err(e) => {
            inventory_unavailable(&mut report, e.as_str(), limits.examples_per_pass);
            InventoryPage::default()
        },
    };
    let found = audit_inventory(
        &m,
        &inventory,
        entries,
        &mut report,
        &mut budget,
        limits.examples_per_pass,
    );
    let repair_safe = conclude_scan(
        &m,
        &mut report,
        final_data_version,
        &found,
        limits.examples_per_pass,
    );
    let plan = if repairs_enabled(mode, repair_safe) {
        plan_repairs(&m, &found, limits.repairs_per_pass)
    } else {
        Vec::new()
    };
    let r = Examination { model: m, report, orphans: found, repair_safe, plan };
    assert(r@ == examined(
        scan_id@,
        started_at,
        model@,
        mode,
        given,
        text::views(seen@),
        audit::deletion_views(deletions@),
        page_view(page),
        text::views(entries@),
        final_data_version,
    ));
    r
}

/// The report of a pass whose repairs came to the given results.
pub open spec fn finished(
    e: ExaminationView,
    results: Seq<RepairAttempt>,
    completed_at: i64,
) -> ReportView {
    ReportView {
        repairs: repairs::with_repairs(
            e.report.repairs,
            e.orphans,
            e.plan,
            results,
            e.plan.len(),
        ),
        completed_at,
        ..e.report
    }
}

/// Closes the report of a pass once its repairs have been attempted.
pub fn finish_pass(examination: Examination, results: &Vec<RepairAttempt>, completed_at: i64) -> (r:
    AuditReport)
    requires
        results@.len() == examination@.plan.len(),
    ensures
        r@ == finished(examination@, results@, completed_at),
{
    let mut report = examination.report;
    apply_repairs(&examination.orphans, &examination.plan, results, &mut report);
    report.completed_at = completed_at;
    report
}

/// A pass that only audits, or that is not safe, plans no repair.
pub proof fn law_audits_change_nothing(
    scan_id: Seq<char>,
    started_at: i64,
    m: ModelView,
    mode: ReconcileMode,
    limits: ReconcileLimits,
    seen: Seq<ObservationView>,
    deletions: Seq<Option<DeletionView>>,
    page: Result<PageView, Seq<char>>,
    entries: Seq<EntrySeen>,
    final_version: i64,
)
    ensures
        ({
            let e = examined(
                scan_id,
                started_at,
                m,
                mode,
                limits,
                seen,
                deletions,
                page,
                entries,
                final_version,
            );
            &&& mode is Audit ==> e.plan.len() == 0
            &&& !e.repair_safe ==> e.plan.len() == 0
            &&& e.plan.len() <= limits.within().repairs_per_pass
        }),
{
}

/// A pass plans to delete only files that nothing claims: every orphan that it found is
/// unclaimed.
pub proof fn law_found_orphans_are_unclaimed(
    scan_id: Seq<char>,
    started_at: i64,
    m: ModelView,
    mode: ReconcileMode,
    limits: ReconcileLimits,
    seen: Seq<ObservationView>,
    deletions: Seq<Option<DeletionView>>,
    page: Result<PageView, Seq<char>>,
    entries: Seq<EntrySeen>,
    final_version: i64,
)
    ensures
        ({
            let e = examined(
                scan_id,
                started_at,
                m,
                mode,
                limits,
                seen,
                deletions,
                page,
                entries,
                final_version,
            );
            forall|i: int|
                0 <= i < e.orphans.len() ==> orphans::unclaimed(e.model, #[trigger] e.orphans[i])
        }),
{
    let limits = limits.within();
    let refs = references_seen(scan_id, started_at, m, limits, seen, deletions);
    let report = match page {
        Ok(_) => refs.report,
        Err(e) => refs.report.with_error(
            "managed filesystem inventory could not start: "@ + e,
            limits.examples_per_pass,
        ),
    };
    let p = audited_page(page);
    let start = orphans::OrphanState {
        report: orphans::with_page(report, p, limits.examples_per_pass),
        remaining: refs.remaining,
        orphans: Seq::empty(),
    };
    orphans::law_orphans_are_unclaimed(
        refs.model,
        start,
        p.entries,
        entries,
        p.entries.len(),
        limits.examples_per_pass,
    );
}

/// A walk that could not start makes the pass incomplete, and so unsafe to repair.
pub proof fn law_failed_walks_are_incomplete(
    s: AuditState,
    limits: ReconcileLimits,
    error: Seq<char>,
    final_version: i64,
)
    ensures
        ({
            let files = files_seen(s, limits, Err(error), Seq::empty());
            &&& files.report.incomplete
            &&& files.orphans.len() == 0
            &&& !pass::repair_safe(
                s.model,
                pass::stability_noted(s.model, files.report, final_version, limits.examples_per_pass),
            )
        }),
{
    assert(inventory::empty_page().errors.len() == 0);
    assert(inventory::empty_page().entries.len() == 0);
}

/// How many repairs were attempted.
pub open spec fn attempts(s: RepairSummary) -> int {
    s.files_scheduled + s.stale_hash_rows_removed + s.obsolete_jobs_removed
        + s.completed_intents_removed + s.revalidation_conflicts + s.failures
}

proof fn lemma_attempts(
    s: RepairSummary,
    orphans: Seq<OrphanView>,
    plan: Seq<RepairTarget>,
    results: Seq<RepairAttempt>,
    n: nat,
)
    ensures
        attempts(repairs::with_repairs(s, orphans, plan, results, n)) <= attempts(s) + n,
        attempts(s) + n <= u64::MAX ==> attempts(
            repairs::with_repairs(s, orphans, plan, results, n),
        ) == attempts(s) + n,
    decreases n,
{
    if n > 0 {
        lemma_attempts(s, orphans, plan, results, (n - 1) as nat);
    }
}

/// Whether two reports tell the same of repairs, and of which pass they are.
spec fn same_repairs(a: ReportView, b: ReportView) -> bool {
    a.repairs == b.repairs && a.scan_id == b.scan_id && a.started_at == b.started_at
}

proof fn lemma_findings(r: ReportView, findings: Seq<FindingView>, limit: usize)
    ensures
        same_repairs(audit::with_findings(r, findings, limit), r),
    decreases findings.len(),
{
    if findings.len() > 0 {
        lemma_findings(r, findings.drop_last(), limit);
    }
}

proof fn lemma_references(s: AuditState, seen: Seq<ObservationView>, n: nat, limit: usize)
    ensures
        same_repairs(audit::with_references(s, seen, n, limit).report, s.report),
    decreases n,
{
    if n > 0 {
        lemma_references(s, seen, (n - 1) as nat, limit);
    }
}

proof fn lemma_completed(
    r: ReportView,
    candidates: Seq<IntentCandidateView>,
    seen: Seq<Option<DeletionView>>,
    n: nat,
    limit: usize,
)
    ensures
        same_repairs(audit::with_all_completed(r, candidates, seen, n, limit), r),
    decreases n,
{
    if n > 0 {
        lemma_completed(r, candidates, seen, (n - 1) as nat, limit);
    }
}

proof fn lemma_page_errors(r: ReportView, errors: Seq<Seq<char>>, limit: usize)
    ensures
        same_repairs(orphans::with_page_errors(r, errors, limit), r),
    decreases errors.len(),
{
    if errors.len() > 0 {
        lemma_page_errors(r, errors.drop_last(), limit);
    }
}

proof fn lemma_entries(
    m: ModelView,
    s: orphans::OrphanState,
    entries: Seq<EntryView>,
    seen: Seq<EntrySeen>,
    n: nat,
    limit: usize,
)
    ensures
        same_repairs(
            orphans::with_audited_entries(m, s, entries, seen, n, limit).report,
            s.report,
        ),
    decreases n,
{
    if n > 0 {
        lemma_entries(m, s, entries, seen, (n - 1) as nat, limit);
    }
}

proof fn lemma_orphans(r: ReportView, orphans: Seq<OrphanView>, stable: bool, limit: usize)
    ensures
        same_repairs(orphans::with_orphans(r, orphans, stable, limit), r),
        orphans::with_orphans(r, orphans, stable, limit).transactionally_stable
            == r.transactionally_stable,
        orphans::with_orphans(r, orphans, stable, limit).incomplete == r.incomplete,
    decreases orphans.len(),
{
    if orphans.len() > 0 {
        lemma_orphans(r, orphans.drop_last(), stable, limit);
    }
}

/// All repairs of a pass share one budget, which is never more than its supported
/// range allows; and where anything was attempted, the database had not changed and
/// nothing was left unread.
pub proof fn law_repairs_share_one_budget(
    scan_id: Seq<char>,
    started_at: i64,
    m: ModelView,
    mode: ReconcileMode,
    limits: ReconcileLimits,
    seen: Seq<ObservationView>,
    deletions: Seq<Option<DeletionView>>,
    page: Result<PageView, Seq<char>>,
    entries: Seq<EntrySeen>,
    final_version: i64,
    results: Seq<RepairAttempt>,
    completed_at: i64,
)
    ensures
        ({
            let e = examined(
                scan_id,
                started_at,
                m,
                mode,
                limits,
                seen,
                deletions,
                page,
                entries,
                final_version,
            );
            let r = finished(e, results, completed_at);
            &&& e.plan == if mode is Repair && e.repair_safe {
                repairs::at_most(
                    repairs::repairable(e.model, e.orphans),
                    limits.within().repairs_per_pass,
                )
            } else {
                Seq::empty()
            }
            &&& attempts(r.repairs) <= limits.within().repairs_per_pass <= 1_000
            &&& attempts(r.repairs) > 0 ==> mode is Repair && r.transactionally_stable
                && !r.incomplete
            &&& attempts(r.repairs) == e.plan.len()
            &&& e.plan.len() <= repairs::repairable(e.model, e.orphans).len()
            &&& mode is Repair && e.repair_safe && e.plan.len() < repairs::repairable(
                e.model,
                e.orphans,
            ).len() ==> e.plan.len() == limits.within().repairs_per_pass
            &&& forall|i: int|
                0 <= i < e.plan.len() ==> #[trigger] e.plan[i] == repairs::repairable(
                    e.model,
                    e.orphans,
                )[i]
        }),
{
    let e = examined(
        scan_id,
        started_at,
        m,
        mode,
        limits,
        seen,
        deletions,
        page,
        entries,
        final_version,
    );
    let limits = limits.within();
    let limit = limits.examples_per_pass;
    let start = pass::opened(scan_id, started_at, m, limit);
    let shown = AuditState {
        model: m,
        report: audit::with_findings(start, m.findings, limit),
        remaining: limits.hash_bytes_per_pass,
    };
    let after = audit::with_references(shown, seen, m.records.len(), limit);
    lemma_findings(start, m.findings, limit);
    lemma_references(shown, seen, m.records.len(), limit);
    lemma_completed(after.report, m.intent_candidates, deletions, m.intent_candidates.len(), limit);
    let refs = references_seen(scan_id, started_at, m, limits, seen, deletions);
    assert(same_repairs(refs.report, start));
    let opened = match page {
        Ok(_) => refs.report,
        Err(error) => refs.report.with_error(
            "managed filesystem inventory could not start: "@ + error,
            limit,
        ),
    };
    let p = audited_page(page);
    lemma_page_errors(
        ReportView { boards_examined: p.boards_examined, ..opened },
        p.errors,
        limit,
    );
    let begun = orphans::OrphanState {
        report: orphans::with_page(opened, p, limit),
        remaining: refs.remaining,
        orphans: Seq::empty(),
    };
    lemma_entries(refs.model, begun, p.entries, entries, p.entries.len(), limit);
    let files = files_seen(refs, limits, page, entries);
    assert(same_repairs(files.report, start));
    let noted = pass::stability_noted(refs.model, files.report, final_version, limit);
    lemma_orphans(noted, files.orphans, pass::repair_safe(refs.model, noted), limit);
    assert(e.report.repairs == report::no_repairs());
    lemma_attempts(e.report.repairs, e.orphans, e.plan, results, e.plan.len());
}

proof fn lemma_references_keep_doubts(
    s: AuditState,
    seen: Seq<ObservationView>,
    n: nat,
    limit: usize,
)
    ensures
        ({
            let after = audit::with_references(s, seen, n, limit).model;
            &&& after.data_version == s.model.data_version
            &&& after.incomplete == s.model.incomplete
        }),
    decreases n,
{
    if n > 0 {
        lemma_references_keep_doubts(s, seen, (n - 1) as nat, limit);
    }
}

/// The report of a pass is the report of that pass: it bears its name, tells when it began
/// and ended, and says that it was stable exactly when the database is as it was read.
pub proof fn law_reports_are_of_their_pass(
    scan_id: Seq<char>,
    started_at: i64,
    m: ModelView,
    mode: ReconcileMode,
    limits: ReconcileLimits,
    seen: Seq<ObservationView>,
    deletions: Seq<Option<DeletionView>>,
    page: Result<PageView, Seq<char>>,
    entries: Seq<EntrySeen>,
    final_version: i64,
    results: Seq<RepairAttempt>,
    completed_at: i64,
)
    ensures
        ({
            let e = examined(
                scan_id,
                started_at,
                m,
                mode,
                limits,
                seen,
                deletions,
                page,
                entries,
                final_version,
            );
            let r = finished(e, results, completed_at);
            &&& r.scan_id == scan_id
            &&& r.started_at == started_at
            &&& r.completed_at == completed_at
            &&& r.transactionally_stable <==> final_version == m.data_version
            &&& final_version != m.data_version ==> r.incomplete
            &&& e.repair_safe ==> final_version == m.data_version && !m.incomplete
            &&& r.counts == e.report.counts && r.categories == e.report.categories
            &&& r.bytes_by_classification == e.report.bytes_by_classification
            &&& r.examples == e.report.examples && r.errors == e.report.errors
            &&& r.boards_examined == e.report.boards_examined
            &&& r.paths_examined == e.report.paths_examined
            &&& r.references_examined == e.report.references_examined
            &&& r.incomplete == e.report.incomplete && r.next_cursor == e.report.next_cursor
        }),
{
    let limits = limits.within();
    let limit = limits.examples_per_pass;
    let start = pass::opened(scan_id, started_at, m, limit);
    let shown = AuditState {
        model: m,
        report: audit::with_findings(start, m.findings, limit),
        remaining: limits.hash_bytes_per_pass,
    };
    let after = audit::with_references(shown, seen, m.records.len(), limit);
    lemma_findings(start, m.findings, limit);
    lemma_references(shown, seen, m.records.len(), limit);
    lemma_references_keep_doubts(shown, seen, m.records.len(), limit);
    lemma_completed(after.report, m.intent_candidates, deletions, m.intent_candidates.len(), limit);
    let refs = references_seen(scan_id, started_at, m, limits, seen, deletions);
    let opened = match page {
        Ok(_) => refs.report,
        Err(error) => refs.report.with_error(
            "managed filesystem inventory could not start: "@ + error,
            limit,
        ),
    };
    let p = audited_page(page);
    lemma_page_errors(
        ReportView { boards_examined: p.boards_examined, ..opened },
        p.errors,
        limit,
    );
    let begun = orphans::OrphanState {
        report: orphans::with_page(opened, p, limit),
        remaining: refs.remaining,
        orphans: Seq::empty(),
    };
    lemma_entries(refs.model, begun, p.entries, entries, p.entries.len(), limit);
    let files = files_seen(refs, limits, page, entries);
    assert(same_repairs(files.report, start));
    let noted = pass::stability_noted(refs.model, files.report, final_version, limit);
    lemma_orphans(noted, files.orphans, pass::repair_safe(refs.model, noted), limit);
}

} // verus!
