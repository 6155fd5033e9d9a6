//! Which repairs a pass attempts, and what each must find before it takes
//! effect.
//!
//! A repair re-reads inside one transaction what the audit saw. Every check is
//! optional: it has no value where reading it failed.

use vstd::prelude::*;
use vstd::string::*;
use crate::text;
use crate::text::{opt_eq, str_eq};
use super::audit;
use super::audit::DeletionObservation;
use super::intents;
use super::intents::{intent_claims_path, IntentBody, IntentView};
use super::jobs;
use super::jobs::{parse_job, JobView, ParsedJob};
use super::model::{
    HashCandidateView, HashRepairCandidate, IntentCandidateView, IntentRepairCandidate,
    JobCandidateView, JobRepairCandidate, ModelView, ReferenceModel,
};
use super::orphans::{FileIdentity, OrphanCandidate, OrphanView};
use super::report;
use super::report::{AuditClassification, AuditReport, RepairSummary, ReportView};

verus! {

/// What came of a repair.
#[derive(Debug, Clone, Copy, PartialEq, Eq, Structural)]
pub enum RepairAttempt {
    /// The repair took effect.
    Applied,
    /// The state had changed; nothing was repaired.
    Conflict,
    /// The repair failed.
    Failed,
}

/// A repair that a pass attempts, by its position among the candidates.
#[derive(Debug, Clone, Copy, PartialEq, Eq, Structural)]
pub enum RepairTarget {
    /// Remove a completed intent.
    Intent(usize),
    /// Remove an obsolete job.
    Job(usize),
    /// Remove a stale digest row.
    Hash(usize),
    /// Schedule an orphan's deletion.
    Orphan(usize),
}

/// Counts an attempt, unless the limit has been reached.
pub fn reserve_repair_attempt(attempted: &mut usize, limit: usize) -> (r: bool)
    ensures
        r == (*old(attempted) < limit),
        *final(attempted) == (if r {
            (*old(attempted) + 1) as usize
        } else {
            *old(attempted)
        }),
{
    if *attempted >= limit {
        return false;
    }
    *attempted = *attempted + 1;
    true
}

/// Whether the digest row was found to be stale.
pub open spec fn is_stale(class: AuditClassification) -> bool {
    class is StaleHashMissingFile || class is StaleHashUnreferenced
}

/// The first `n` intents as repairs.
pub open spec fn intent_targets(n: nat) -> Seq<RepairTarget> {
    Seq::new(n, |i: int| RepairTarget::Intent(i as usize))
}

/// The first `n` jobs as repairs.
pub open spec fn job_targets(n: nat) -> Seq<RepairTarget> {
    Seq::new(n, |i: int| RepairTarget::Job(i as usize))
}

/// The stale digest rows as repairs.
pub open spec fn hash_targets(candidates: Seq<HashCandidateView>) -> Seq<RepairTarget>
    decreases candidates.len(),
{
    if candidates.len() == 0 {
        Seq::empty()
    } else {
        let before = hash_targets(candidates.drop_last());
        if is_stale(candidates.last().classification) {
            before.push(RepairTarget::Hash((candidates.len() - 1) as usize))
        } else {
            before
        }
    }
}

/// The orphans whose digest was read as repairs.
pub open spec fn orphan_targets(orphans: Seq<OrphanView>) -> Seq<RepairTarget>
    decreases orphans.len(),
{
    if orphans.len() == 0 {
        Seq::empty()
    } else {
        let before = orphan_targets(orphans.drop_last());
        if orphans.last().digest is Some {
            before.push(RepairTarget::Orphan((orphans.len() - 1) as usize))
        } else {
            before
        }
    }
}

/// Everything that could be repaired, in the order in which it is attempted.
pub open spec fn repairable(m: ModelView, orphans: Seq<OrphanView>) -> Seq<RepairTarget> {
    intent_targets(m.intent_candidates.len()) + job_targets(m.job_candidates.len()) + hash_targets(
        m.hash_candidates,
    ) + orphan_targets(orphans)
}

/// The beginning of a sequence, no longer than the limit.
pub open spec fn at_most(targets: Seq<RepairTarget>, limit: usize) -> Seq<RepairTarget> {
    if targets.len() > limit {
        targets.take(limit as int)
    } else {
        targets
    }
}

fn offer(plan: &mut Vec<RepairTarget>, attempted: &mut usize, limit: usize, target: RepairTarget, Ghost(
    offered,
): Ghost<Seq<RepairTarget>>)
    requires
        old(plan)@ == at_most(offered, limit),
        *old(attempted) == old(plan)@.len(),
    ensures
        final(plan)@ == at_most(offered.push(target), limit),
        *final(attempted) == final(plan)@.len(),
{
    if reserve_repair_attempt(attempted, limit) {
        plan.push(target);
    }
    assert(plan@ =~= at_most(offered.push(target), limit));
}

/// The repairs that a pass attempts: completed intents, then obsolete jobs, then
/// stale digest rows, then orphans, up to the limit.
pub fn plan_repairs(m: &ReferenceModel, orphans: &Vec<OrphanCandidate>, limit: usize) -> (r: Vec<
    RepairTarget,
>)
    ensures
        r@ == at_most(repairable(m@, text::views(orphans@)), limit),
{
    let mut plan: Vec<RepairTarget> = Vec::new();
    let mut attempted: usize = 0;
    let ghost mut offered: Seq<RepairTarget> = Seq::empty();
    let mut i: usize = 0;
    assert(intent_targets(0) =~= offered);
    assert(plan@ =~= at_most(offered, limit));
    while i < m.intent_candidates.len()
        invariant
            i <= m.intent_candidates@.len(),
            offered == intent_targets(i as nat),
            plan@ == at_most(offered, limit),
            attempted == plan@.len(),
        decreases m.intent_candidates@.len() - i,
    {
        offer(&mut plan, &mut attempted, limit, RepairTarget::Intent(i), Ghost(offered));
        proof {
            offered = offered.push(RepairTarget::Intent(i));
            assert(offered =~= intent_targets((i + 1) as nat));
        }
        i = i + 1;
    }
    let ghost intents = offered;
    i = 0;
    assert(intents + job_targets(0) =~= intents);
    while i < m.job_candidates.len()
        invariant
            i <= m.job_candidates@.len(),
            offered == intents + job_targets(i as nat),
            plan@ == at_most(offered, limit),
            attempted == plan@.len(),
        decreases m.job_candidates@.len() - i,
    {
        offer(&mut plan, &mut attempted, limit, RepairTarget::Job(i), Ghost(offered));
        proof {
            offered = offered.push(RepairTarget::Job(i));
            assert(offered =~= intents + job_targets((i + 1) as nat));
        }
        i = i + 1;
    }
    let ghost jobs = offered;
    let ghost hashes = m@.hash_candidates;
    i = 0;
    assert(hashes.take(0) =~= Seq::<HashCandidateView>::empty());
    assert(jobs + hash_targets(hashes.take(0)) =~= jobs);
    while i < m.hash_candidates.len()
        invariant
            i <= m.hash_candidates@.len(),
            hashes == m@.hash_candidates,
            offered == jobs + hash_targets(hashes.take(i as int)),
            plan@ == at_most(offered, limit),
            attempted == plan@.len(),
        decreases m.hash_candidates@.len() - i,
    {
        assert(hashes.take(i as int + 1).drop_last() =~= hashes.take(i as int));
        assert(hashes.take(i as int + 1).last() == m.hash_candidates@[i as int]@);
        let class = m.hash_candidates[i].classification;
        if class == AuditClassification::StaleHashMissingFile || class
            == AuditClassification::StaleHashUnreferenced {
            offer(&mut plan, &mut attempted, limit, RepairTarget::Hash(i), Ghost(offered));
            proof {
                offered = offered.push(RepairTarget::Hash(i));
            }
        }
        assert(offered =~= jobs + hash_targets(hashes.take(i as int + 1)));
        i = i + 1;
    }
    assert(hashes.take(hashes.len() as int) =~= hashes);
    let ghost rows = offered;
    let ghost files = text::views(orphans@);
    i = 0;
    assert(files.take(0) =~= Seq::<OrphanView>::empty());
    assert(rows + orphan_targets(files.take(0)) =~= rows);
    while i < orphans.len()
        invariant
            i <= orphans@.len(),
            files == text::views(orphans@),
            offered == rows + orphan_targets(files.take(i as int)),
            plan@ == at_most(offered, limit),
            attempted == plan@.len(),
        decreases orphans@.len() - i,
    {
        assert(files.take(i as int + 1).drop_last() =~= files.take(i as int));
        assert(files.take(i as int + 1).last() == orphans@[i as int]@);
        if orphans[i].digest.is_some() {
            offer(&mut plan, &mut attempted, limit, RepairTarget::Orphan(i), Ghost(offered));
            proof {
                offered = offered.push(RepairTarget::Orphan(i));
            }
        }
        assert(offered =~= rows + orphan_targets(files.take(i as int + 1)));
        i = i + 1;
    }
    assert(files.take(files.len() as int) =~= files);
    plan
}

/// No pass attempts more repairs than its limit, and no orphan is deleted whose
/// digest was not read.
pub proof fn law_repairs_are_bounded(m: ModelView, orphans: Seq<OrphanView>, limit: usize)
    ensures
        at_most(repairable(m, orphans), limit).len() <= limit,
        forall|i: int|
            0 <= i < orphan_targets(orphans).len() ==> {
                &&& (#[trigger] orphan_targets(orphans)[i]) is Orphan
                &&& (orphans.len() <= usize::MAX ==> orphan_targets(orphans)[i]->Orphan_0
                    < orphans.len() && orphans[orphan_targets(
                    orphans,
                )[i]->Orphan_0 as int].digest is Some)
            },
    decreases orphans.len(),
{
    if orphans.len() > 0 {
        law_repairs_are_bounded(m, orphans.drop_last(), limit);
        let before = orphan_targets(orphans.drop_last());
        assert forall|i: int| 0 <= i < orphan_targets(orphans).len() implies {
            &&& (#[trigger] orphan_targets(orphans)[i]) is Orphan
            &&& (orphans.len() <= usize::MAX ==> orphan_targets(orphans)[i]->Orphan_0
                < orphans.len() && orphans[orphan_targets(
                orphans,
            )[i]->Orphan_0 as int].digest is Some)
        } by {
            if i < before.len() {
                assert(orphan_targets(orphans)[i] == before[i]);
            }
        }
    }
}

/// The summary after one repair.
pub open spec fn with_repair(
    s: RepairSummary,
    target: RepairTarget,
    bytes: u64,
    result: RepairAttempt,
) -> RepairSummary {
    match result {
        RepairAttempt::Conflict => RepairSummary {
            revalidation_conflicts: report::saturated(s.revalidation_conflicts as int, 1),
            ..s
        },
        RepairAttempt::Failed => RepairSummary {
            failures: report::saturated(s.failures as int, 1),
            ..s
        },
        RepairAttempt::Applied => match target {
            RepairTarget::Intent(_) => RepairSummary {
                completed_intents_removed: report::saturated(s.completed_intents_removed as int, 1),
                ..s
            },
            RepairTarget::Job(_) => RepairSummary {
                obsolete_jobs_removed: report::saturated(s.obsolete_jobs_removed as int, 1),
                ..s
            },
            RepairTarget::Hash(_) => RepairSummary {
                stale_hash_rows_removed: report::saturated(s.stale_hash_rows_removed as int, 1),
                ..s
            },
            RepairTarget::Orphan(_) => RepairSummary {
                files_scheduled: report::saturated(s.files_scheduled as int, 1),
                bytes_scheduled: report::saturated(s.bytes_scheduled as int, bytes as int),
                ..s
            },
        },
    }
}

/// Counts a repair that was given up because the state had changed.
pub fn record_repair_conflict(report: &mut AuditReport)
    ensures
        final(report)@ == (ReportView {
            repairs: RepairSummary {
                revalidation_conflicts: report::saturated(
                    old(report)@.repairs.revalidation_conflicts as int,
                    1,
                ),
                ..old(report)@.repairs
            },
            ..old(report)@
        }),
{
    report.repairs.revalidation_conflicts = report.repairs.revalidation_conflicts.saturating_add(1);
}

/// Counts what came of a repair. `bytes` is the orphan's size.
pub fn record_repair(
    report: &mut AuditReport,
    target: RepairTarget,
    bytes: u64,
    result: RepairAttempt,
)
    ensures
        final(report)@ == (ReportView {
            repairs: with_repair(old(report)@.repairs, target, bytes, result),
            ..old(report)@
        }),
{
    match result {
        RepairAttempt::Conflict => record_repair_conflict(report),
        RepairAttempt::Failed => {
            report.repairs.failures = report.repairs.failures.saturating_add(1);
        },
        RepairAttempt::Applied => match target {
            RepairTarget::Intent(_) => {
                report.repairs.completed_intents_removed =
                report.repairs.completed_intents_removed.saturating_add(1);
            },
            RepairTarget::Job(_) => {
                report.repairs.obsolete_jobs_removed =
                report.repairs.obsolete_jobs_removed.saturating_add(1);
            },
            RepairTarget::Hash(_) => {
                report.repairs.stale_hash_rows_removed =
                report.repairs.stale_hash_rows_removed.saturating_add(1);
            },
            RepairTarget::Orphan(_) => {
                report.repairs.files_scheduled = report.repairs.files_scheduled.saturating_add(1);
                report.repairs.bytes_scheduled = report.repairs.bytes_scheduled.saturating_add(
                    bytes,
                );
            },
        },
    }
}

/// The bytes that a repair schedules for deletion.
pub open spec fn target_bytes(orphans: Seq<OrphanView>, target: RepairTarget) -> u64 {
    match target {
        RepairTarget::Orphan(i) => if i < orphans.len() {
            orphans[i as int].identity.size
        } else {
            0
        },
        _ => 0,
    }
}

/// The summary after the first `n` planned repairs.
pub open spec fn with_repairs(
    s: RepairSummary,
    orphans: Seq<OrphanView>,
    plan: Seq<RepairTarget>,
    results: Seq<RepairAttempt>,
    n: nat,
) -> RepairSummary
    decreases n,
{
    if n == 0 {
        s
    } else {
        with_repair(
            with_repairs(s, orphans, plan, results, (n - 1) as nat),
            plan[n - 1],
            target_bytes(orphans, plan[n - 1]),
            results[n - 1],
        )
    }
}

/// Counts what came of the planned repairs.
pub fn apply_repairs(
    orphans: &Vec<OrphanCandidate>,
    plan: &Vec<RepairTarget>,
    results: &Vec<RepairAttempt>,
    report: &mut AuditReport,
)
    requires
        results@.len() == plan@.len(),
    ensures
        final(report)@ == (ReportView {
            repairs: with_repairs(
                old(report)@.repairs,
                text::views(orphans@),
                plan@,
                results@,
                plan@.len(),
            ),
            ..old(report)@
        }),
{
    let ghost start = report@;
    let ghost files = text::views(orphans@);
    let mut i: usize = 0;
    while i < plan.len()
        invariant
            i <= plan@.len(),
            results@.len() == plan@.len(),
            files == text::views(orphans@),
            report@ == (ReportView {
                repairs: with_repairs(start.repairs, files, plan@, results@, i as nat),
                ..start
            }),
        decreases plan@.len() - i,
    {
        let bytes: u64 = match plan[i] {
            RepairTarget::Orphan(k) => if k < orphans.len() {
                assert(files[k as int] == orphans@[k as int]@);
                orphans[k].identity.size
            } else {
                0
            },
            _ => 0,
        };
        record_repair(report, plan[i], bytes, results[i]);
        i = i + 1;
    }
}

/// What a re-check inside the transaction allows.
#[derive(Debug, Clone, Copy, PartialEq, Eq, Structural)]
pub enum Recheck {
    /// The state is as the audit saw it.
    Proceed,
    /// The state has changed.
    Conflict,
    /// Reading the state failed.
    Failed,
}

/// One check, and what holds once it passes.
pub open spec fn checked(found: Option<bool>, next: Recheck) -> Recheck {
    match found {
        None => Recheck::Failed,
        Some(ok) => if ok {
            next
        } else {
            Recheck::Conflict
        },
    }
}

/// Whether a check that must not hold was read, and was false.
pub open spec fn absent(found: Option<bool>) -> Option<bool> {
    match found {
        Some(b) => Some(!b),
        None => None,
    }
}

/// What was re-read of an orphan before its deletion is scheduled.
#[derive(Debug, Clone)]
pub struct OrphanState {
    /// Whether a row claims the path.
    pub claimed: Option<bool>,
    /// The file at the path, if one is there.
    pub identity: Option<Option<FileIdentity>>,
    /// The digest of that file.
    pub digest: Option<String>,
    /// Whether the board exists.
    pub board_exists: Option<bool>,
}

/// Whether the file read is the one that the audit saw.
pub open spec fn same_identity(
    found: Option<Option<FileIdentity>>,
    expected: FileIdentity,
) -> Option<bool> {
    match found {
        Some(identity) => Some(identity == Some(expected)),
        None => None,
    }
}

/// Whether the digest read is the expected one.
pub open spec fn same_digest(found: Option<Seq<char>>, expected: Seq<char>) -> Option<bool> {
    match found {
        Some(digest) => Some(digest == expected),
        None => None,
    }
}

/// Whether an orphan's deletion may be scheduled: nothing claims it, and it is
/// the file, with the digest, that the audit saw, on a board that exists.
pub open spec fn orphan_allows(
    candidate: OrphanView,
    claimed: Option<bool>,
    identity: Option<Option<FileIdentity>>,
    digest: Option<Seq<char>>,
    board_exists: Option<bool>,
) -> Recheck {
    checked(
        absent(claimed),
        checked(
            same_identity(identity, candidate.identity),
            match candidate.digest {
                None => Recheck::Conflict,
                Some(expected) => checked(
                    same_digest(digest, expected),
                    checked(board_exists, Recheck::Proceed),
                ),
            },
        ),
    )
}

fn check_identity(found: Option<Option<FileIdentity>>, expected: FileIdentity) -> (r: Option<bool>)
    ensures
        r == same_identity(found, expected),
{
    match found {
        Some(Some(identity)) => Some(identity == expected),
        Some(None) => Some(false),
        None => None,
    }
}

/// Whether an orphan's deletion may be scheduled.
pub fn recheck_orphan(candidate: &OrphanCandidate, state: &OrphanState) -> (r: Recheck)
    ensures
        r == orphan_allows(
            candidate@,
            state.claimed,
            state.identity,
            text::opt_view(state.digest),
            state.board_exists,
        ),
{
    match state.claimed {
        None => {
            return Recheck::Failed;
        },
        Some(true) => {
            return Recheck::Conflict;
        },
        Some(false) => {},
    }
    match check_identity(state.identity, candidate.identity) {
        None => {
            return Recheck::Failed;
        },
        Some(false) => {
            return Recheck::Conflict;
        },
        Some(true) => {},
    }
    let expected = match &candidate.digest {
        Some(expected) => expected,
        None => {
            return Recheck::Conflict;
        },
    };
    match &state.digest {
        None => {
            return Recheck::Failed;
        },
        Some(digest) => {
            if !str_eq(digest.as_str(), expected.as_str()) {
                return Recheck::Conflict;
            }
        },
    }
    match state.board_exists {
        None => Recheck::Failed,
        Some(true) => Recheck::Proceed,
        Some(false) => Recheck::Conflict,
    }
}

/// Whether a scheduled deletion stands: no row took the path up meanwhile, and
/// the file is still the same. Where it does not stand, it is withdrawn.
pub open spec fn deletion_stands(
    candidate: OrphanView,
    referenced: Option<bool>,
    identity: Option<Option<FileIdentity>>,
    digest: Option<Seq<char>>,
) -> Recheck {
    match (referenced, identity) {
        (Some(referenced), Some(identity)) => if identity is Some && digest is None {
            Recheck::Failed
        } else if !referenced && identity == Some(candidate.identity) && digest
            == candidate.digest {
            Recheck::Proceed
        } else {
            Recheck::Conflict
        },
        _ => Recheck::Failed,
    }
}

/// Whether a scheduled deletion stands.
pub fn confirm_deletion(
    candidate: &OrphanCandidate,
    referenced: Option<bool>,
    identity: Option<Option<FileIdentity>>,
    digest: Option<&str>,
) -> (r: Recheck)
    ensures
        r == deletion_stands(candidate@, referenced, identity, text::opt_str(digest)),
{
    match (referenced, identity) {
        (Some(referenced), Some(identity)) => {
            if identity.is_some() && digest.is_none() {
                return Recheck::Failed;
            }
            let same = match identity {
                Some(found) => found == candidate.identity,
                None => false,
            };
            if !referenced && same && opt_eq(digest, text::as_deref(&candidate.digest)) {
                Recheck::Proceed
            } else {
                Recheck::Conflict
            }
        },
        _ => Recheck::Failed,
    }
}

/// A digest row as it is now.
#[derive(Debug, Clone)]
pub struct HashRowNow {
    pub file_path: String,
    pub thumb_path: String,
    pub mime_type: String,
}

/// What was re-read of a stale digest row before it is removed.
#[derive(Debug, Clone)]
pub struct HashState {
    /// The row, where it still exists.
    pub row: Option<Option<HashRowNow>>,
    /// Whether a post refers to the file.
    pub file_referenced: Option<bool>,
    /// Whether a post refers to the thumbnail.
    pub thumb_referenced: Option<bool>,
    /// Whether a job or intent claims the file.
    pub file_claimed: Option<bool>,
    /// Whether a job or intent claims the thumbnail.
    pub thumb_claimed: Option<bool>,
}

/// Whether the row is still the one that the audit saw.
pub open spec fn same_hash_row(row: Option<Option<HashRowNow>>, candidate: HashCandidateView) -> Option<bool> {
    match row {
        Some(Some(now)) => Some(
            now.file_path@ == candidate.file_path && now.thumb_path@ == candidate.thumb_path
                && now.mime_type@ == candidate.mime_type,
        ),
        Some(None) => Some(false),
        None => None,
    }
}

/// A check that counts only where the row has a thumbnail.
pub open spec fn for_thumb(candidate: HashCandidateView, found: Option<bool>) -> Option<bool> {
    if candidate.thumb_path.len() == 0 {
        Some(false)
    } else {
        found
    }
}

/// Whether a stale digest row may be removed: it is unchanged, and nothing needs
/// its file or thumbnail.
pub open spec fn hash_allows(candidate: HashCandidateView, state: HashState) -> Recheck {
    checked(
        same_hash_row(state.row, candidate),
        checked(
            absent(state.file_referenced),
            checked(
                absent(for_thumb(candidate, state.thumb_referenced)),
                checked(
                    absent(state.file_claimed),
                    checked(
                        absent(for_thumb(candidate, state.thumb_claimed)),
                        Recheck::Proceed,
                    ),
                ),
            ),
        ),
    )
}

fn must_be_false(found: Option<bool>) -> (r: Recheck)
    ensures
        r == checked(absent(found), Recheck::Proceed),
{
    match found {
        None => Recheck::Failed,
        Some(true) => Recheck::Conflict,
        Some(false) => Recheck::Proceed,
    }
}

/// Whether a stale digest row may be removed.
pub fn recheck_hash(candidate: &HashRepairCandidate, state: &HashState) -> (r: Recheck)
    ensures
        r == hash_allows(candidate@, *state),
{
    match &state.row {
        None => {
            return Recheck::Failed;
        },
        Some(None) => {
            return Recheck::Conflict;
        },
        Some(Some(now)) => {
            if !str_eq(now.file_path.as_str(), candidate.file_path.as_str()) || !str_eq(
                now.thumb_path.as_str(),
                candidate.thumb_path.as_str(),
            ) || !str_eq(now.mime_type.as_str(), candidate.mime_type.as_str()) {
                return Recheck::Conflict;
            }
        },
    }
    let no_thumb = candidate.thumb_path.as_str().is_empty();
    let thumb_referenced = if no_thumb {
        Some(false)
    } else {
        state.thumb_referenced
    };
    let thumb_claimed = if no_thumb {
        Some(false)
    } else {
        state.thumb_claimed
    };
    let first = must_be_false(state.file_referenced);
    if first != Recheck::Proceed {
        return first;
    }
    let second = must_be_false(thumb_referenced);
    if second != Recheck::Proceed {
        return second;
    }
    let third = must_be_false(state.file_claimed);
    if third != Recheck::Proceed {
        return third;
    }
    must_be_false(thumb_claimed)
}

/// A job row as it is now.
#[derive(Debug, Clone)]
pub struct JobRowNow {
    pub job_type: String,
    pub payload: String,
    pub status: String,
}

/// What was re-read of an obsolete job row before it is removed.
#[derive(Debug, Clone)]
pub struct JobState {
    /// The row, where it still exists.
    pub row: Option<Option<JobRowNow>>,
    /// The file of the job's post on the job's board, where there is one.
    pub post_file: Option<Option<String>>,
    /// Whether the job's source is there.
    pub source_present: Option<bool>,
    /// Whether the job's output is there.
    pub output_present: Option<bool>,
}

/// Whether the job row is the one that the audit saw, and has ended.
pub open spec fn same_ended_job(row: Option<Option<JobRowNow>>, candidate: JobCandidateView) -> Option<bool> {
    match row {
        Some(Some(now)) => Some(
            now.job_type@ == candidate.job_type && now.payload@ == candidate.payload && (
            now.status@ == "done"@ || now.status@ == "failed"@),
        ),
        Some(None) => Some(false),
        None => None,
    }
}

/// Whether the post's file is neither of the two.
pub open spec fn file_is_neither(
    file: Option<Option<String>>,
    source: Seq<char>,
    output: Seq<char>,
) -> Option<bool> {
    match file {
        Some(path) => Some(
            text::opt_view(path) != Some(source) && text::opt_view(path) != Some(output),
        ),
        None => None,
    }
}

/// Whether an obsolete job row may be removed: it is unchanged and has ended,
/// and neither its post nor its files need it.
pub open spec fn job_allows(candidate: JobCandidateView, state: JobState) -> Recheck {
    checked(
        same_ended_job(state.row, candidate),
        match jobs::parsed_job(candidate.job_type, candidate.payload) {
            None => Recheck::Failed,
            Some(JobView::Media { post_id: _, board: _, source, output, category: _ }) => checked(
                file_is_neither(state.post_file, source, output),
                checked(
                    absent(state.source_present),
                    checked(absent(state.output_present), Recheck::Proceed),
                ),
            ),
            Some(_) => Recheck::Conflict,
        },
    )
}

/// Whether an obsolete job row may be removed.
pub fn recheck_job(candidate: &JobRepairCandidate, state: &JobState) -> (r: Recheck)
    ensures
        r == job_allows(candidate@, *state),
{
    match &state.row {
        None => {
            return Recheck::Failed;
        },
        Some(None) => {
            return Recheck::Conflict;
        },
        Some(Some(now)) => {
            if !str_eq(now.job_type.as_str(), candidate.job_type.as_str()) || !str_eq(
                now.payload.as_str(),
                candidate.payload.as_str(),
            ) || !(str_eq(now.status.as_str(), "done") || str_eq(now.status.as_str(), "failed")) {
                return Recheck::Conflict;
            }
        },
    }
    let (source, output) = match parse_job(
        candidate.job_type.as_str(),
        candidate.payload.as_str(),
    ) {
        None => {
            return Recheck::Failed;
        },
        Some(ParsedJob::Media { post_id: _, board: _, source, output, category: _ }) => (
            source,
            output,
        ),
        Some(_) => {
            return Recheck::Conflict;
        },
    };
    match &state.post_file {
        None => {
            return Recheck::Failed;
        },
        Some(Some(path)) => {
            if str_eq(path.as_str(), source.as_str()) || str_eq(path.as_str(), output.as_str()) {
                return Recheck::Conflict;
            }
        },
        Some(None) => {},
    }
    let first = must_be_false(state.source_present);
    if first != Recheck::Proceed {
        return first;
    }
    must_be_false(state.output_present)
}

/// An intent row as it is now.
#[derive(Debug, Clone)]
pub struct IntentRowNow {
    pub kind: String,
    pub payload_json: String,
}

/// What was re-read of a completed intent before it is removed.
#[derive(Debug, Clone)]
pub struct IntentState {
    /// The row, where it still exists.
    pub row: Option<Option<IntentRowNow>>,
    /// Whether each target is absent, where the payload could be decoded.
    pub targets: Option<DeletionObservation>,
}

/// Whether the intent row is the one that the audit saw.
pub open spec fn same_intent(row: Option<Option<IntentRowNow>>, candidate: IntentCandidateView) -> Option<bool> {
    match row {
        Some(Some(now)) => Some(
            now.kind@ == candidate.kind && now.payload_json@ == candidate.payload_json,
        ),
        Some(None) => Some(false),
        None => None,
    }
}

/// Whether a completed intent may be removed: it is an unchanged deletion whose
/// targets are all gone.
pub open spec fn intent_allows(candidate: IntentCandidateView, state: IntentState) -> Recheck {
    if candidate.kind != "delete_files"@ {
        Recheck::Conflict
    } else {
        checked(
            same_intent(state.row, candidate),
            match state.targets {
                None => Recheck::Failed,
                Some(targets) => if audit::all_gone(targets@) {
                    Recheck::Proceed
                } else {
                    Recheck::Conflict
                },
            },
        )
    }
}

/// Whether a completed intent may be removed.
pub fn recheck_intent(candidate: &IntentRepairCandidate, state: &IntentState) -> (r: Recheck)
    ensures
        r == intent_allows(candidate@, *state),
{
    if !str_eq(candidate.kind.as_str(), "delete_files") {
        return Recheck::Conflict;
    }
    match &state.row {
        None => {
            return Recheck::Failed;
        },
        Some(None) => {
            return Recheck::Conflict;
        },
        Some(Some(now)) => {
            if !str_eq(now.kind.as_str(), candidate.kind.as_str()) || !str_eq(
                now.payload_json.as_str(),
                candidate.payload_json.as_str(),
            ) {
                return Recheck::Conflict;
            }
        },
    }
    match &state.targets {
        None => Recheck::Failed,
        Some(targets) => if audit::targets_gone(targets) {
            Recheck::Proceed
        } else {
            Recheck::Conflict
        },
    }
}

/// What removing one row came to, by the number of rows removed.
pub fn removal_result(removed: usize) -> (r: RepairAttempt)
    ensures
        r == (if removed == 1 {
            RepairAttempt::Applied
        } else {
            RepairAttempt::Conflict
        }),
{
    if removed == 1 {
        RepairAttempt::Applied
    } else {
        RepairAttempt::Conflict
    }
}

/// A job row, as far as claims go.
#[derive(Debug, Clone)]
pub struct JobClaim {
    pub job_type: String,
    pub payload: String,
}

/// The model of a job row, as far as claims go.
pub struct JobClaimView {
    pub job_type: Seq<char>,
    pub payload: Seq<char>,
}

impl View for JobClaim {
    type V = JobClaimView;

    open spec fn view(&self) -> JobClaimView {
        JobClaimView { job_type: self.job_type@, payload: self.payload@ }
    }
}

/// An intent row, as far as claims go.
#[derive(Debug, Clone)]
pub struct IntentClaim {
    pub body: IntentBody,
    /// The stage directory relative to the upload root, where it lies below it.
    pub staged_root: Option<String>,
}

/// The model of an intent row, as far as claims go.
pub struct IntentClaimView {
    pub body: IntentView,
    pub staged_root: Option<Seq<char>>,
}

impl View for IntentClaim {
    type V = IntentClaimView;

    open spec fn view(&self) -> IntentClaimView {
        IntentClaimView { body: self.body@, staged_root: text::opt_view(self.staged_root) }
    }
}

/// Whether a job row claims the path. A malformed row claims every path.
pub open spec fn job_claims(job: JobClaimView, path: Seq<char>) -> bool {
    match jobs::parsed_job(job.job_type, job.payload) {
        Some(JobView::Media { post_id: _, board: _, source, output, category: _ }) => source
            == path || output == path,
        Some(_) => false,
        None => true,
    }
}

/// Whether an intent row claims the path. A row that cannot be read claims every
/// path.
pub open spec fn intent_claims(intent: IntentClaimView, path: Seq<char>) -> bool {
    intents::intent_claim(intent.body, intent.staged_root, path) != Some(false)
}

/// Whether some job or intent claims the path.
pub open spec fn lifecycle_claim(
    jobs: Seq<JobClaimView>,
    intents: Seq<IntentClaimView>,
    path: Seq<char>,
) -> bool {
    (exists|i: int| 0 <= i < jobs.len() && job_claims(#[trigger] jobs[i], path)) || (exists|i: int|
        0 <= i < intents.len() && intent_claims(#[trigger] intents[i], path))
}

/// Whether some job or intent claims the path.
pub fn path_has_lifecycle_claim(jobs: &Vec<JobClaim>, intents: &Vec<IntentClaim>, path: &str) -> (r:
    bool)
    ensures
        r == lifecycle_claim(text::views(jobs@), text::views(intents@), path@),
{
    let ghost js = text::views(jobs@);
    let ghost is = text::views(intents@);
    let mut i: usize = 0;
    while i < jobs.len()
        invariant
            i <= jobs@.len(),
            js == text::views(jobs@),
            forall|j: int| 0 <= j < i ==> !job_claims(#[trigger] js[j], path@),
        decreases jobs@.len() - i,
    {
        let job = &jobs[i];
        assert(js[i as int] == job@);
        match parse_job(job.job_type.as_str(), job.payload.as_str()) {
            Some(ParsedJob::Media { post_id: _, board: _, source, output, category: _ }) => {
                if str_eq(source.as_str(), path) || str_eq(output.as_str(), path) {
                    return true;
                }
            },
            Some(_) => {},
            None => {
                return true;
            },
        }
        i = i + 1;
    }
    i = 0;
    while i < intents.len()
        invariant
            i <= intents@.len(),
            is == text::views(intents@),
            js == text::views(jobs@),
            forall|j: int| 0 <= j < js.len() ==> !job_claims(#[trigger] js[j], path@),
            forall|j: int| 0 <= j < i ==> !intent_claims(#[trigger] is[j], path@),
        decreases intents@.len() - i,
    {
        let intent = &intents[i];
        assert(is[i as int] == intent@);
        match intent_claims_path(&intent.body, text::as_deref(&intent.staged_root), path) {
            Some(false) => {},
            _ => {
                return true;
            },
        }
        i = i + 1;
    }
    false
}

/// Whether a row claims the path: a post, a digest row, a job or an intent. The
/// checks are made in this order, and the first that fails decides.
pub fn path_has_authoritative_claim(
    post_reference: Option<bool>,
    hash_reference: Option<bool>,
    lifecycle: Option<bool>,
) -> (r: Option<bool>)
    ensures
        r == (match (post_reference, hash_reference, lifecycle) {
            (Some(true), _, _) => Some(true),
            (None, _, _) => None,
            (_, None, _) => None,
            (_, Some(true), _) => Some(true),
            (_, _, found) => found,
        }),
{
    match post_reference {
        None => {
            return None;
        },
        Some(true) => {
            return Some(true);
        },
        Some(false) => {},
    }
    match hash_reference {
        None => None,
        Some(true) => Some(true),
        Some(false) => lifecycle,
    }
}

/// An orphan's deletion is scheduled only while no row claims it, whatever else
/// was read.
pub proof fn law_claimed_orphans_are_kept(
    candidate: OrphanView,
    claimed: Option<bool>,
    identity: Option<Option<FileIdentity>>,
    digest: Option<Seq<char>>,
    board_exists: Option<bool>,
)
    ensures
        orphan_allows(candidate, claimed, identity, digest, board_exists) is Proceed ==> claimed
            == Some(false) && identity == Some(Some(candidate.identity)) && digest
            == candidate.digest && board_exists == Some(true),
{
}

/// An orphan's deletion is scheduled exactly where no row claims the path, the same file is
/// still there with the digest that the audit read, and the board exists; the recheck fails
/// only where something could not be read.
pub proof fn law_orphans_go_exactly_when_unchanged(
    candidate: OrphanView,
    claimed: Option<bool>,
    identity: Option<Option<FileIdentity>>,
    digest: Option<Seq<char>>,
    board_exists: Option<bool>,
)
    ensures
        ({
            let r = orphan_allows(candidate, claimed, identity, digest, board_exists);
            &&& r is Proceed <==> claimed == Some(false) && identity == Some(
                Some(candidate.identity),
            ) && candidate.digest is Some && digest == candidate.digest && board_exists == Some(
                true,
            )
            &&& r is Failed ==> claimed is None || identity is None || digest is None
                || board_exists is None
            &&& claimed is None ==> r is Failed
        }),
{
}

/// A scheduled deletion is carried out exactly where nothing refers to the file and it is
/// the one that the audit saw, with the digest that it read.
pub proof fn law_deletions_stand_exactly_when_unchanged(
    candidate: OrphanView,
    referenced: Option<bool>,
    identity: Option<Option<FileIdentity>>,
    digest: Option<Seq<char>>,
)
    requires
        candidate.digest is Some,
    ensures
        ({
            let r = deletion_stands(candidate, referenced, identity, digest);
            &&& r is Proceed <==> referenced == Some(false) && identity == Some(
                Some(candidate.identity),
            ) && digest == candidate.digest
            &&& r is Failed <==> referenced is None || identity is None || (identity != Some(
                None::<FileIdentity>,
            ) && digest is None)
        }),
{
}

/// A stale digest row is removed exactly where it is the row that the audit saw and neither
/// its file nor its thumbnail, where it has one, is referred to or claimed.
pub proof fn law_hash_rows_go_exactly_when_unneeded(candidate: HashCandidateView, state: HashState)
    ensures
        hash_allows(candidate, state) is Proceed <==> {
            &&& state.row is Some
            &&& state.row->Some_0 is Some
            &&& state.row->Some_0->Some_0.file_path@ == candidate.file_path
            &&& state.row->Some_0->Some_0.thumb_path@ == candidate.thumb_path
            &&& state.row->Some_0->Some_0.mime_type@ == candidate.mime_type
            &&& state.file_referenced == Some(false)
            &&& state.file_claimed == Some(false)
            &&& candidate.thumb_path.len() > 0 ==> state.thumb_referenced == Some(false)
                && state.thumb_claimed == Some(false)
        },
        hash_allows(candidate, state) is Failed ==> state.row is None || state.file_referenced is None
            || state.thumb_referenced is None || state.file_claimed is None
            || state.thumb_claimed is None,
{
}

/// An obsolete job is removed exactly where it is the row that the audit saw, has ended,
/// makes media, and its post has neither its source nor its output, and neither file is
/// there.
pub proof fn law_jobs_go_exactly_when_obsolete(candidate: JobCandidateView, state: JobState)
    ensures
        job_allows(candidate, state) is Proceed <==> {
            &&& state.row is Some
            &&& state.row->Some_0 is Some
            &&& state.row->Some_0->Some_0.job_type@ == candidate.job_type
            &&& state.row->Some_0->Some_0.payload@ == candidate.payload
            &&& (state.row->Some_0->Some_0.status@ == "done"@
                || state.row->Some_0->Some_0.status@ == "failed"@)
            &&& jobs::parsed_job(candidate.job_type, candidate.payload) is Some
            &&& jobs::parsed_job(candidate.job_type, candidate.payload)->Some_0 is Media
            &&& state.post_file is Some
            &&& text::opt_view(state.post_file->Some_0) != Some(
                jobs::parsed_job(candidate.job_type, candidate.payload)->Some_0->Media_source,
            )
            &&& text::opt_view(state.post_file->Some_0) != Some(
                jobs::parsed_job(candidate.job_type, candidate.payload)->Some_0->Media_output,
            )
            &&& state.source_present == Some(false)
            &&& state.output_present == Some(false)
        },
{
}

/// A completed intent is removed exactly where it deletes files, is the row that the audit
/// saw, and every file and directory that it deletes is gone.
pub proof fn law_intents_go_exactly_when_completed(candidate: IntentCandidateView, state: IntentState)
    ensures
        intent_allows(candidate, state) is Proceed <==> {
            &&& candidate.kind == "delete_files"@
            &&& state.row is Some
            &&& state.row->Some_0 is Some
            &&& state.row->Some_0->Some_0.kind@ == candidate.kind
            &&& state.row->Some_0->Some_0.payload_json@ == candidate.payload_json
            &&& state.targets is Some
            &&& forall|i: int|
                0 <= i < state.targets->Some_0.files_absent@.len() ==> (
                #[trigger] state.targets->Some_0.files_absent@[i]) == true
            &&& forall|i: int|
                0 <= i < state.targets->Some_0.dirs_absent@.len() ==> (
                #[trigger] state.targets->Some_0.dirs_absent@[i]) == true
        },
{
}

/// Where a target stands in the order of repairs: intents, jobs, digest rows, orphans.
pub open spec fn repair_place(target: RepairTarget) -> int {
    match target {
        RepairTarget::Intent(_) => 0,
        RepairTarget::Job(_) => 1,
        RepairTarget::Hash(_) => 2,
        RepairTarget::Orphan(_) => 3,
    }
}

proof fn lemma_hash_targets(candidates: Seq<HashCandidateView>, i: int)
    requires
        candidates.len() <= usize::MAX,
        0 <= i < candidates.len(),
    ensures
        hash_targets(candidates).contains(RepairTarget::Hash(i as usize)) <==> (
        candidates[i].classification is StaleHashMissingFile
            || candidates[i].classification is StaleHashUnreferenced),
    decreases candidates.len(),
{
    let target = RepairTarget::Hash(i as usize);
    let before = hash_targets(candidates.drop_last());
    let now = hash_targets(candidates);
    lemma_hash_targets_are_below(candidates.drop_last());
    if i < candidates.len() - 1 {
        lemma_hash_targets(candidates.drop_last(), i);
        if before.contains(target) {
            let k = choose|k: int| 0 <= k < before.len() && before[k] == target;
            assert(now[k] == target);
        }
        if now.contains(target) {
            let k = choose|k: int| 0 <= k < now.len() && now[k] == target;
            assert(before[k] == target);
        }
    } else {
        if now != before {
            assert(now.last() == target);
        }
        if before.contains(target) {
            let k = choose|k: int| 0 <= k < before.len() && before[k] == target;
            assert(before[k]->Hash_0 < candidates.len() - 1);
        }
    }
}

proof fn lemma_hash_targets_are_below(candidates: Seq<HashCandidateView>)
    requires
        candidates.len() <= usize::MAX,
    ensures
        forall|k: int|
            0 <= k < hash_targets(candidates).len() ==> (#[trigger] hash_targets(
                candidates,
            )[k]) is Hash && hash_targets(candidates)[k]->Hash_0 < candidates.len(),
    decreases candidates.len(),
{
    if candidates.len() > 0 {
        lemma_hash_targets_are_below(candidates.drop_last());
    }
}

proof fn lemma_orphan_targets(orphans: Seq<OrphanView>, i: int)
    requires
        orphans.len() <= usize::MAX,
        0 <= i < orphans.len(),
    ensures
        orphan_targets(orphans).contains(RepairTarget::Orphan(i as usize)) <==> orphans[i].digest
            is Some,
    decreases orphans.len(),
{
    let target = RepairTarget::Orphan(i as usize);
    let before = orphan_targets(orphans.drop_last());
    let now = orphan_targets(orphans);
    law_repairs_are_bounded(
        ModelView::fresh(0),
        orphans.drop_last(),
        0,
    );
    if i < orphans.len() - 1 {
        lemma_orphan_targets(orphans.drop_last(), i);
        if before.contains(target) {
            let k = choose|k: int| 0 <= k < before.len() && before[k] == target;
            assert(now[k] == target);
        }
        if now.contains(target) {
            let k = choose|k: int| 0 <= k < now.len() && now[k] == target;
            assert(before[k] == target);
        }
    } else {
        if now != before {
            assert(now.last() == target);
        }
        if before.contains(target) {
            let k = choose|k: int| 0 <= k < before.len() && before[k] == target;
            assert(before[k]->Orphan_0 < orphans.len() - 1);
        }
    }
}

/// What can be repaired is every completed intent and obsolete job that the audit noted,
/// every digest row without its file or without a post, and every orphan whose digest was
/// read; they are repaired in that order, and nothing else is.
pub proof fn law_repairs_are_what_the_audit_proved(m: ModelView, orphans: Seq<OrphanView>, i: usize)
    requires
        m.intent_candidates.len() <= usize::MAX,
        m.job_candidates.len() <= usize::MAX,
        m.hash_candidates.len() <= usize::MAX,
        orphans.len() <= usize::MAX,
    ensures
        ({
            let all = repairable(m, orphans);
            &&& i < m.intent_candidates.len() ==> all.contains(RepairTarget::Intent(i))
            &&& i < m.job_candidates.len() ==> all.contains(RepairTarget::Job(i))
            &&& i < m.hash_candidates.len() ==> (all.contains(RepairTarget::Hash(i)) <==> (
            m.hash_candidates[i as int].classification is StaleHashMissingFile
                || m.hash_candidates[i as int].classification is StaleHashUnreferenced))
            &&& i < orphans.len() ==> (all.contains(RepairTarget::Orphan(i))
                <==> orphans[i as int].digest is Some)
            &&& forall|a: int, b: int|
                0 <= a < b < all.len() ==> repair_place(#[trigger] all[a]) <= repair_place(
                    #[trigger] all[b],
                )
        }),
{
    let all = repairable(m, orphans);
    let p = intent_targets(m.intent_candidates.len());
    let q = job_targets(m.job_candidates.len());
    let h = hash_targets(m.hash_candidates);
    let o = orphan_targets(orphans);
    lemma_hash_targets_are_below(m.hash_candidates);
    law_repairs_are_bounded(m, orphans, 0);
    if i < p.len() {
        assert(all[i as int] == RepairTarget::Intent(i));
    }
    if i < q.len() {
        assert(all[p.len() + i] == RepairTarget::Job(i));
    }
    if i < m.hash_candidates.len() {
        lemma_hash_targets(m.hash_candidates, i as int);
        let target = RepairTarget::Hash(i);
        if h.contains(target) {
            let k = choose|k: int| 0 <= k < h.len() && h[k] == target;
            assert(all[p.len() + q.len() + k] == target);
        }
        if all.contains(target) {
            let k = choose|k: int| 0 <= k < all.len() && all[k] == target;
            assert(p.len() + q.len() <= k < p.len() + q.len() + h.len());
            assert(h[k - p.len() - q.len()] == target);
        }
    }
    if i < orphans.len() {
        lemma_orphan_targets(orphans, i as int);
        let target = RepairTarget::Orphan(i);
        if o.contains(target) {
            let k = choose|k: int| 0 <= k < o.len() && o[k] == target;
            assert(all[p.len() + q.len() + h.len() + k] == target);
        }
        if all.contains(target) {
            let k = choose|k: int| 0 <= k < all.len() && all[k] == target;
            assert(p.len() + q.len() + h.len() <= k);
            assert(o[k - p.len() - q.len() - h.len()] == target);
        }
    }
}

/// Each attempt is counted once, under what came of it: a repair that took effect under its
/// kind, with the bytes of an orphan, and any other as a conflict or a failure.
pub proof fn law_attempts_are_counted_by_outcome(
    s: RepairSummary,
    target: RepairTarget,
    bytes: u64,
    result: RepairAttempt,
)
    requires
        s.files_scheduled < u64::MAX,
        s.stale_hash_rows_removed < u64::MAX,
        s.obsolete_jobs_removed < u64::MAX,
        s.completed_intents_removed < u64::MAX,
        s.revalidation_conflicts < u64::MAX,
        s.failures < u64::MAX,
        s.bytes_scheduled + bytes <= u64::MAX,
    ensures
        ({
            let r = with_repair(s, target, bytes, result);
            let one = |b: bool| if b {
                1int
            } else {
                0int
            };
            let done = result is Applied;
            &&& r.files_scheduled == s.files_scheduled + one(done && target is Orphan)
            &&& r.bytes_scheduled == s.bytes_scheduled + bytes * one(done && target is Orphan)
            &&& r.stale_hash_rows_removed == s.stale_hash_rows_removed + one(done && target is Hash)
            &&& r.obsolete_jobs_removed == s.obsolete_jobs_removed + one(done && target is Job)
            &&& r.completed_intents_removed == s.completed_intents_removed + one(
                done && target is Intent,
            )
            &&& r.revalidation_conflicts == s.revalidation_conflicts + one(result is Conflict)
            &&& r.failures == s.failures + one(result is Failed)
        }),
{
    assert(bytes * 0 == 0 && bytes * 1 == bytes) by (nonlinear_arith);
}

/// A job or an intent that cannot be read claims every path: nothing is removed on its
/// account.
pub proof fn law_unreadable_rows_claim_every_path(
    all_jobs: Seq<JobClaimView>,
    all_intents: Seq<IntentClaimView>,
    path: Seq<char>,
    k: int,
)
    requires
        (0 <= k < all_jobs.len() && jobs::parsed_job(all_jobs[k].job_type, all_jobs[k].payload)
            is None) || (0 <= k < all_intents.len() && (all_intents[k].body is Undecodable
            || all_intents[k].body is UnknownKind)),
    ensures
        lifecycle_claim(all_jobs, all_intents, path),
{
    if 0 <= k < all_jobs.len() && jobs::parsed_job(all_jobs[k].job_type, all_jobs[k].payload)
        is None {
        assert(job_claims(all_jobs[k], path));
    } else {
        assert(intent_claims(all_intents[k], path));
    }
}

} // verus!
