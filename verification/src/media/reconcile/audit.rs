//! Auditing of database references against the files that they name.

use vstd::prelude::*;
use vstd::string::*;
use crate::text;
use crate::text::{clone_opt, concat, eq_ignore_ascii_case, starts_with, str_eq};
use super::model;
use super::model::{
    reference_example, ClaimView, FindingView, HashCandidateView, HashRepairCandidate,
    IntentCandidateView, IntentRepairCandidate, ModelView, RecordView, ReferenceModel, ReferenceRecord, ReferenceRole,
    ReferenceSource,
};
use super::report;
use super::report::{make_example, AuditClassification, AuditReport, MediaCategory, ReportView};

verus! {

/// What reading a file's digest gave.
#[derive(Debug, Clone)]
pub enum DigestReading {
    /// The file could not be read.
    Failed,
    /// The digest in hexadecimal.
    Read(String),
}

/// The model of a digest reading.
pub enum DigestView {
    Failed,
    Read(Seq<char>),
}

impl View for DigestReading {
    type V = DigestView;

    open spec fn view(&self) -> DigestView {
        match self {
            DigestReading::Failed => DigestView::Failed,
            DigestReading::Read(digest) => DigestView::Read(digest@),
        }
    }
}

/// The bytes that a pass may still read to verify digests.
#[derive(Debug, Clone, Copy, PartialEq, Eq, Structural)]
pub struct HashBudget {
    pub remaining: u64,
}

impl HashBudget {
    /// A budget of the given size.
    pub fn new(bytes: u64) -> (r: Self)
        ensures
            r.remaining == bytes,
    {
        HashBudget { remaining: bytes }
    }

    /// Whether a file of this size may still be read.
    pub fn allows(&self, size: u64) -> (r: bool)
        ensures
            r == (size <= self.remaining),
    {
        size <= self.remaining
    }

    /// The digest of a file, where the budget allows reading it. A file that is
    /// read costs its size; one that cannot be read costs nothing.
    pub fn hash_if_bounded(&mut self, size: u64, reading: &DigestReading) -> (r: Result<
        Option<String>,
        (),
    >)
        ensures
            match r {
                Ok(None) => size > old(self).remaining && *final(self) == *old(self),
                Ok(Some(digest)) => size <= old(self).remaining && reading@ == DigestView::Read(
                    digest@,
                ) && final(self).remaining == old(self).remaining - size,
                Err(_) => size <= old(self).remaining && reading@ is Failed && *final(self)
                    == *old(self),
            },
    {
        if size > self.remaining {
            return Ok(None);
        }
        match reading {
            DigestReading::Failed => Err(()),
            DigestReading::Read(digest) => {
                self.remaining = self.remaining.saturating_sub(size);
                Ok(Some(digest.clone()))
            },
        }
    }
}

/// The budget left after a file of this size was to be hashed.
pub open spec fn budget_after(remaining: u64, size: u64, reading: DigestView) -> u64 {
    if size <= remaining && reading is Read {
        (remaining - size) as u64
    } else {
        remaining
    }
}

/// What the filesystem says about a referenced path.
#[derive(Debug, Clone)]
pub enum FileProbe {
    /// The path is unsafe to follow.
    Unsafe,
    /// No file is there.
    Missing,
    /// A regular file is there. Its digest counts only where it is needed and
    /// the budget allows reading it.
    Present { size: u64, digest: DigestReading },
}

/// What was observed of one reference.
#[derive(Debug, Clone)]
pub struct ReferenceObservation {
    /// The referenced path itself.
    pub file: FileProbe,
    /// Whether the file from which the referenced one can be made is there.
    pub source_present: bool,
}

/// The model of an observation.
pub struct ObservationView {
    pub file: ProbeView,
    pub source_present: bool,
}

/// The model of a file probe.
pub enum ProbeView {
    Unsafe,
    Missing,
    Present { size: u64, digest: DigestView },
}

impl View for FileProbe {
    type V = ProbeView;

    open spec fn view(&self) -> ProbeView {
        match self {
            FileProbe::Unsafe => ProbeView::Unsafe,
            FileProbe::Missing => ProbeView::Missing,
            FileProbe::Present { size, digest } => ProbeView::Present {
                size: *size,
                digest: digest@,
            },
        }
    }
}

impl View for ReferenceObservation {
    type V = ObservationView;

    open spec fn view(&self) -> ObservationView {
        ObservationView { file: self.file@, source_present: self.source_present }
    }
}

/// A classification together with the budget left after it.
pub struct Classified {
    pub class: AuditClassification,
    pub bytes: u64,
    pub remaining: u64,
}

/// Whether something other than digest metadata keeps the path besides this
/// owner.
pub open spec fn needed_by_other(claims: Seq<ClaimView>, owner: Seq<char>) -> bool {
    exists|i: int|
        0 <= i < claims.len() && (#[trigger] claims[i]).owner != owner && (!text::begins(
            claims[i].owner,
            "hash:"@,
        ) || !(claims[i].role is Metadata))
}

/// Whether a digest row describes the path.
pub open spec fn has_hash_claim(claims: Seq<ClaimView>) -> bool {
    exists|i: int| 0 <= i < claims.len() && text::begins((#[trigger] claims[i]).owner, "hash:"@)
}

/// Whether classifying the reference needs the digest of its file.
pub open spec fn needs_digest(record: RecordView) -> bool {
    &&& !(record.role is TerminalMissing)
    &&& !(record.role is ScheduledDeletion)
    &&& record.source is Hash
    &&& record.expected_digest is Some
}

/// What a reference is whose file is there.
pub open spec fn existing_class(
    records: Seq<RecordView>,
    record: RecordView,
    size: u64,
    digest: DigestView,
    remaining: u64,
) -> AuditClassification {
    if record.role is TerminalMissing {
        AuditClassification::IntentInconsistency
    } else if record.role is ScheduledDeletion {
        AuditClassification::ScheduledDeletion
    } else if needs_digest(record) && size <= remaining && digest is Failed {
        AuditClassification::ScanError
    } else if needs_digest(record) && size <= remaining && text::lower(digest->Read_0)
        != text::lower(record.expected_digest->Some_0) {
        AuditClassification::DigestConflict
    } else if record.source is Hash && record.category is Original && !needed_by_other(
        model::required_on(records, record.path),
        record.owner,
    ) {
        AuditClassification::StaleHashUnreferenced
    } else if record.source is Post && record.category is Original && !has_hash_claim(
        model::claims_on(records, record.path),
    ) {
        AuditClassification::MissingHashMetadata
    } else if record.role is Temporary {
        AuditClassification::LifecycleInProgress
    } else {
        AuditClassification::Healthy
    }
}

/// What a reference is whose file is missing, given whether the file from which
/// it can be made is there.
pub open spec fn missing_class(record: RecordView, source_present: bool) -> AuditClassification {
    let recoverable = record.recoverable_source is Some && source_present;
    match record.role {
        ReferenceRole::ScheduledDeletion => AuditClassification::ScheduledDeletion,
        ReferenceRole::TerminalMissing => AuditClassification::IntentionallyPrunedOriginal,
        ReferenceRole::Metadata => AuditClassification::StaleHashMissingFile,
        _ => if record.role is Temporary && record.category is UploadStage {
            if recoverable {
                AuditClassification::MissingStageInstalledDestination
            } else {
                AuditClassification::IntentInconsistency
            }
        } else {
            match record.source {
                ReferenceSource::Post => match record.category {
                    MediaCategory::Original => AuditClassification::MissingPrimary,
                    MediaCategory::TranscodedOutput => AuditClassification::MissingPrimary,
                    MediaCategory::Thumbnail => AuditClassification::MissingThumbnail,
                    MediaCategory::Waveform => AuditClassification::MissingWaveform,
                    _ => AuditClassification::UnrecoverableActiveReference,
                },
                ReferenceSource::Job => if recoverable {
                    AuditClassification::RecoverableMissingDerived
                } else if record.category is Waveform || record.category is TranscodedOutput {
                    AuditClassification::MissingDeterministicOutput
                } else {
                    AuditClassification::UnrecoverableActiveReference
                },
                ReferenceSource::Intent => if recoverable {
                    AuditClassification::LifecycleInProgress
                } else {
                    AuditClassification::IntentInconsistency
                },
                ReferenceSource::Hash => AuditClassification::StaleHashMissingFile,
            }
        },
    }
}

/// What a reference is, its size, and the budget left.
pub open spec fn classified(
    records: Seq<RecordView>,
    record: RecordView,
    seen: ObservationView,
    remaining: u64,
) -> Classified {
    match seen.file {
        ProbeView::Unsafe => Classified {
            class: AuditClassification::UnsafePath,
            bytes: 0,
            remaining,
        },
        ProbeView::Missing => Classified {
            class: missing_class(record, seen.source_present),
            bytes: 0,
            remaining,
        },
        ProbeView::Present { size, digest } => Classified {
            class: existing_class(records, record, size, digest, remaining),
            bytes: size,
            remaining: if needs_digest(record) {
                budget_after(remaining, size, digest)
            } else {
                remaining
            },
        },
    }
}

/// A pruned original is never reported as missing, and a live reference whose
/// file is missing is never reported as healthy.
pub proof fn law_missing_files_are_reported(record: RecordView, source_present: bool)
    ensures
        record.role is TerminalMissing ==> missing_class(
            record,
            source_present,
        ) is IntentionallyPrunedOriginal,
        !(missing_class(record, source_present) is Healthy),
        record.role is Active && record.source is Post ==> missing_class(
            record,
            source_present,
        ).missing(),
{
}

fn any_other_claim(m: &ReferenceModel, path: &str, owner: &str) -> (r: bool)
    ensures
        r == needed_by_other(model::required_on(m@.records, path@), owner@),
{
    let required = m.required_claims(path);
    let ghost claims = text::views(required@);
    let mut i: usize = 0;
    while i < required.len()
        invariant
            i <= required@.len(),
            claims == text::views(required@),
            claims == model::required_on(m@.records, path@),
            forall|j: int|
                0 <= j < i ==> !((#[trigger] claims[j]).owner != owner@ && (!text::begins(
                    claims[j].owner,
                    "hash:"@,
                ) || !(claims[j].role is Metadata))),
        decreases required@.len() - i,
    {
        let claim = &required[i];
        assert(claims[i as int] == claim@);
        if !str_eq(claim.owner.as_str(), owner) && (!starts_with(claim.owner.as_str(), "hash:")
            || claim.role != ReferenceRole::Metadata) {
            return true;
        }
        i = i + 1;
    }
    false
}

fn any_hash_claim(m: &ReferenceModel, path: &str) -> (r: bool)
    ensures
        r == has_hash_claim(model::claims_on(m@.records, path@)),
{
    let all = m.claims(path);
    let ghost claims = text::views(all@);
    let mut i: usize = 0;
    while i < all.len()
        invariant
            i <= all@.len(),
            claims == text::views(all@),
            claims == model::claims_on(m@.records, path@),
            forall|j: int|
                0 <= j < i ==> !text::begins((#[trigger] claims[j]).owner, "hash:"@),
        decreases all@.len() - i,
    {
        assert(claims[i as int] == all@[i as int]@);
        if starts_with(all[i].owner.as_str(), "hash:") {
            return true;
        }
        i = i + 1;
    }
    false
}

/// Whether the reference's file must be read to classify it.
pub fn wants_digest(record: &ReferenceRecord, size: u64, budget: &HashBudget) -> (r: bool)
    ensures
        r == (needs_digest(record@) && size <= budget.remaining),
{
    record.role != ReferenceRole::TerminalMissing && record.role
        != ReferenceRole::ScheduledDeletion && record.source == ReferenceSource::Hash
        && record.expected_digest.is_some() && budget.allows(size)
}

/// Classifies a reference whose file is there.
pub fn classify_existing_reference(
    m: &ReferenceModel,
    record: &ReferenceRecord,
    size: u64,
    digest: &DigestReading,
    budget: &mut HashBudget,
) -> (r: AuditClassification)
    ensures
        r == existing_class(m@.records, record@, size, digest@, old(budget).remaining),
        final(budget).remaining == (if needs_digest(record@) {
            budget_after(old(budget).remaining, size, digest@)
        } else {
            old(budget).remaining
        }),
{
    if record.role == ReferenceRole::TerminalMissing {
        return AuditClassification::IntentInconsistency;
    }
    if record.role == ReferenceRole::ScheduledDeletion {
        return AuditClassification::ScheduledDeletion;
    }
    if record.source == ReferenceSource::Hash {
        let other_claim = any_other_claim(m, record.path.as_str(), record.owner.as_str());
        if let Some(expected) = &record.expected_digest {
            match budget.hash_if_bounded(size, digest) {
                Ok(Some(actual)) => {
                    if !eq_ignore_ascii_case(actual.as_str(), expected.as_str()) {
                        return AuditClassification::DigestConflict;
                    }
                },
                Ok(None) => {},
                Err(_) => {
                    return AuditClassification::ScanError;
                },
            }
        }
        if record.category == MediaCategory::Original && !other_claim {
            return AuditClassification::StaleHashUnreferenced;
        }
    }
    if record.source == ReferenceSource::Post && record.category == MediaCategory::Original
        && !any_hash_claim(m, record.path.as_str()) {
        return AuditClassification::MissingHashMetadata;
    }
    if record.role == ReferenceRole::Temporary {
        AuditClassification::LifecycleInProgress
    } else {
        AuditClassification::Healthy
    }
}

/// Classifies a reference whose file is missing.
pub fn classify_missing_reference(record: &ReferenceRecord, source_present: bool) -> (r:
    AuditClassification)
    ensures
        r == missing_class(record@, source_present),
{
    let recoverable = record.recoverable_source.is_some() && source_present;
    match record.role {
        ReferenceRole::ScheduledDeletion => AuditClassification::ScheduledDeletion,
        ReferenceRole::TerminalMissing => AuditClassification::IntentionallyPrunedOriginal,
        ReferenceRole::Metadata => AuditClassification::StaleHashMissingFile,
        ReferenceRole::Temporary | ReferenceRole::Active => {
            if record.role == ReferenceRole::Temporary && record.category
                == MediaCategory::UploadStage {
                return if recoverable {
                    AuditClassification::MissingStageInstalledDestination
                } else {
                    AuditClassification::IntentInconsistency
                };
            }
            match record.source {
                ReferenceSource::Post => match record.category {
                    MediaCategory::Original
                    | MediaCategory::TranscodedOutput => AuditClassification::MissingPrimary,
                    MediaCategory::Thumbnail => AuditClassification::MissingThumbnail,
                    MediaCategory::Waveform => AuditClassification::MissingWaveform,
                    MediaCategory::UploadStage
                    | MediaCategory::KnownTemporary
                    | MediaCategory::Unknown => {
                        AuditClassification::UnrecoverableActiveReference
                    },
                },
                ReferenceSource::Job => if recoverable {
                    AuditClassification::RecoverableMissingDerived
                } else if record.category == MediaCategory::Waveform || record.category
                    == MediaCategory::TranscodedOutput {
                    AuditClassification::MissingDeterministicOutput
                } else {
                    AuditClassification::UnrecoverableActiveReference
                },
                ReferenceSource::Intent => if recoverable {
                    AuditClassification::LifecycleInProgress
                } else {
                    AuditClassification::IntentInconsistency
                },
                ReferenceSource::Hash => AuditClassification::StaleHashMissingFile,
            }
        },
    }
}

/// The state that auditing references changes.
pub struct AuditState {
    pub model: ModelView,
    pub report: ReportView,
    pub remaining: u64,
}

/// The digest rows after the first one with this path has been classified.
pub open spec fn reclassified(
    candidates: Seq<HashCandidateView>,
    path: Seq<char>,
    class: AuditClassification,
) -> Seq<HashCandidateView> {
    match first_with_path(candidates, path) {
        Some(i) => candidates.update(
            i,
            HashCandidateView { classification: class, ..candidates[i] },
        ),
        None => candidates,
    }
}

/// The first digest row with this path.
pub open spec fn first_with_path(candidates: Seq<HashCandidateView>, path: Seq<char>) -> Option<int>
    decreases candidates.len(),
{
    if candidates.len() == 0 {
        None
    } else {
        match first_with_path(candidates.drop_last(), path) {
            Some(i) => Some(i),
            None => if candidates.last().file_path == path {
                Some(candidates.len() - 1)
            } else {
                None
            },
        }
    }
}

/// The state after one reference has been audited.
pub open spec fn with_reference(
    s: AuditState,
    record: RecordView,
    seen: ObservationView,
    limit: usize,
) -> AuditState {
    let c = classified(s.model.records, record, seen, s.remaining);
    let model = if record.source is Hash && record.category is Original {
        ModelView {
            hash_candidates: reclassified(s.model.hash_candidates, record.path, c.class),
            ..s.model
        }
    } else {
        s.model
    };
    AuditState {
        model,
        report: ReportView {
            references_examined: report::saturated(s.report.references_examined as int, 1),
            ..s.report
        }.shown(model::record_example(model, record, c.class, c.bytes), limit),
        remaining: c.remaining,
    }
}

/// The state after the first `n` references have been audited.
pub open spec fn with_references(
    s: AuditState,
    seen: Seq<ObservationView>,
    n: nat,
    limit: usize,
) -> AuditState
    decreases n,
{
    if n == 0 {
        s
    } else {
        with_reference(
            with_references(s, seen, (n - 1) as nat, limit),
            s.model.records[n - 1],
            seen[n - 1],
            limit,
        )
    }
}

/// The report after the findings have been shown.
pub open spec fn with_findings(r: ReportView, findings: Seq<FindingView>, limit: usize) -> ReportView
    decreases findings.len(),
{
    if findings.len() == 0 {
        r
    } else {
        let f = findings.last();
        with_findings(r, findings.drop_last(), limit).shown(
            report::example(f.classification, f.category, f.board, f.managed_id, f.owner, 0),
            limit,
        )
    }
}

fn find_candidate(candidates: &Vec<HashRepairCandidate>, path: &str) -> (r: Option<usize>)
    ensures
        match r {
            Some(i) => i < candidates@.len() && first_with_path(text::views(candidates@), path@)
                == Some(i as int),
            None => first_with_path(text::views(candidates@), path@) is None,
        },
{
    let ghost all = text::views(candidates@);
    let mut found: Option<usize> = None;
    let mut i: usize = 0;
    assert(all.take(0) =~= Seq::<HashCandidateView>::empty());
    while i < candidates.len()
        invariant
            i <= candidates@.len(),
            all == text::views(candidates@),
            match found {
                Some(k) => k < i && first_with_path(all.take(i as int), path@) == Some(k as int),
                None => first_with_path(all.take(i as int), path@) is None,
            },
        decreases candidates@.len() - i,
    {
        assert(all.take(i as int + 1).drop_last() =~= all.take(i as int));
        assert(all.take(i as int + 1).last() == candidates@[i as int]@);
        if found.is_none() && str_eq(candidates[i].file_path.as_str(), path) {
            found = Some(i);
        }
        i = i + 1;
    }
    assert(all.take(all.len() as int) =~= all);
    found
}

fn reclassify(m: &mut ReferenceModel, path: &str, class: AuditClassification)
    ensures
        final(m)@ == (ModelView {
            hash_candidates: reclassified(old(m)@.hash_candidates, path@, class),
            ..old(m)@
        }),
{
    let ghost before = text::views(m.hash_candidates@);
    match find_candidate(&m.hash_candidates, path) {
        Some(i) => {
            let old = &m.hash_candidates[i];
            let changed = HashRepairCandidate {
                digest: old.digest.clone(),
                file_path: old.file_path.clone(),
                thumb_path: old.thumb_path.clone(),
                mime_type: old.mime_type.clone(),
                classification: class,
            };
            m.hash_candidates.set(i, changed);
            assert(text::views(m.hash_candidates@) =~= reclassified(before, path@, class));
        },
        None => {},
    }
}

/// Audits one reference.
pub fn audit_reference(
    m: &mut ReferenceModel,
    report: &mut AuditReport,
    budget: &mut HashBudget,
    record: &ReferenceRecord,
    seen: &ReferenceObservation,
    example_limit: usize,
)
    ensures
        with_reference(
            AuditState {
                model: old(m)@,
                report: old(report)@,
                remaining: old(budget).remaining,
            },
            record@,
            seen@,
            example_limit,
        ) == (AuditState {
            model: final(m)@,
            report: final(report)@,
            remaining: final(budget).remaining,
        }),
{
    report.references_examined = report.references_examined.saturating_add(1);
    let mut bytes: u64 = 0;
    let class = match &seen.file {
        FileProbe::Unsafe => AuditClassification::UnsafePath,
        FileProbe::Missing => classify_missing_reference(record, seen.source_present),
        FileProbe::Present { size, digest } => {
            bytes = *size;
            classify_existing_reference(m, record, *size, digest, budget)
        },
    };
    if record.source == ReferenceSource::Hash && record.category == MediaCategory::Original {
        reclassify(m, record.path.as_str(), class);
    }
    let example = reference_example(m, record, class, bytes);
    report.show(example, example_limit);
}

/// Shows what was noticed while the rows were read.
pub fn audit_findings(m: &ReferenceModel, report: &mut AuditReport, example_limit: usize)
    ensures
        final(report)@ == with_findings(old(report)@, m@.findings, example_limit),
{
    let ghost start = report@;
    let ghost all = m@.findings;
    let mut i: usize = 0;
    assert(all.take(0) =~= Seq::<FindingView>::empty());
    while i < m.findings.len()
        invariant
            i <= m.findings@.len(),
            all == m@.findings,
            report@ == with_findings(start, all.take(i as int), example_limit),
        decreases m.findings@.len() - i,
    {
        let f = &m.findings[i];
        assert(all.take(i as int + 1).drop_last() =~= all.take(i as int));
        assert(all.take(i as int + 1).last() == f@);
        let example = make_example(
            f.classification,
            f.category,
            clone_opt(&f.board),
            f.managed_id.clone(),
            clone_opt(&f.owner),
            0,
        );
        report.show(example, example_limit);
        i = i + 1;
    }
    assert(all.take(all.len() as int) =~= all);
}

proof fn lemma_references_keep_records(
    s: AuditState,
    seen: Seq<ObservationView>,
    n: nat,
    limit: usize,
)
    ensures
        with_references(s, seen, n, limit).model.records == s.model.records,
    decreases n,
{
    if n > 0 {
        lemma_references_keep_records(s, seen, (n - 1) as nat, limit);
    }
}

/// What was observed of one completed-deletion candidate: its payload's
/// directories, and whether each file and directory is absent.
#[derive(Debug, Clone)]
pub struct DeletionObservation {
    pub files_absent: Vec<bool>,
    pub dirs: Vec<String>,
    pub dirs_absent: Vec<bool>,
}

/// The model of a deletion observation.
pub struct DeletionView {
    pub files_absent: Seq<bool>,
    pub dirs: Seq<Seq<char>>,
    pub dirs_absent: Seq<bool>,
}

impl View for DeletionObservation {
    type V = DeletionView;

    open spec fn view(&self) -> DeletionView {
        DeletionView {
            files_absent: self.files_absent@,
            dirs: text::views(self.dirs@),
            dirs_absent: self.dirs_absent@,
        }
    }
}

/// Whether every flag is set.
pub open spec fn all_set(flags: Seq<bool>) -> bool {
    forall|i: int| 0 <= i < flags.len() ==> flags[i] == true
}

/// Whether everything that the intent deletes is gone.
pub open spec fn all_gone(seen: DeletionView) -> bool {
    all_set(seen.files_absent) && all_set(seen.dirs_absent)
}

/// The report after one deletion intent has been checked.
pub open spec fn with_completed(
    r: ReportView,
    candidate: IntentCandidateView,
    seen: Option<DeletionView>,
    limit: usize,
) -> ReportView {
    if candidate.kind == "delete_files"@ && seen is Some && all_gone(seen->Some_0) {
        r.shown(
            report::example(
                AuditClassification::CompletedIntent,
                MediaCategory::Unknown,
                if seen->Some_0.dirs.len() > 0 {
                    Some(seen->Some_0.dirs[0])
                } else {
                    None
                },
                "completed-delete"@,
                Some("intent:"@ + candidate.id),
                0,
            ),
            limit,
        )
    } else {
        r
    }
}

/// The report after the first `n` deletion intents have been checked.
pub open spec fn with_all_completed(
    r: ReportView,
    candidates: Seq<IntentCandidateView>,
    seen: Seq<Option<DeletionView>>,
    n: nat,
    limit: usize,
) -> ReportView
    decreases n,
{
    if n == 0 {
        r
    } else {
        with_completed(
            with_all_completed(r, candidates, seen, (n - 1) as nat, limit),
            candidates[n - 1],
            seen[n - 1],
            limit,
        )
    }
}

/// The models of optional deletion observations.
pub open spec fn deletion_views(seen: Seq<Option<DeletionObservation>>) -> Seq<Option<DeletionView>> {
    seen.map_values(|o: Option<DeletionObservation>| text::opt_view(o))
}

fn all_true(flags: &Vec<bool>) -> (r: bool)
    ensures
        r == all_set(flags@),
{
    let mut i: usize = 0;
    while i < flags.len()
        invariant
            i <= flags@.len(),
            forall|j: int| 0 <= j < i ==> flags@[j] == true,
        decreases flags@.len() - i,
    {
        if !flags[i] {
            return false;
        }
        i = i + 1;
    }
    true
}

/// Whether everything that the intent deletes is gone.
pub fn targets_gone(seen: &DeletionObservation) -> (r: bool)
    ensures
        r == all_gone(seen@),
{
    all_true(&seen.files_absent) && all_true(&seen.dirs_absent)
}

/// Reports a deletion intent whose targets are all gone.
pub fn audit_completed_intent(
    candidate: &IntentRepairCandidate,
    seen: &Option<DeletionObservation>,
    report: &mut AuditReport,
    example_limit: usize,
)
    ensures
        final(report)@ == with_completed(
            old(report)@,
            candidate@,
            text::opt_view(*seen),
            example_limit,
        ),
{
    if !str_eq(candidate.kind.as_str(), "delete_files") {
        return ;
    }
    match seen {
        Some(gone) => {
            if targets_gone(gone) {
                assert(gone@.dirs.len() == gone.dirs@.len());
                let board = if gone.dirs.len() > 0 {
                    assert(gone@.dirs[0] == gone.dirs@[0]@);
                    Some(gone.dirs[0].clone())
                } else {
                    None
                };
                let example = make_example(
                    AuditClassification::CompletedIntent,
                    MediaCategory::Unknown,
                    board,
                    "completed-delete".to_owned(),
                    Some(concat("intent:", candidate.id.as_str())),
                    0,
                );
                report.show(example, example_limit);
            }
        },
        None => {},
    }
}

/// Reports the deletion intents whose targets are all gone.
pub fn audit_completed_intents(
    m: &ReferenceModel,
    seen: &Vec<Option<DeletionObservation>>,
    report: &mut AuditReport,
    example_limit: usize,
)
    requires
        seen@.len() == m@.intent_candidates.len(),
    ensures
        final(report)@ == with_all_completed(
            old(report)@,
            m@.intent_candidates,
            deletion_views(seen@),
            m@.intent_candidates.len(),
            example_limit,
        ),
{
    let ghost start = report@;
    let ghost all = m@.intent_candidates;
    let ghost obs = deletion_views(seen@);
    let mut i: usize = 0;
    while i < m.intent_candidates.len()
        invariant
            i <= m.intent_candidates@.len(),
            all == m@.intent_candidates,
            obs == deletion_views(seen@),
            seen@.len() == all.len(),
            report@ == with_all_completed(start, all, obs, i as nat, example_limit),
        decreases m.intent_candidates@.len() - i,
    {
        let candidate = &m.intent_candidates[i];
        assert(all[i as int] == candidate@);
        assert(obs[i as int] == text::opt_view(seen@[i as int]));
        audit_completed_intent(candidate, &seen[i], report, example_limit);
        i = i + 1;
    }
}

/// The state after the findings, every reference and every deletion intent have
/// been audited.
pub open spec fn references_audited(
    s: AuditState,
    seen: Seq<ObservationView>,
    deletions: Seq<Option<DeletionView>>,
    limit: usize,
) -> AuditState {
    let shown = AuditState {
        report: with_findings(s.report, s.model.findings, limit),
        ..s
    };
    let after = with_references(shown, seen, s.model.records.len(), limit);
    AuditState {
        report: with_all_completed(
            after.report,
            s.model.intent_candidates,
            deletions,
            s.model.intent_candidates.len(),
            limit,
        ),
        ..after
    }
}

proof fn lemma_references_keep_intents(
    s: AuditState,
    seen: Seq<ObservationView>,
    n: nat,
    limit: usize,
)
    ensures
        with_references(s, seen, n, limit).model.intent_candidates == s.model.intent_candidates,
    decreases n,
{
    if n > 0 {
        lemma_references_keep_intents(s, seen, (n - 1) as nat, limit);
    }
}

fn copy_record(record: &ReferenceRecord) -> (r: ReferenceRecord)
    ensures
        r@ == record@,
{
    ReferenceRecord {
        source: record.source,
        path: record.path.clone(),
        board: clone_opt(&record.board),
        category: record.category,
        role: record.role,
        owner: record.owner.clone(),
        expected_digest: clone_opt(&record.expected_digest),
        recoverable_source: clone_opt(&record.recoverable_source),
    }
}

/// Audits the findings, every reference and every deletion intent.
pub fn audit_references(
    m: &mut ReferenceModel,
    seen: &Vec<ReferenceObservation>,
    deletions: &Vec<Option<DeletionObservation>>,
    report: &mut AuditReport,
    budget: &mut HashBudget,
    example_limit: usize,
)
    requires
        seen@.len() == old(m)@.records.len(),
        deletions@.len() == old(m)@.intent_candidates.len(),
    ensures
        references_audited(
            AuditState {
                model: old(m)@,
                report: old(report)@,
                remaining: old(budget).remaining,
            },
            text::views(seen@),
            deletion_views(deletions@),
            example_limit,
        ) == (AuditState {
            model: final(m)@,
            report: final(report)@,
            remaining: final(budget).remaining,
        }),
{
    let ghost start = AuditState { model: m@, report: report@, remaining: budget.remaining };
    audit_findings(m, report, example_limit);
    let ghost shown = AuditState { model: m@, report: report@, remaining: budget.remaining };
    let ghost obs = text::views(seen@);
    let mut i: usize = 0;
    while i < m.records.len()
        invariant
            i <= m.records@.len(),
            obs == text::views(seen@),
            seen@.len() == shown.model.records.len(),
            m@.records == shown.model.records,
            with_references(shown, obs, i as nat, example_limit) == (AuditState {
                model: m@,
                report: report@,
                remaining: budget.remaining,
            }),
        decreases m.records@.len() - i,
    {
        assert(m@.records[i as int] == m.records@[i as int]@);
        assert(obs[i as int] == seen@[i as int]@);
        proof {
            lemma_references_keep_records(shown, obs, (i + 1) as nat, example_limit);
            assert(m.records@.len() == m@.records.len());
        }
        let record = copy_record(&m.records[i]);
        audit_reference(m, report, budget, &record, &seen[i], example_limit);
        assert(m.records@.len() == m@.records.len());
        i = i + 1;
    }
    proof {
        lemma_references_keep_intents(shown, obs, i as nat, example_limit);
    }
    audit_completed_intents(m, deletions, report, example_limit);
}

/// Whether a reference other than the owner's, and other than a digest row, needs the file.
pub open spec fn another_needs(records: Seq<RecordView>, path: Seq<char>, owner: Seq<char>) -> bool {
    exists|i: int|
        0 <= i < records.len() && (#[trigger] records[i]).path == path && model::is_needed_by(
            records[i].role,
        ) && records[i].owner != owner && !(records[i].owner.len() >= 5 && records[i].owner.take(5)
            == "hash:"@ && records[i].role is Metadata)
}

/// Whether a digest row refers to the file.
pub open spec fn is_described(records: Seq<RecordView>, path: Seq<char>) -> bool {
    exists|i: int|
        0 <= i < records.len() && (#[trigger] records[i]).path == path && !(
        records[i].role is TerminalMissing) && records[i].owner.len() >= 5
            && records[i].owner.take(5) == "hash:"@
}

proof fn lemma_claims_by_reference(records: Seq<RecordView>, path: Seq<char>, owner: Seq<char>)
    ensures
        needed_by_other(model::required_on(records, path), owner) <==> another_needs(
            records,
            path,
            owner,
        ),
        has_hash_claim(model::claims_on(records, path)) <==> is_described(records, path),
{
    reveal_strlit("hash:");
    assert("hash:"@.len() == 5);
    let required = model::required_on(records, path);
    let claims = model::claims_on(records, path);
    if needed_by_other(required, owner) {
        let k = choose|k: int|
            0 <= k < required.len() && (#[trigger] required[k]).owner != owner && (!text::begins(
                required[k].owner,
                "hash:"@,
            ) || !(required[k].role is Metadata));
        assert(required.contains(required[k]));
        model::law_claims_are_made_by_references(records, path, required[k]);
    }
    if another_needs(records, path, owner) {
        let i = choose|i: int|
            0 <= i < records.len() && (#[trigger] records[i]).path == path && model::is_needed_by(
                records[i].role,
            ) && records[i].owner != owner && !(records[i].owner.len() >= 5
                && records[i].owner.take(5) == "hash:"@ && records[i].role is Metadata);
        let claim = ClaimView {
            role: records[i].role,
            category: records[i].category,
            owner: records[i].owner,
        };
        model::law_claims_are_made_by_references(records, path, claim);
        let k = choose|k: int| 0 <= k < required.len() && required[k] == claim;
        assert(required[k].owner != owner);
    }
    if has_hash_claim(claims) {
        let k = choose|k: int|
            0 <= k < claims.len() && text::begins((#[trigger] claims[k]).owner, "hash:"@);
        assert(claims.contains(claims[k]));
        model::law_claims_are_made_by_references(records, path, claims[k]);
    }
    if is_described(records, path) {
        let i = choose|i: int|
            0 <= i < records.len() && (#[trigger] records[i]).path == path && !(
            records[i].role is TerminalMissing) && records[i].owner.len() >= 5
                && records[i].owner.take(5) == "hash:"@;
        let claim = ClaimView {
            role: records[i].role,
            category: records[i].category,
            owner: records[i].owner,
        };
        model::law_claims_are_made_by_references(records, path, claim);
        let k = choose|k: int| 0 <= k < claims.len() && claims[k] == claim;
        assert(text::begins(claims[k].owner, "hash:"@));
    }
}

/// What a file that is there is called: a conflict exactly where a digest row gives it
/// another digest, letters' case aside, than the one that was read within the budget; a
/// stale digest row exactly where no conflict is found and nothing but digest rows needs
/// it; an original without a digest row exactly where a post has it and none describes it;
/// and in order, or in progress, otherwise.
pub proof fn law_present_files_are_called_by_their_rows(
    records: Seq<RecordView>,
    record: RecordView,
    size: u64,
    digest: DigestView,
    remaining: u64,
)
    requires
        record.role is Active || record.role is Temporary || record.role is Metadata,
    ensures
        ({
            let c = existing_class(records, record, size, digest, remaining);
            let read = record.source is Hash && record.expected_digest is Some && size <= remaining;
            let differs = read && digest is Read && text::lower(digest->Read_0) != text::lower(
                record.expected_digest->Some_0,
            );
            let settled = !(read && digest is Failed) && !differs;
            &&& c is DigestConflict <==> differs
            &&& c is ScanError <==> read && digest is Failed
            &&& c is StaleHashUnreferenced <==> settled && record.source is Hash
                && record.category is Original && !another_needs(
                records,
                record.path,
                record.owner,
            )
            &&& c is MissingHashMetadata <==> record.source is Post && record.category is Original
                && !is_described(records, record.path)
            &&& record.source is Post && !(record.category is Original) ==> c == (
            if record.role is Temporary {
                AuditClassification::LifecycleInProgress
            } else {
                AuditClassification::Healthy
            })
            &&& c is Healthy ==> !(record.role is Temporary)
        }),
{
    lemma_claims_by_reference(records, record.path, record.owner);
}

/// A file that an intent deletes is on its way out, there or not; one that was removed on
/// purpose is gone, and is an inconsistency where it is there.
pub proof fn law_removed_files_are_told_apart(
    records: Seq<RecordView>,
    record: RecordView,
    size: u64,
    digest: DigestView,
    remaining: u64,
    source_present: bool,
)
    ensures
        record.role is ScheduledDeletion ==> existing_class(
            records,
            record,
            size,
            digest,
            remaining,
        ) is ScheduledDeletion && missing_class(record, source_present) is ScheduledDeletion,
        record.role is TerminalMissing ==> existing_class(
            records,
            record,
            size,
            digest,
            remaining,
        ) is IntentInconsistency && missing_class(
            record,
            source_present,
        ) is IntentionallyPrunedOriginal,
        record.role is Metadata ==> missing_class(record, source_present) is StaleHashMissingFile,
{
}

/// A missing file is reported by what it was: a post's by its kind; a job's as one that can
/// be made again exactly where its source is there; and an upload's, whose stage or
/// destination is missing, as in progress or installed exactly where the other is there.
pub proof fn law_missing_files_are_called_by_their_kind(record: RecordView, source_present: bool)
    requires
        record.role is Active || record.role is Temporary,
    ensures
        ({
            let c = missing_class(record, source_present);
            let there = record.recoverable_source is Some && source_present;
            let stage = record.role is Temporary && record.category is UploadStage;
            &&& record.source is Post && !stage && (record.category is Original
                || record.category is TranscodedOutput) ==> c is MissingPrimary
            &&& record.source is Post && record.category is Thumbnail ==> c is MissingThumbnail
            &&& record.source is Post && record.category is Waveform ==> c is MissingWaveform
            &&& record.source is Job && !stage ==> (c is RecoverableMissingDerived <==> there)
            &&& record.source is Job && !there && (record.category is Waveform
                || record.category is TranscodedOutput) ==> c is MissingDeterministicOutput
            &&& record.source is Job && !there && record.category is Original ==> c
                is UnrecoverableActiveReference
            &&& record.source is Intent && !stage ==> (c is LifecycleInProgress <==> there) && (
            c is IntentInconsistency <==> !there)
            &&& stage ==> (c is MissingStageInstalledDestination <==> there) && (
            c is IntentInconsistency <==> !there)
        }),
{
}

/// The budget pays for the digests that are read: by the file's size where a digest row
/// expects one, it fits the budget and could be read, and by nothing otherwise.
pub proof fn law_budget_pays_for_digests_only(
    records: Seq<RecordView>,
    record: RecordView,
    seen: ObservationView,
    remaining: u64,
)
    ensures
        ({
            let after = classified(records, record, seen, remaining).remaining;
            let paid = seen.file is Present && seen.file->size <= remaining && seen.file->digest
                is Read && record.source is Hash && record.expected_digest is Some && !(
            record.role is TerminalMissing) && !(record.role is ScheduledDeletion);
            &&& paid ==> after + seen.file->size == remaining
            &&& !paid ==> after == remaining
        }),
{
}

/// Each reference that is audited is counted, once, under its class with its size, and a
/// stale digest row is noted as one that can be repaired; no reference changes.
pub proof fn law_audited_references_are_counted(
    s: AuditState,
    record: RecordView,
    seen: ObservationView,
    limit: usize,
)
    requires
        s.report.references_examined < u64::MAX,
    ensures
        ({
            let after = with_reference(s, record, seen, limit);
            let c = classified(s.model.records, record, seen, s.remaining);
            &&& after.report.references_examined == s.report.references_examined + 1
            &&& after.report.count(c.class) >= s.report.count(c.class)
            &&& s.report.count(c.class) < u64::MAX ==> after.report.count(c.class)
                == s.report.count(c.class) + 1
            &&& after.report.paths_examined == s.report.paths_examined
            &&& after.report.incomplete == s.report.incomplete
            &&& after.model.records == s.model.records
            &&& after.model.hash_candidates.len() == s.model.hash_candidates.len()
            &&& !(record.source is Hash && record.category is Original) ==> after.model
                == s.model
        }),
{
    lemma_first_with_path(s.model.hash_candidates, record.path);
}

proof fn lemma_first_with_path(candidates: Seq<HashCandidateView>, path: Seq<char>)
    ensures
        match first_with_path(candidates, path) {
            Some(i) => 0 <= i < candidates.len() && candidates[i].file_path == path && forall|j: int|
                0 <= j < i ==> (#[trigger] candidates[j]).file_path != path,
            None => forall|j: int|
                0 <= j < candidates.len() ==> (#[trigger] candidates[j]).file_path != path,
        },
    decreases candidates.len(),
{
    if candidates.len() > 0 {
        let earlier = candidates.drop_last();
        lemma_first_with_path(earlier, path);
        assert forall|j: int| 0 <= j < earlier.len() implies #[trigger] candidates[j]
            == earlier[j] by {}
    }
}

/// The class of a digest row's file is noted on the first digest row of that path, and on no
/// other.
pub proof fn law_digest_rows_take_the_class_of_their_file(
    candidates: Seq<HashCandidateView>,
    path: Seq<char>,
    class: AuditClassification,
    i: int,
)
    requires
        0 <= i < candidates.len(),
    ensures
        ({
            let after = reclassified(candidates, path, class);
            let first = candidates[i].file_path == path && forall|j: int|
                0 <= j < i ==> (#[trigger] candidates[j]).file_path != path;
            &&& after.len() == candidates.len()
            &&& first ==> after[i].classification == class
            &&& !first ==> after[i] == candidates[i]
            &&& after[i].file_path == candidates[i].file_path && after[i].digest
                == candidates[i].digest
        }),
{
    lemma_first_with_path(candidates, path);
}

/// A deletion is reported as completed exactly where every file and directory that it
/// deletes is gone.
pub proof fn law_deletions_complete_when_all_is_gone(
    r: ReportView,
    candidate: IntentCandidateView,
    seen: DeletionView,
    limit: usize,
)
    requires
        candidate.kind == "delete_files"@,
        r.count(AuditClassification::CompletedIntent) < u64::MAX,
    ensures
        ({
            let gone = (forall|i: int|
                0 <= i < seen.files_absent.len() ==> (#[trigger] seen.files_absent[i]) == true) && (
            forall|i: int|
                0 <= i < seen.dirs_absent.len() ==> (#[trigger] seen.dirs_absent[i]) == true);
            let after = with_completed(r, candidate, Some(seen), limit);
            &&& gone ==> after.count(AuditClassification::CompletedIntent) == r.count(
                AuditClassification::CompletedIntent,
            ) + 1
            &&& !gone ==> after == r
        }),
{
}

/// What an intent deletes is gone when each of its files and each of its directories is: one
/// that is still there, whichever it is, is enough for it not to be.
pub proof fn law_all_is_gone_when_each_is_gone(seen: DeletionView, k: int)
    ensures
        0 <= k < seen.files_absent.len() && !seen.files_absent[k] ==> !all_gone(seen),
        0 <= k < seen.dirs_absent.len() && !seen.dirs_absent[k] ==> !all_gone(seen),
        (forall|i: int| 0 <= i < seen.files_absent.len() ==> #[trigger] seen.files_absent[i]) && (
        forall|i: int| 0 <= i < seen.dirs_absent.len() ==> #[trigger] seen.dirs_absent[i])
            ==> all_gone(seen),
{
}

} // verus!
