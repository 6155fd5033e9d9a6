//! Classification of walked entries, and the files that nothing claims.

use vstd::prelude::*;
use vstd::string::*;
use crate::text;
use crate::text::{clone_opt, concat, contains_char, list_holds, split_at_char, str_eq};
use super::audit;
use super::audit::{DigestReading, DigestView, HashBudget};
use super::inventory::{EntryView, InventoryEntry, InventoryEntryKind, InventoryPage, PageView};
use super::model;
use super::model::{path_category_from_claims, ClaimView, ModelView, ReferenceModel, ReferenceRole};
use super::report;
use super::report::{
    make_example, AuditClassification, AuditReport, MediaCategory, ReconcileCursor, ReportView,
};

verus! {

/// What tells one file from another.
#[derive(Debug, Clone, Copy, PartialEq, Eq, Structural)]
pub struct FileIdentity {
    pub size: u64,
    pub device: u64,
    pub inode: u64,
}

/// A file that nothing claims.
#[derive(Debug, Clone)]
pub struct OrphanCandidate {
    pub relative: String,
    pub board: String,
    pub category: MediaCategory,
    pub identity: FileIdentity,
    pub digest: Option<String>,
}

/// The model of a file that nothing claims.
#[verifier::ext_equal]
pub struct OrphanView {
    pub relative: Seq<char>,
    pub board: Seq<char>,
    pub category: MediaCategory,
    pub identity: FileIdentity,
    pub digest: Option<Seq<char>>,
}

impl View for OrphanCandidate {
    type V = OrphanView;

    open spec fn view(&self) -> OrphanView {
        OrphanView {
            relative: self.relative@,
            board: self.board@,
            category: self.category,
            identity: self.identity,
            digest: text::opt_view(self.digest),
        }
    }
}

/// What the filesystem says about a walked file.
#[derive(Debug, Clone)]
pub enum EntryProbe {
    /// The path is unsafe to follow.
    Unsafe,
    /// The file has gone.
    Missing,
    /// A regular file is there. Its digest counts only where it is needed and
    /// the budget allows reading it.
    Present { identity: FileIdentity, digest: DigestReading },
}

/// What was observed of a walked entry.
#[derive(Debug, Clone)]
pub struct EntryObservation {
    /// The entry's size, for entries that are no plain files.
    pub bytes: u64,
    /// The file itself.
    pub file: EntryProbe,
}

/// The model of a file probe.
pub enum EntryProbeView {
    Unsafe,
    Missing,
    Present { identity: FileIdentity, digest: DigestView },
}

/// The model of an observation.
pub struct EntrySeen {
    pub bytes: u64,
    pub file: EntryProbeView,
}

impl View for EntryProbe {
    type V = EntryProbeView;

    open spec fn view(&self) -> EntryProbeView {
        match self {
            EntryProbe::Unsafe => EntryProbeView::Unsafe,
            EntryProbe::Missing => EntryProbeView::Missing,
            EntryProbe::Present { identity, digest } => EntryProbeView::Present {
                identity: *identity,
                digest: digest@,
            },
        }
    }
}

impl View for EntryObservation {
    type V = EntrySeen;

    open spec fn view(&self) -> EntrySeen {
        EntrySeen { bytes: self.bytes, file: self.file@ }
    }
}

/// What an entry is by its kind alone.
pub open spec fn kind_class(kind: InventoryEntryKind) -> AuditClassification {
    match kind {
        InventoryEntryKind::File => AuditClassification::Healthy,
        InventoryEntryKind::Symlink => AuditClassification::UnsafeSymlink,
        InventoryEntryKind::HardLink => AuditClassification::UnsafeHardLink,
        InventoryEntryKind::UnexpectedDirectory => AuditClassification::UnexpectedDirectory,
        InventoryEntryKind::Special => AuditClassification::UnsafeSpecialEntry,
        InventoryEntryKind::UnsafePath => AuditClassification::UnsafePath,
        InventoryEntryKind::CrossBoard => AuditClassification::CrossBoardPath,
        InventoryEntryKind::ScanError => AuditClassification::ScanError,
    }
}

/// What an entry is by its kind alone.
pub fn classification_for_entry_kind(kind: InventoryEntryKind) -> (r: AuditClassification)
    ensures
        r == kind_class(kind),
{
    match kind {
        InventoryEntryKind::File => AuditClassification::Healthy,
        InventoryEntryKind::Symlink => AuditClassification::UnsafeSymlink,
        InventoryEntryKind::HardLink => AuditClassification::UnsafeHardLink,
        InventoryEntryKind::UnexpectedDirectory => AuditClassification::UnexpectedDirectory,
        InventoryEntryKind::Special => AuditClassification::UnsafeSpecialEntry,
        InventoryEntryKind::UnsafePath => AuditClassification::UnsafePath,
        InventoryEntryKind::CrossBoard => AuditClassification::CrossBoardPath,
        InventoryEntryKind::ScanError => AuditClassification::ScanError,
    }
}

/// Whether the path's place says that the board owns it: the first component,
/// or the third for a staged upload.
pub open spec fn place_matches(relative: Seq<char>, board: Seq<char>, category: MediaCategory) -> bool {
    let parts = text::split(relative, '/');
    if category is UploadStage {
        parts.len() > 2 && parts[2] == board
    } else {
        parts[0] == board
    }
}

/// Whether the path's place says that the board owns it.
pub fn relative_board_matches(relative: &str, board: &str, category: MediaCategory) -> (r: bool)
    ensures
        r == place_matches(relative@, board@, category),
{
    let parts = split_at_char(relative, '/');
    let ghost all = text::views(parts@);
    if category == MediaCategory::UploadStage {
        if parts.len() > 2 {
            assert(all[2] == parts@[2]@);
            str_eq(parts[2].as_str(), board)
        } else {
            false
        }
    } else {
        assert(all[0] == parts@[0]@);
        str_eq(parts[0].as_str(), board)
    }
}

/// The board, where it is a known one.
pub open spec fn known_board(m: ModelView, board: Option<Seq<char>>) -> Option<Seq<char>> {
    match board {
        Some(b) => if text::holds(m.boards, b) {
            Some(b)
        } else {
            None
        },
        None => None,
    }
}

/// The report after an entry has been shown under a classification.
pub open spec fn with_inventory_entry(
    m: ModelView,
    r: ReportView,
    entry: EntryView,
    class: AuditClassification,
    bytes: u64,
    limit: usize,
) -> ReportView {
    r.shown(
        report::example(
            class,
            entry.category,
            known_board(m, entry.board),
            match entry.path.text {
                Some(relative) => relative,
                None => "redacted-entry:"@ + entry.sort_key,
            },
            None,
            bytes,
        ),
        limit,
    )
}

/// Shows an entry under a classification, category and board.
pub fn record_inventory_entry(
    m: &ReferenceModel,
    report: &mut AuditReport,
    entry: &InventoryEntry,
    category: MediaCategory,
    board: Option<String>,
    class: AuditClassification,
    bytes: u64,
    example_limit: usize,
)
    ensures
        final(report)@ == with_inventory_entry(
            m@,
            old(report)@,
            EntryView { category, board: text::opt_view(board), ..entry@ },
            class,
            bytes,
            example_limit,
        ),
{
    let managed_id = match &entry.path.text {
        Some(relative) => relative.clone(),
        None => concat("redacted-entry:", entry.sort_key.as_str()),
    };
    let known = match board {
        Some(b) => if list_holds(&m.boards, b.as_str()) {
            Some(b)
        } else {
            None
        },
        None => None,
    };
    let example = make_example(class, category, known, managed_id, None, bytes);
    report.show(example, example_limit);
}

/// Whether some claim is temporary.
pub open spec fn any_temporary(claims: Seq<ClaimView>) -> bool {
    exists|i: int| 0 <= i < claims.len() && (#[trigger] claims[i]).role is Temporary
}

/// The board shown for a claimed entry: its own, or the one that its path
/// begins with.
pub open spec fn claimed_board(
    m: ModelView,
    entry: EntryView,
    relative: Seq<char>,
    first: ClaimView,
) -> Option<Seq<char>> {
    if entry.board is Some {
        entry.board
    } else if first.owner.contains(':') {
        known_board(m, Some(text::split(relative, '/')[0]))
    } else {
        None
    }
}

/// Whether an intent covers the entry.
pub open spec fn is_scheduled(m: ModelView, entry: EntryView, relative: Seq<char>) -> bool {
    model::scheduled_on(m.records, relative) || (entry.board is Some && text::holds(
        m.scheduled_boards,
        entry.board->Some_0,
    ))
}

/// Whether the entry's place contradicts its board.
pub open spec fn board_conflict(
    m: ModelView,
    entry: EntryView,
    relative: Seq<char>,
    category: MediaCategory,
) -> bool {
    entry.board is Some && (text::holds(m.case_conflict_boards, entry.board->Some_0)
        || !place_matches(relative, entry.board->Some_0, category))
}

/// What an unclaimed file that is there turns out to be, where it is no orphan
/// candidate.
pub open spec fn unclaimed_class(
    m: ModelView,
    incomplete: bool,
    entry: EntryView,
    relative: Seq<char>,
    category: MediaCategory,
) -> Option<AuditClassification> {
    if is_scheduled(m, entry, relative) {
        Some(AuditClassification::ScheduledDeletion)
    } else if board_conflict(m, entry, relative, category) {
        Some(AuditClassification::CrossBoardPath)
    } else if entry.board is None || category is UploadStage || m.global_ambiguity || m.incomplete
        || incomplete {
        Some(AuditClassification::AmbiguousOrphan)
    } else {
        None
    }
}

/// Whether the entry is a file that nothing claims, in a snapshot that can be
/// trusted.
pub open spec fn is_orphan(m: ModelView, incomplete: bool, entry: EntryView, seen: EntrySeen) -> bool {
    &&& entry.entry_kind is File
    &&& entry.path.text is Some
    &&& seen.file is Present
    &&& model::required_on(m.records, entry.path.text->Some_0).len() == 0
    &&& unclaimed_class(
        m,
        incomplete,
        entry,
        entry.path.text->Some_0,
        model::claimed_category(m.records, entry.path.text->Some_0, entry.category),
    ) is None
}

/// The state that auditing entries changes.
pub struct OrphanState {
    pub report: ReportView,
    pub remaining: u64,
    pub orphans: Seq<OrphanView>,
}

/// What auditing one entry comes to.
pub struct EntryOutcome {
    pub report: ReportView,
    pub remaining: u64,
    pub orphan: Option<OrphanView>,
}

/// The outcome of showing an entry.
pub open spec fn shown_only(report: ReportView, remaining: u64) -> EntryOutcome {
    EntryOutcome { report, remaining, orphan: None }
}

/// What auditing one entry comes to.
pub open spec fn entry_outcome(
    m: ModelView,
    before: ReportView,
    remaining: u64,
    entry: EntryView,
    seen: EntrySeen,
    limit: usize,
) -> EntryOutcome {
    let r = ReportView {
        paths_examined: report::saturated(before.paths_examined as int, 1),
        ..before
    };
    if !(entry.entry_kind is File) {
        shown_only(
            with_inventory_entry(m, r, entry, kind_class(entry.entry_kind), seen.bytes, limit),
            remaining,
        )
    } else if entry.path.text is None || seen.file is Unsafe {
        shown_only(
            with_inventory_entry(m, r, entry, AuditClassification::UnsafePath, 0, limit),
            remaining,
        )
    } else if seen.file is Missing {
        shown_only(
            with_inventory_entry(m, r, entry, AuditClassification::ScanError, 0, limit),
            remaining,
        )
    } else {
        let relative = entry.path.text->Some_0;
        let identity = seen.file->identity;
        let digest = seen.file->digest;
        let category = model::claimed_category(m.records, relative, entry.category);
        let required = model::required_on(m.records, relative);
        let placed = EntryView { category, ..entry };
        if required.len() > 0 {
            shown_only(
                with_inventory_entry(
                    m,
                    r,
                    EntryView {
                        board: claimed_board(m, entry, relative, required[0]),
                        ..placed
                    },
                    if any_temporary(required) {
                        AuditClassification::LifecycleInProgress
                    } else {
                        AuditClassification::Healthy
                    },
                    identity.size,
                    limit,
                ),
                remaining,
            )
        } else {
            match unclaimed_class(m, before.incomplete, entry, relative, category) {
                Some(class) => shown_only(
                    with_inventory_entry(m, r, placed, class, identity.size, limit),
                    remaining,
                ),
                None => EntryOutcome {
                    report: r,
                    remaining: audit::budget_after(remaining, identity.size, digest),
                    orphan: Some(
                        OrphanView {
                            relative,
                            board: entry.board->Some_0,
                            category,
                            identity,
                            digest: if identity.size <= remaining && digest is Read {
                                Some(digest->Read_0)
                            } else {
                                None
                            },
                        },
                    ),
                },
            }
        }
    }
}

/// The state after one entry has been audited.
pub open spec fn with_audited_entry(
    m: ModelView,
    s: OrphanState,
    entry: EntryView,
    seen: EntrySeen,
    limit: usize,
) -> OrphanState {
    let outcome = entry_outcome(m, s.report, s.remaining, entry, seen, limit);
    OrphanState {
        report: outcome.report,
        remaining: outcome.remaining,
        orphans: match outcome.orphan {
            Some(orphan) => s.orphans.push(orphan),
            None => s.orphans,
        },
    }
}

/// The state after the first `n` entries have been audited.
pub open spec fn with_audited_entries(
    m: ModelView,
    s: OrphanState,
    entries: Seq<EntryView>,
    seen: Seq<EntrySeen>,
    n: nat,
    limit: usize,
) -> OrphanState
    decreases n,
{
    if n == 0 {
        s
    } else {
        with_audited_entry(
            m,
            with_audited_entries(m, s, entries, seen, (n - 1) as nat, limit),
            entries[n - 1],
            seen[n - 1],
            limit,
        )
    }
}

/// The report after the errors of a page.
pub open spec fn with_page_errors(r: ReportView, errors: Seq<Seq<char>>, limit: usize) -> ReportView
    decreases errors.len(),
{
    if errors.len() == 0 {
        r
    } else {
        with_page_errors(r, errors.drop_last(), limit).with_error(errors.last(), limit)
    }
}

/// The report once a page is about to be audited.
pub open spec fn with_page(r: ReportView, page: PageView, limit: usize) -> ReportView {
    ReportView {
        next_cursor: if page.has_more {
            page.last_key
        } else {
            None
        },
        ..with_page_errors(
            ReportView { boards_examined: page.boards_examined, ..r },
            page.errors,
            limit,
        )
    }
}

/// The state after a page has been audited.
pub open spec fn inventory_audited(
    m: ModelView,
    r: ReportView,
    remaining: u64,
    page: PageView,
    seen: Seq<EntrySeen>,
    limit: usize,
) -> OrphanState {
    with_audited_entries(
        m,
        OrphanState { report: with_page(r, page, limit), remaining, orphans: Seq::empty() },
        page.entries,
        seen,
        page.entries.len(),
        limit,
    )
}

/// No file that a live row, a digest row or work in progress claims becomes an
/// orphan candidate, nor any file while the snapshot or the scan is ambiguous.
pub proof fn law_claimed_files_are_never_orphans(
    m: ModelView,
    s: OrphanState,
    entry: EntryView,
    seen: EntrySeen,
    limit: usize,
)
    requires
        m.global_ambiguity || m.incomplete || s.report.incomplete || (entry.path.text is Some
            && model::required_on(m.records, entry.path.text->Some_0).len() > 0),
    ensures
        with_audited_entry(m, s, entry, seen, limit).orphans == s.orphans,
{
}

/// Every orphan candidate of a page is a known board's file in that board's own
/// place, claimed by nothing and covered by no intent.
pub proof fn law_orphans_are_unclaimed(
    m: ModelView,
    s: OrphanState,
    entries: Seq<EntryView>,
    seen: Seq<EntrySeen>,
    n: nat,
    limit: usize,
)
    requires
        n <= entries.len(),
        forall|i: int|
            0 <= i < s.orphans.len() ==> unclaimed(m, #[trigger] s.orphans[i]),
    ensures
        forall|i: int|
            0 <= i < with_audited_entries(m, s, entries, seen, n, limit).orphans.len()
                ==> unclaimed(
                m,
                #[trigger] with_audited_entries(m, s, entries, seen, n, limit).orphans[i],
            ),
    decreases n,
{
    if n > 0 {
        law_orphans_are_unclaimed(m, s, entries, seen, (n - 1) as nat, limit);
    }
}

/// Whether nothing in the snapshot claims the file, and its place fits its board.
pub open spec fn unclaimed(m: ModelView, orphan: OrphanView) -> bool {
    &&& model::required_on(m.records, orphan.relative).len() == 0
    &&& !model::scheduled_on(m.records, orphan.relative)
    &&& !text::holds(m.scheduled_boards, orphan.board)
    &&& !text::holds(m.case_conflict_boards, orphan.board)
    &&& place_matches(orphan.relative, orphan.board, orphan.category)
    &&& !m.global_ambiguity
    &&& !m.incomplete
}

fn has_temporary(claims: &Vec<model::PathClaim>) -> (r: bool)
    ensures
        r == any_temporary(text::views(claims@)),
{
    let ghost all = text::views(claims@);
    let mut i: usize = 0;
    while i < claims.len()
        invariant
            i <= claims@.len(),
            all == text::views(claims@),
            forall|j: int| 0 <= j < i ==> !((#[trigger] all[j]).role is Temporary),
        decreases claims@.len() - i,
    {
        assert(all[i as int] == claims@[i as int]@);
        if claims[i].role == ReferenceRole::Temporary {
            return true;
        }
        i = i + 1;
    }
    false
}

fn board_of_claimed(
    m: &ReferenceModel,
    entry: &InventoryEntry,
    relative: &str,
    first: &model::PathClaim,
) -> (r: Option<String>)
    ensures
        text::opt_view(r) == claimed_board(m@, entry@, relative@, first@),
{
    if entry.board.is_some() {
        return clone_opt(&entry.board);
    }
    if !contains_char(first.owner.as_str(), ':') {
        return None;
    }
    let parts = split_at_char(relative, '/');
    assert(text::views(parts@)[0] == parts@[0]@);
    if list_holds(&m.boards, parts[0].as_str()) {
        Some(parts[0].clone())
    } else {
        None
    }
}

fn scheduled(m: &ReferenceModel, entry: &InventoryEntry, relative: &str) -> (r: bool)
    ensures
        r == is_scheduled(m@, entry@, relative@),
{
    if m.scheduled_claim(relative) {
        return true;
    }
    match &entry.board {
        Some(board) => list_holds(&m.scheduled_boards, board.as_str()),
        None => false,
    }
}

fn conflicts_with_board(
    m: &ReferenceModel,
    entry: &InventoryEntry,
    relative: &str,
    category: MediaCategory,
) -> (r: bool)
    ensures
        r == board_conflict(m@, entry@, relative@, category),
{
    match &entry.board {
        Some(board) => list_holds(&m.case_conflict_boards, board.as_str())
            || !relative_board_matches(relative, board.as_str(), category),
        None => false,
    }
}

/// What an unclaimed file turns out to be, where it is no orphan candidate.
fn classify_unclaimed(
    m: &ReferenceModel,
    incomplete: bool,
    entry: &InventoryEntry,
    relative: &str,
    category: MediaCategory,
) -> (r: Option<AuditClassification>)
    ensures
        r == unclaimed_class(m@, incomplete, entry@, relative@, category),
{
    if scheduled(m, entry, relative) {
        Some(AuditClassification::ScheduledDeletion)
    } else if conflicts_with_board(m, entry, relative, category) {
        Some(AuditClassification::CrossBoardPath)
    } else if entry.board.is_none() || category == MediaCategory::UploadStage || m.global_ambiguity
        || m.incomplete || incomplete {
        Some(AuditClassification::AmbiguousOrphan)
    } else {
        None
    }
}

/// Whether the entry's digest must be read: it is a file that nothing claims, of
/// a size that the budget allows.
pub fn entry_wants_digest(
    m: &ReferenceModel,
    report: &AuditReport,
    entry: &InventoryEntry,
    size: u64,
    budget: &HashBudget,
) -> (r: bool)
    ensures
        r == (entry.entry_kind is File && entry@.path.text is Some && model::required_on(
            m@.records,
            entry@.path.text->Some_0,
        ).len() == 0 && unclaimed_class(
            m@,
            report@.incomplete,
            entry@,
            entry@.path.text->Some_0,
            model::claimed_category(m@.records, entry@.path.text->Some_0, entry.category),
        ) is None && size <= budget.remaining),
{
    if entry.entry_kind != InventoryEntryKind::File || !budget.allows(size) {
        return false;
    }
    match &entry.path.text {
        Some(relative) => {
            let required = m.required_claims(relative.as_str());
            assert(text::views(required@).len() == required@.len());
            let category = path_category_from_claims(m, relative.as_str(), entry.category);
            required.len() == 0 && classify_unclaimed(
                m,
                report.incomplete,
                entry,
                relative.as_str(),
                category,
            ).is_none()
        },
        None => false,
    }
}

/// Audits one entry; a file that nothing claims comes back as a candidate.
pub fn audit_entry(
    m: &ReferenceModel,
    report: &mut AuditReport,
    budget: &mut HashBudget,
    entry: &InventoryEntry,
    seen: &EntryObservation,
    example_limit: usize,
) -> (r: Option<OrphanCandidate>)
    ensures
        entry_outcome(
            m@,
            old(report)@,
            old(budget).remaining,
            entry@,
            seen@,
            example_limit,
        ) == (EntryOutcome {
            report: final(report)@,
            remaining: final(budget).remaining,
            orphan: text::opt_view(r),
        }),
        r is Some <==> is_orphan(m@, old(report)@.incomplete, entry@, seen@),
{
    report.paths_examined = report.paths_examined.saturating_add(1);
    let board = clone_opt(&entry.board);
    if entry.entry_kind != InventoryEntryKind::File {
        let class = classification_for_entry_kind(entry.entry_kind);
        record_inventory_entry(
            m,
            report,
            entry,
            entry.category,
            board,
            class,
            seen.bytes,
            example_limit,
        );
        return None;
    }
    let relative = match &entry.path.text {
        Some(relative) => relative.as_str(),
        None => {
            record_inventory_entry(
                m,
                report,
                entry,
                entry.category,
                board,
                AuditClassification::UnsafePath,
                0,
                example_limit,
            );
            return None;
        },
    };
    let (identity, digest) = match &seen.file {
        EntryProbe::Present { identity, digest } => (*identity, digest),
        EntryProbe::Unsafe => {
            record_inventory_entry(
                m,
                report,
                entry,
                entry.category,
                board,
                AuditClassification::UnsafePath,
                0,
                example_limit,
            );
            return None;
        },
        EntryProbe::Missing => {
            record_inventory_entry(
                m,
                report,
                entry,
                entry.category,
                board,
                AuditClassification::ScanError,
                0,
                example_limit,
            );
            return None;
        },
    };
    let category = path_category_from_claims(m, relative, entry.category);
    let required = m.required_claims(relative);
    let ghost claims = text::views(required@);
    if required.len() > 0 {
        assert(claims[0] == required@[0]@);
        let class = if has_temporary(&required) {
            AuditClassification::LifecycleInProgress
        } else {
            AuditClassification::Healthy
        };
        let shown = board_of_claimed(m, entry, relative, &required[0]);
        record_inventory_entry(
            m,
            report,
            entry,
            category,
            shown,
            class,
            identity.size,
            example_limit,
        );
        return None;
    }
    assert(claims.len() == 0);
    match classify_unclaimed(m, report.incomplete, entry, relative, category) {
        Some(class) => {
            record_inventory_entry(
                m,
                report,
                entry,
                category,
                board,
                class,
                identity.size,
                example_limit,
            );
            None
        },
        None => match board {
            Some(board) => {
                let digest = match budget.hash_if_bounded(identity.size, digest) {
                    Ok(digest) => digest,
                    Err(_) => None,
                };
                Some(
                    OrphanCandidate {
                        relative: relative.to_owned(),
                        board,
                        category,
                        identity,
                        digest,
                    },
                )
            },
            None => None,
        },
    }
}

/// Takes over a page's errors, board count and cursor.
pub fn begin_inventory(page: &InventoryPage, report: &mut AuditReport, example_limit: usize)
    ensures
        final(report)@ == with_page(old(report)@, page@, example_limit),
{
    report.boards_examined = page.boards_examined;
    let ghost start = report@;
    let ghost all = page@.errors;
    let mut i: usize = 0;
    assert(all.take(0) =~= Seq::<Seq<char>>::empty());
    while i < page.errors.len()
        invariant
            i <= page.errors@.len(),
            all == page@.errors,
            report@ == with_page_errors(start, all.take(i as int), example_limit),
        decreases page.errors@.len() - i,
    {
        assert(all.take(i as int + 1).drop_last() =~= all.take(i as int));
        assert(all.take(i as int + 1).last() == page.errors@[i as int]@);
        report.error(page.errors[i].clone(), example_limit);
        i = i + 1;
    }
    assert(all.take(all.len() as int) =~= all);
    report.next_cursor = if page.has_more {
        ReconcileCursor { after_managed_key: clone_opt(&page.last_key) }
    } else {
        ReconcileCursor { after_managed_key: None }
    };
}

/// Audits a page and returns the files that nothing claims.
pub fn audit_inventory(
    m: &ReferenceModel,
    page: &InventoryPage,
    seen: &Vec<EntryObservation>,
    report: &mut AuditReport,
    budget: &mut HashBudget,
    example_limit: usize,
) -> (r: Vec<OrphanCandidate>)
    requires
        seen@.len() == page@.entries.len(),
    ensures
        inventory_audited(
            m@,
            old(report)@,
            old(budget).remaining,
            page@,
            text::views(seen@),
            example_limit,
        ) == (OrphanState {
            report: final(report)@,
            remaining: final(budget).remaining,
            orphans: text::views(r@),
        }),
{
    broadcast use text::group_views;

    begin_inventory(page, report, example_limit);
    let mut orphans: Vec<OrphanCandidate> = Vec::new();
    let ghost start = OrphanState {
        report: report@,
        remaining: budget.remaining,
        orphans: text::views(orphans@),
    };
    let ghost entries = page@.entries;
    let ghost obs = text::views(seen@);
    let mut i: usize = 0;
    while i < page.entries.len()
        invariant
            i <= page.entries@.len(),
            entries == page@.entries,
            obs == text::views(seen@),
            seen@.len() == entries.len(),
            with_audited_entries(m@, start, entries, obs, i as nat, example_limit) == (
            OrphanState {
                report: report@,
                remaining: budget.remaining,
                orphans: text::views(orphans@),
            }),
        decreases page.entries@.len() - i,
    {
        broadcast use text::group_views;

        assert(entries[i as int] == page.entries@[i as int]@);
        assert(obs[i as int] == seen@[i as int]@);
        let ghost before = OrphanState {
            report: report@,
            remaining: budget.remaining,
            orphans: text::views(orphans@),
        };
        match audit_entry(m, report, budget, &page.entries[i], &seen[i], example_limit) {
            Some(orphan) => {
                orphans.push(orphan);
            },
            None => {},
        }
        assert(with_audited_entry(m@, before, entries[i as int], obs[i as int], example_limit) == (
        OrphanState {
            report: report@,
            remaining: budget.remaining,
            orphans: text::views(orphans@),
        }));
        i = i + 1;
    }
    orphans
}

/// The report after the orphan candidates have been shown.
pub open spec fn with_orphans(
    r: ReportView,
    orphans: Seq<OrphanView>,
    stable: bool,
    limit: usize,
) -> ReportView
    decreases orphans.len(),
{
    if orphans.len() == 0 {
        r
    } else {
        let o = orphans.last();
        with_orphans(r, orphans.drop_last(), stable, limit).shown(
            report::example(
                if stable {
                    AuditClassification::SafeOrphanCandidate
                } else {
                    AuditClassification::AmbiguousOrphan
                },
                o.category,
                Some(o.board),
                o.relative,
                None,
                o.identity.size,
            ),
            limit,
        )
    }
}

/// Shows the orphan candidates: safe ones where the scan was stable.
pub fn finalize_orphan_classifications(
    candidates: &Vec<OrphanCandidate>,
    stable: bool,
    report: &mut AuditReport,
    example_limit: usize,
)
    ensures
        final(report)@ == with_orphans(
            old(report)@,
            text::views(candidates@),
            stable,
            example_limit,
        ),
{
    let class = if stable {
        AuditClassification::SafeOrphanCandidate
    } else {
        AuditClassification::AmbiguousOrphan
    };
    let ghost start = report@;
    let ghost all = text::views(candidates@);
    let mut i: usize = 0;
    assert(all.take(0) =~= Seq::<OrphanView>::empty());
    while i < candidates.len()
        invariant
            i <= candidates@.len(),
            all == text::views(candidates@),
            class == (if stable {
                AuditClassification::SafeOrphanCandidate
            } else {
                AuditClassification::AmbiguousOrphan
            }),
            report@ == with_orphans(start, all.take(i as int), stable, example_limit),
        decreases candidates@.len() - i,
    {
        let candidate = &candidates[i];
        assert(all.take(i as int + 1).drop_last() =~= all.take(i as int));
        assert(all.take(i as int + 1).last() == candidate@);
        let example = make_example(
            class,
            candidate.category,
            Some(candidate.board.clone()),
            candidate.relative.clone(),
            None,
            candidate.identity.size,
        );
        report.show(example, example_limit);
        i = i + 1;
    }
    assert(all.take(all.len() as int) =~= all);
}

/// Whether a reference needs the path's file to be there.
pub open spec fn is_needed(m: ModelView, path: Seq<char>) -> bool {
    exists|i: int|
        0 <= i < m.records.len() && (#[trigger] m.records[i]).path == path && (
        m.records[i].role is Active || m.records[i].role is Temporary
            || m.records[i].role is Metadata)
}

/// Whether work in progress needs the path's file.
pub open spec fn is_in_progress(m: ModelView, path: Seq<char>) -> bool {
    exists|i: int|
        0 <= i < m.records.len() && (#[trigger] m.records[i]).path == path
            && m.records[i].role is Temporary
}

/// Whether an intent deletes the path's file.
pub open spec fn is_to_be_deleted(m: ModelView, path: Seq<char>) -> bool {
    exists|i: int|
        0 <= i < m.records.len() && (#[trigger] m.records[i]).path == path
            && m.records[i].role is ScheduledDeletion
}

proof fn lemma_needed(m: ModelView, path: Seq<char>)
    ensures
        model::required_on(m.records, path).len() > 0 <==> is_needed(m, path),
        any_temporary(model::required_on(m.records, path)) <==> is_in_progress(m, path),
{
    let required = model::required_on(m.records, path);
    if required.len() > 0 {
        assert(required.contains(required[0]));
        model::law_claims_are_made_by_references(m.records, path, required[0]);
    }
    if is_needed(m, path) {
        let i = choose|i: int|
            0 <= i < m.records.len() && (#[trigger] m.records[i]).path == path && (
            m.records[i].role is Active || m.records[i].role is Temporary
                || m.records[i].role is Metadata);
        model::law_claims_are_made_by_references(
            m.records,
            path,
            ClaimView {
                role: m.records[i].role,
                category: m.records[i].category,
                owner: m.records[i].owner,
            },
        );
        assert(required.len() > 0);
    }
    if any_temporary(required) {
        let k = choose|k: int| 0 <= k < required.len() && (#[trigger] required[k]).role is Temporary;
        assert(required.contains(required[k]));
        model::law_claims_are_made_by_references(m.records, path, required[k]);
    }
    if is_in_progress(m, path) {
        let i = choose|i: int|
            0 <= i < m.records.len() && (#[trigger] m.records[i]).path == path
                && m.records[i].role is Temporary;
        let claim = ClaimView {
            role: m.records[i].role,
            category: m.records[i].category,
            owner: m.records[i].owner,
        };
        model::law_claims_are_made_by_references(m.records, path, claim);
        let k = choose|k: int| 0 <= k < required.len() && required[k] == claim;
        assert(required[k].role is Temporary);
    }
}

/// A file that is there becomes an orphan candidate exactly where no reference needs it and
/// no intent covers it or its board, it is in its own board's place, its board is known and
/// spelled in one way, it is no part of an upload's stage, and nothing about the snapshot or
/// the walk is in doubt. A candidate is the file that was seen, with the digest that was
/// read within the budget.
pub proof fn law_orphans_are_exactly_what_nothing_covers(
    m: ModelView,
    before: ReportView,
    remaining: u64,
    entry: EntryView,
    seen: EntrySeen,
    limit: usize,
)
    requires
        entry.entry_kind is File,
        entry.path.text is Some,
        seen.file is Present,
    ensures
        ({
            let path = entry.path.text->Some_0;
            let category = model::claimed_category(m.records, path, entry.category);
            let outcome = entry_outcome(m, before, remaining, entry, seen, limit);
            &&& outcome.orphan is Some <==> {
                &&& !is_needed(m, path)
                &&& !is_to_be_deleted(m, path)
                &&& entry.board is Some
                &&& !m.scheduled_boards.contains(entry.board->Some_0)
                &&& !m.case_conflict_boards.contains(entry.board->Some_0)
                &&& !(category is UploadStage)
                &&& text::split(path, '/')[0] == entry.board->Some_0
                &&& !m.global_ambiguity && !m.incomplete && !before.incomplete
            }
            &&& outcome.orphan is Some ==> {
                let orphan = outcome.orphan->Some_0;
                &&& orphan.relative == path
                &&& Some(orphan.board) == entry.board
                &&& orphan.identity == seen.file->identity
                &&& orphan.digest is Some <==> orphan.identity.size <= remaining
                    && seen.file->digest is Read
                &&& orphan.digest is Some ==> orphan.digest->Some_0 == seen.file->digest->Read_0
                    && outcome.remaining + orphan.identity.size == remaining
                &&& orphan.digest is None ==> outcome.remaining == remaining
            }
        }),
{
    lemma_needed(m, entry.path.text->Some_0);
}

/// Each entry is counted once, as one path, under what it is: a file that is needed as in
/// progress where work needs it and as in order otherwise; one that an intent covers as
/// scheduled; one in another board's place as such; and what is no plain file by its kind.
/// An orphan candidate is not counted until the pass knows whether it is safe.
pub proof fn law_entries_are_counted_by_what_they_are(
    m: ModelView,
    before: ReportView,
    remaining: u64,
    entry: EntryView,
    seen: EntrySeen,
    limit: usize,
    class: AuditClassification,
)
    requires
        before.paths_examined < u64::MAX,
        before.count(class) < u64::MAX,
        entry.path.text is Some,
    ensures
        ({
            let path = entry.path.text->Some_0;
            let category = model::claimed_category(m.records, path, entry.category);
            let outcome = entry_outcome(m, before, remaining, entry, seen, limit);
            let counted = outcome.report.count(class) == before.count(class) + 1;
            let plain = entry.entry_kind is File && seen.file is Present;
            let misplaced = entry.board is Some && (m.case_conflict_boards.contains(
                entry.board->Some_0,
            ) || !place_matches(path, entry.board->Some_0, category));
            let scheduled = is_to_be_deleted(m, path) || (entry.board is Some
                && m.scheduled_boards.contains(entry.board->Some_0));
            &&& outcome.report.paths_examined == before.paths_examined + 1
            &&& counted || outcome.report.count(class) == before.count(class)
            &&& plain && is_needed(m, path) ==> (counted <==> class == if is_in_progress(m, path) {
                AuditClassification::LifecycleInProgress
            } else {
                AuditClassification::Healthy
            })
            &&& plain && !is_needed(m, path) && scheduled ==> (counted <==> class
                == AuditClassification::ScheduledDeletion)
            &&& plain && !is_needed(m, path) && !scheduled && misplaced ==> (counted <==> class
                == AuditClassification::CrossBoardPath)
            &&& plain && !is_needed(m, path) && !scheduled && !misplaced && outcome.orphan is None
                ==> (counted <==> class == AuditClassification::AmbiguousOrphan)
            &&& outcome.orphan is Some ==> !counted
            &&& entry.entry_kind is File && seen.file is Unsafe ==> (counted <==> class
                == AuditClassification::UnsafePath)
            &&& entry.entry_kind is File && seen.file is Missing ==> (counted <==> class
                == AuditClassification::ScanError)
            &&& entry.entry_kind is Symlink ==> (counted <==> class
                == AuditClassification::UnsafeSymlink)
            &&& entry.entry_kind is HardLink ==> (counted <==> class
                == AuditClassification::UnsafeHardLink)
            &&& entry.entry_kind is UnexpectedDirectory ==> (counted <==> class
                == AuditClassification::UnexpectedDirectory)
            &&& entry.entry_kind is Special ==> (counted <==> class
                == AuditClassification::UnsafeSpecialEntry)
            &&& entry.entry_kind is UnsafePath ==> (counted <==> class
                == AuditClassification::UnsafePath)
            &&& entry.entry_kind is CrossBoard ==> (counted <==> class
                == AuditClassification::CrossBoardPath)
            &&& entry.entry_kind is ScanError ==> (counted <==> class
                == AuditClassification::ScanError)
        }),
{
    lemma_needed(m, entry.path.text->Some_0);
    report::law_ranks_tell_apart(class, class, entry.category, entry.category);
}

/// A file's place is in a board's directory exactly where the path starts with the board's
/// name and a slash; in an upload's stage, where the third name is the board's.
pub proof fn law_places_are_told_by_the_first_name(
    first: Seq<char>,
    rest: Seq<char>,
    board: Seq<char>,
    category: MediaCategory,
)
    requires
        !first.contains('/'),
        !(category is UploadStage),
    ensures
        place_matches(first + seq!['/'] + rest, board, category) <==> board == first,
{
    text::lemma_split_at_separator(first, rest, '/');
    text::lemma_split_extends(Seq::empty(), first, '/');
    assert(Seq::<char>::empty() + first =~= first);
    assert(text::split(first, '/') =~= seq![first]);
    assert(first + seq!['/'] + rest =~= first.push('/') + rest);
    assert((text::split(first, '/') + text::split(rest, '/'))[0] == first);
}

/// Orphan candidates are counted as safe exactly where the pass was stable, each with the
/// size of its file.
pub proof fn law_orphans_are_safe_in_stable_passes(
    r: ReportView,
    orphans: Seq<OrphanView>,
    stable: bool,
    limit: usize,
)
    requires
        r.count(AuditClassification::SafeOrphanCandidate) + orphans.len() <= u64::MAX,
        r.count(AuditClassification::AmbiguousOrphan) + orphans.len() <= u64::MAX,
    ensures
        ({
            let after = with_orphans(r, orphans, stable, limit);
            &&& after.count(AuditClassification::SafeOrphanCandidate) == r.count(
                AuditClassification::SafeOrphanCandidate,
            ) + if stable {
                orphans.len()
            } else {
                0
            }
            &&& after.count(AuditClassification::AmbiguousOrphan) == r.count(
                AuditClassification::AmbiguousOrphan,
            ) + if stable {
                0
            } else {
                orphans.len()
            }
            &&& after.repairs == r.repairs && after.incomplete == r.incomplete
        }),
    decreases orphans.len(),
{
    if orphans.len() > 0 {
        law_orphans_are_safe_in_stable_passes(r, orphans.drop_last(), stable, limit);
    }
}

proof fn lemma_page_errors(r: ReportView, errors: Seq<Seq<char>>, limit: usize)
    ensures
        ({
            let after = with_page_errors(r, errors, limit);
            &&& after.incomplete <==> r.incomplete || errors.len() > 0
            &&& after.boards_examined == r.boards_examined
            &&& after.counts == r.counts && after.paths_examined == r.paths_examined
        }),
    decreases errors.len(),
{
    if errors.len() > 0 {
        lemma_page_errors(r, errors.drop_last(), limit);
    }
}

/// The next pass goes on after the last entry of a page that has more behind it, and starts
/// again otherwise; an error of the page makes the pass incomplete.
pub proof fn law_next_pass_goes_on_after_the_page(r: ReportView, page: PageView, limit: usize)
    ensures
        ({
            let after = with_page(r, page, limit);
            &&& page.has_more ==> after.next_cursor == page.last_key
            &&& !page.has_more ==> after.next_cursor is None
            &&& after.boards_examined == page.boards_examined
            &&& after.incomplete <==> r.incomplete || page.errors.len() > 0
            &&& after.counts == r.counts
        }),
{
    lemma_page_errors(
        ReportView { boards_examined: page.boards_examined, ..r },
        page.errors,
        limit,
    );
}

/// Only a plain file that is there, at a path that can be told, is a candidate; and an entry
/// is called an orphan exactly when it is.
pub proof fn law_only_files_that_are_there_are_orphans(
    m: ModelView,
    before: ReportView,
    remaining: u64,
    entry: EntryView,
    seen: EntrySeen,
    limit: usize,
)
    ensures
        ({
            let outcome = entry_outcome(m, before, remaining, entry, seen, limit);
            &&& !(entry.entry_kind is File) ==> outcome.orphan is None
            &&& entry.path.text is None ==> outcome.orphan is None
            &&& !(seen.file is Present) ==> outcome.orphan is None
            &&& outcome.orphan is None ==> !is_orphan(m, before.incomplete, entry, seen)
            &&& outcome.orphan is Some ==> is_orphan(m, before.incomplete, entry, seen)
        }),
{
}

/// A staged upload is in its board's place where the third name of its path is the board's.
pub proof fn law_staged_places_are_told_by_the_third_name(
    first: Seq<char>,
    second: Seq<char>,
    third: Seq<char>,
    rest: Seq<char>,
    board: Seq<char>,
)
    requires
        !first.contains('/'),
        !second.contains('/'),
        !third.contains('/'),
    ensures
        place_matches(
            first + seq!['/'] + second + seq!['/'] + third + seq!['/'] + rest,
            board,
            MediaCategory::UploadStage,
        ) <==> board == third,
        !place_matches(first + seq!['/'] + second, board, MediaCategory::UploadStage),
{
    let short = second.push('/') + (third.push('/') + rest);
    text::lemma_split_at_separator(first, short, '/');
    text::lemma_split_at_separator(second, third.push('/') + rest, '/');
    text::lemma_split_at_separator(third, rest, '/');
    text::lemma_split_at_separator(first, second, '/');
    lemma_one_name(first);
    lemma_one_name(second);
    lemma_one_name(third);
    assert(first + seq!['/'] + second + seq!['/'] + third + seq!['/'] + rest =~= first.push('/')
        + short);
    assert(first + seq!['/'] + second =~= first.push('/') + second);
}

proof fn lemma_one_name(name: Seq<char>)
    requires
        !name.contains('/'),
    ensures
        text::split(name, '/') == seq![name],
{
    text::lemma_split_extends(Seq::empty(), name, '/');
    assert(Seq::<char>::empty() + name =~= name);
    assert(text::split(name, '/') =~= seq![name]);
}

} // verus!
