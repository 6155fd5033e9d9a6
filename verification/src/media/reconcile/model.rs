//! The snapshot of every database claim on managed media.

use vstd::prelude::*;
use vstd::string::*;
use std::collections::BTreeMap;
use crate::digest;
use crate::digest::sha256_text;
use crate::paths;
use crate::paths::path_names;
use crate::text;
use crate::text::{
    as_deref, blank, chars_of, clone_opt, concat, contains_char, join, list_holds, str_eq, text_of,
};
use super::report::{make_example, AuditClassification, AuditExample, MediaCategory};
use super::report;

verus! {

/// How a database row claims a path.
#[derive(Debug, Clone, Copy, PartialEq, Eq, Structural)]
pub enum ReferenceRole {
    /// A live row needs the file.
    Active,
    /// Work in progress needs the file.
    Temporary,
    /// A digest row describes the file.
    Metadata,
    /// An intent will delete the file.
    ScheduledDeletion,
    /// The file was removed on purpose.
    TerminalMissing,
}

impl ReferenceRole {
    /// Whether the role keeps a file from being treated as an orphan.
    pub open spec fn protects(self) -> bool {
        self is Active || self is Temporary || self is Metadata
    }

    /// Whether the role keeps a file from being treated as an orphan.
    pub fn protects_from_orphan_cleanup(self) -> (r: bool)
        ensures
            r == self.protects(),
    {
        matches!(
            self,
            ReferenceRole::Active | ReferenceRole::Temporary | ReferenceRole::Metadata
        )
    }
}

/// Which table a reference comes from.
#[derive(Debug, Clone, Copy, PartialEq, Eq, Structural)]
pub enum ReferenceSource {
    Post,
    Hash,
    Job,
    Intent,
}

/// A claim on a path.
#[derive(Debug, Clone)]
pub struct PathClaim {
    pub role: ReferenceRole,
    pub category: MediaCategory,
    pub owner: String,
}

/// The model of a claim.
pub struct ClaimView {
    pub role: ReferenceRole,
    pub category: MediaCategory,
    pub owner: Seq<char>,
}

impl View for PathClaim {
    type V = ClaimView;

    open spec fn view(&self) -> ClaimView {
        ClaimView { role: self.role, category: self.category, owner: self.owner@ }
    }
}

/// One database reference to a managed path.
#[derive(Debug, Clone)]
pub struct ReferenceRecord {
    pub source: ReferenceSource,
    pub path: String,
    pub board: Option<String>,
    pub category: MediaCategory,
    pub role: ReferenceRole,
    pub owner: String,
    pub expected_digest: Option<String>,
    pub recoverable_source: Option<String>,
}

/// The model of a reference.
#[verifier::ext_equal]
pub struct RecordView {
    pub source: ReferenceSource,
    pub path: Seq<char>,
    pub board: Option<Seq<char>>,
    pub category: MediaCategory,
    pub role: ReferenceRole,
    pub owner: Seq<char>,
    pub expected_digest: Option<Seq<char>>,
    pub recoverable_source: Option<Seq<char>>,
}

impl View for ReferenceRecord {
    type V = RecordView;

    open spec fn view(&self) -> RecordView {
        RecordView {
            source: self.source,
            path: self.path@,
            board: text::opt_view(self.board),
            category: self.category,
            role: self.role,
            owner: self.owner@,
            expected_digest: text::opt_view(self.expected_digest),
            recoverable_source: text::opt_view(self.recoverable_source),
        }
    }
}

/// Something noticed while the rows were read.
#[derive(Debug, Clone)]
pub struct AuditFinding {
    pub classification: AuditClassification,
    pub category: MediaCategory,
    pub board: Option<String>,
    pub managed_id: String,
    pub owner: Option<String>,
}

/// The model of a finding.
#[verifier::ext_equal]
pub struct FindingView {
    pub classification: AuditClassification,
    pub category: MediaCategory,
    pub board: Option<Seq<char>>,
    pub managed_id: Seq<char>,
    pub owner: Option<Seq<char>>,
}

impl View for AuditFinding {
    type V = FindingView;

    open spec fn view(&self) -> FindingView {
        FindingView {
            classification: self.classification,
            category: self.category,
            board: text::opt_view(self.board),
            managed_id: self.managed_id@,
            owner: text::opt_view(self.owner),
        }
    }
}

/// A digest row that a repair may remove.
#[derive(Debug, Clone)]
pub struct HashRepairCandidate {
    pub digest: String,
    pub file_path: String,
    pub thumb_path: String,
    pub mime_type: String,
    pub classification: AuditClassification,
}

/// The model of a digest row that a repair may remove.
#[verifier::ext_equal]
pub struct HashCandidateView {
    pub digest: Seq<char>,
    pub file_path: Seq<char>,
    pub thumb_path: Seq<char>,
    pub mime_type: Seq<char>,
    pub classification: AuditClassification,
}

impl View for HashRepairCandidate {
    type V = HashCandidateView;

    open spec fn view(&self) -> HashCandidateView {
        HashCandidateView {
            digest: self.digest@,
            file_path: self.file_path@,
            thumb_path: self.thumb_path@,
            mime_type: self.mime_type@,
            classification: self.classification,
        }
    }
}

/// A job row that a repair may remove.
#[derive(Debug, Clone)]
pub struct JobRepairCandidate {
    pub id: i64,
    pub job_type: String,
    pub payload: String,
}

/// The model of a job row that a repair may remove.
#[verifier::ext_equal]
pub struct JobCandidateView {
    pub id: i64,
    pub job_type: Seq<char>,
    pub payload: Seq<char>,
}

impl View for JobRepairCandidate {
    type V = JobCandidateView;

    open spec fn view(&self) -> JobCandidateView {
        JobCandidateView { id: self.id, job_type: self.job_type@, payload: self.payload@ }
    }
}

/// An intent row that a repair may remove.
#[derive(Debug, Clone)]
pub struct IntentRepairCandidate {
    pub id: String,
    pub kind: String,
    pub payload_json: String,
}

/// The model of an intent row that a repair may remove.
#[verifier::ext_equal]
pub struct IntentCandidateView {
    pub id: Seq<char>,
    pub kind: Seq<char>,
    pub payload_json: Seq<char>,
}

impl View for IntentRepairCandidate {
    type V = IntentCandidateView;

    open spec fn view(&self) -> IntentCandidateView {
        IntentCandidateView {
            id: self.id@,
            kind: self.kind@,
            payload_json: self.payload_json@,
        }
    }
}

/// Where a post's media stands in its processing.
#[derive(Debug, Clone, Copy, PartialEq, Eq, Structural)]
pub enum MediaState {
    /// No processing is under way.
    Settled,
    /// Derived media is being made.
    ProcessingPending,
    /// The originals are about to be pruned.
    PrunePending,
    /// The originals have been pruned.
    Pruned,
}

/// What the snapshot keeps of a post.
#[derive(Debug, Clone)]
pub struct PostMediaState {
    pub board: String,
    pub file_path: Option<String>,
    pub media_state: MediaState,
}

/// The model of a post.
#[verifier::ext_equal]
pub struct PostView {
    pub board: Seq<char>,
    pub file_path: Option<Seq<char>>,
    pub media_state: MediaState,
}

impl View for PostMediaState {
    type V = PostView;

    open spec fn view(&self) -> PostView {
        PostView {
            board: self.board@,
            file_path: text::opt_view(self.file_path),
            media_state: self.media_state,
        }
    }
}

/// The snapshot of every database claim on managed media.
#[derive(Debug)]
pub struct ReferenceModel {
    pub boards_by_id: BTreeMap<i64, String>,
    pub boards: Vec<String>,
    pub case_conflict_boards: Vec<String>,
    pub posts: BTreeMap<i64, PostMediaState>,
    pub records: Vec<ReferenceRecord>,
    pub findings: Vec<AuditFinding>,
    pub hash_candidates: Vec<HashRepairCandidate>,
    pub job_candidates: Vec<JobRepairCandidate>,
    pub intent_candidates: Vec<IntentRepairCandidate>,
    pub scheduled_boards: Vec<String>,
    pub database_rows_scanned: usize,
    pub data_version: i64,
    pub incomplete: bool,
    pub global_ambiguity: bool,
}

/// The model of the snapshot.
#[verifier::ext_equal]
pub struct ModelView {
    pub boards_by_id: Map<i64, Seq<char>>,
    pub boards: Seq<Seq<char>>,
    pub case_conflict_boards: Seq<Seq<char>>,
    pub posts: Map<i64, PostView>,
    pub records: Seq<RecordView>,
    pub findings: Seq<FindingView>,
    pub hash_candidates: Seq<HashCandidateView>,
    pub job_candidates: Seq<JobCandidateView>,
    pub intent_candidates: Seq<IntentCandidateView>,
    pub scheduled_boards: Seq<Seq<char>>,
    pub database_rows_scanned: usize,
    pub data_version: i64,
    pub incomplete: bool,
    pub global_ambiguity: bool,
}

impl View for ReferenceModel {
    type V = ModelView;

    open spec fn view(&self) -> ModelView {
        ModelView {
            boards_by_id: self.boards_by_id@.map_values(|b: String| b@),
            boards: text::views(self.boards@),
            case_conflict_boards: text::views(self.case_conflict_boards@),
            posts: self.posts@.map_values(|p: PostMediaState| p@),
            records: text::views(self.records@),
            findings: text::views(self.findings@),
            hash_candidates: text::views(self.hash_candidates@),
            job_candidates: text::views(self.job_candidates@),
            intent_candidates: text::views(self.intent_candidates@),
            scheduled_boards: text::views(self.scheduled_boards@),
            database_rows_scanned: self.database_rows_scanned,
            data_version: self.data_version,
            incomplete: self.incomplete,
            global_ambiguity: self.global_ambiguity,
        }
    }
}

/// The claims that the references make on a path, oldest first. A path whose
/// file was removed on purpose is not claimed.
pub open spec fn claims_on(records: Seq<RecordView>, path: Seq<char>) -> Seq<ClaimView>
    decreases records.len(),
{
    if records.len() == 0 {
        Seq::empty()
    } else {
        let before = claims_on(records.drop_last(), path);
        let record = records.last();
        if record.path == path && !(record.role is TerminalMissing) {
            before.push(
                ClaimView { role: record.role, category: record.category, owner: record.owner },
            )
        } else {
            before
        }
    }
}

/// The claims that keep the path's file, oldest first.
pub open spec fn required_on(records: Seq<RecordView>, path: Seq<char>) -> Seq<ClaimView>
    decreases records.len(),
{
    if records.len() == 0 {
        Seq::empty()
    } else {
        let before = required_on(records.drop_last(), path);
        let record = records.last();
        if record.path == path && record.role.protects() {
            before.push(
                ClaimView { role: record.role, category: record.category, owner: record.owner },
            )
        } else {
            before
        }
    }
}

/// Whether an intent will delete the path's file.
pub open spec fn scheduled_on(records: Seq<RecordView>, path: Seq<char>) -> bool {
    exists|i: int|
        0 <= i < records.len() && (#[trigger] records[i]).path == path
            && records[i].role is ScheduledDeletion
}

/// The claims that keep a path's file are among the claims on it, and every
/// claim on it that is not a scheduled deletion keeps it.
pub proof fn law_required_claims_are_claims(records: Seq<RecordView>, path: Seq<char>, i: int)
    requires
        0 <= i < claims_on(records, path).len(),
    ensures
        claims_on(records, path)[i].role.protects() <==> !(claims_on(
            records,
            path,
        )[i].role is ScheduledDeletion),
        claims_on(records, path)[i].role.protects() ==> required_on(records, path).contains(
            claims_on(records, path)[i],
        ),
    decreases records.len(),
{
    let claim = claims_on(records, path)[i];
    let before = claims_on(records.drop_last(), path);
    let required = required_on(records.drop_last(), path);
    if i < before.len() {
        law_required_claims_are_claims(records.drop_last(), path, i);
        if claim.role.protects() {
            let j = choose|j: int| 0 <= j < required.len() && required[j] == claim;
            assert(required_on(records, path)[j] == claim);
        }
    } else {
        if claim.role.protects() {
            assert(required_on(records, path).last() == claim);
        }
    }
}

impl ModelView {
    /// The snapshot before any row has been read.
    pub open spec fn fresh(data_version: i64) -> ModelView {
        ModelView {
            boards_by_id: Map::empty(),
            boards: Seq::empty(),
            case_conflict_boards: Seq::empty(),
            posts: Map::empty(),
            records: Seq::empty(),
            findings: Seq::empty(),
            hash_candidates: Seq::empty(),
            job_candidates: Seq::empty(),
            intent_candidates: Seq::empty(),
            scheduled_boards: Seq::empty(),
            database_rows_scanned: 0,
            data_version,
            incomplete: false,
            global_ambiguity: false,
        }
    }

    /// The snapshot with one more reference.
    pub open spec fn with_record(self, record: RecordView) -> ModelView {
        ModelView { records: self.records.push(record), ..self }
    }

    /// The snapshot with one more finding.
    pub open spec fn with_finding(self, finding: FindingView) -> ModelView {
        ModelView { findings: self.findings.push(finding), ..self }
    }

    /// The snapshot once a row was found that cannot be trusted.
    pub open spec fn ambiguous(self) -> ModelView {
        ModelView { global_ambiguity: true, ..self }
    }

    /// The snapshot once the row limit has cut rows off.
    pub open spec fn truncated(self) -> ModelView {
        ModelView { incomplete: true, ..self }
    }

    /// The snapshot with one more board that a pending intent covers.
    pub open spec fn with_scheduled_board(self, board: Seq<char>) -> ModelView {
        ModelView { scheduled_boards: text::inserted(self.scheduled_boards, board), ..self }
    }
}

impl ReferenceModel {
    /// The snapshot before any row has been read.
    pub fn new(data_version: i64) -> (r: Self)
        ensures
            r@ == ModelView::fresh(data_version),
    {
        broadcast use text::group_views;
        broadcast use vstd::std_specs::btree::group_btree_axioms;

        let r = ReferenceModel {
            boards_by_id: BTreeMap::new(),
            boards: Vec::new(),
            case_conflict_boards: Vec::new(),
            posts: BTreeMap::new(),
            records: Vec::new(),
            findings: Vec::new(),
            hash_candidates: Vec::new(),
            job_candidates: Vec::new(),
            intent_candidates: Vec::new(),
            scheduled_boards: Vec::new(),
            database_rows_scanned: 0,
            data_version,
            incomplete: false,
            global_ambiguity: false,
        };
        assert(r@ =~= ModelView::fresh(data_version));
        r
    }

    /// Adds a reference, and with it the claim that its role makes.
    pub fn add_record(&mut self, record: ReferenceRecord)
        ensures
            final(self)@ == old(self)@.with_record(record@),
    {
        broadcast use text::group_views;

        self.records.push(record);
    }

    /// Adds a finding.
    pub fn add_finding(&mut self, finding: AuditFinding)
        ensures
            final(self)@ == old(self)@.with_finding(finding@),
    {
        broadcast use text::group_views;

        self.findings.push(finding);
    }

    /// Notes that a row cannot be trusted.
    pub fn mark_ambiguous(&mut self)
        ensures
            final(self)@ == old(self)@.ambiguous(),
    {
        self.global_ambiguity = true;
    }

    /// The claims that keep the path's file, oldest first.
    pub fn required_claims(&self, path: &str) -> (r: Vec<PathClaim>)
        ensures
            text::views(r@) == required_on(self@.records, path@),
    {
        broadcast use text::group_views;

        let mut claims: Vec<PathClaim> = Vec::new();
        let mut i: usize = 0;
        assert(self@.records.take(0) =~= Seq::<RecordView>::empty());
        while i < self.records.len()
            invariant
                i <= self.records@.len(),
                text::views(claims@) == required_on(self@.records.take(i as int), path@),
            decreases self.records@.len() - i,
        {
            broadcast use text::group_views;

            let record = &self.records[i];
            assert(self@.records.take(i as int + 1).drop_last() =~= self@.records.take(i as int));
            assert(self@.records.take(i as int + 1).last() == record@);
            if str_eq(record.path.as_str(), path) && record.role.protects_from_orphan_cleanup() {
                claims.push(
                    PathClaim {
                        role: record.role,
                        category: record.category,
                        owner: record.owner.clone(),
                    },
                );
            }
            i = i + 1;
        }
        assert(self@.records.take(self@.records.len() as int) =~= self@.records);
        claims
    }

    /// Every claim on the path, oldest first.
    pub fn claims(&self, path: &str) -> (r: Vec<PathClaim>)
        ensures
            text::views(r@) == claims_on(self@.records, path@),
    {
        broadcast use text::group_views;

        let mut claims: Vec<PathClaim> = Vec::new();
        let mut i: usize = 0;
        assert(self@.records.take(0) =~= Seq::<RecordView>::empty());
        while i < self.records.len()
            invariant
                i <= self.records@.len(),
                text::views(claims@) == claims_on(self@.records.take(i as int), path@),
            decreases self.records@.len() - i,
        {
            broadcast use text::group_views;

            let record = &self.records[i];
            assert(self@.records.take(i as int + 1).drop_last() =~= self@.records.take(i as int));
            assert(self@.records.take(i as int + 1).last() == record@);
            if str_eq(record.path.as_str(), path) && record.role != ReferenceRole::TerminalMissing {
                claims.push(
                    PathClaim {
                        role: record.role,
                        category: record.category,
                        owner: record.owner.clone(),
                    },
                );
            }
            i = i + 1;
        }
        assert(self@.records.take(self@.records.len() as int) =~= self@.records);
        claims
    }

    /// Whether an intent will delete the path's file.
    pub fn scheduled_claim(&self, path: &str) -> (r: bool)
        ensures
            r == scheduled_on(self@.records, path@),
    {
        let mut i: usize = 0;
        while i < self.records.len()
            invariant
                i <= self.records@.len(),
                forall|j: int|
                    0 <= j < i ==> !((#[trigger] self@.records[j]).path == path@
                        && self@.records[j].role is ScheduledDeletion),
            decreases self.records@.len() - i,
        {
            let record = &self.records[i];
            assert(self@.records[i as int] == record@);
            if record.role == ReferenceRole::ScheduledDeletion && str_eq(
                record.path.as_str(),
                path,
            ) {
                return true;
            }
            i = i + 1;
        }
        false
    }
}

/// A path inside a board's managed directory.
#[derive(Debug, Clone)]
pub struct ManagedPath {
    pub relative: String,
    pub board: String,
    pub category: MediaCategory,
}

/// The model of a managed path.
pub struct ManagedView {
    pub relative: Seq<char>,
    pub board: Seq<char>,
    pub category: MediaCategory,
}

impl View for ManagedPath {
    type V = ManagedView;

    open spec fn view(&self) -> ManagedView {
        ManagedView { relative: self.relative@, board: self.board@, category: self.category }
    }
}

/// Whether the text can name a board: one to eight ASCII letters and digits.
pub open spec fn valid_board(board: Seq<char>) -> bool {
    1 <= board.len() <= 8 && forall|i: int|
        0 <= i < board.len() ==> text::is_alphanumeric(#[trigger] board[i])
}

/// Whether the file name is nonempty and not hidden.
pub open spec fn visible(name: Seq<char>) -> bool {
    name.len() > 0 && name[0] != '.'
}

/// The managed path that the names of a path's components make up.
pub open spec fn managed_names(
    names: Seq<Seq<char>>,
    expected: Option<Seq<char>>,
    boards: Seq<Seq<char>>,
) -> Option<ManagedView> {
    if names.len() == 0 || !valid_board(names[0]) || !text::holds(boards, names[0]) || (
    expected is Some && expected->Some_0 != names[0]) {
        None
    } else if names.len() == 2 && visible(names[1]) {
        Some(
            ManagedView {
                relative: text::joined(names, "/"@),
                board: names[0],
                category: MediaCategory::Original,
            },
        )
    } else if names.len() == 3 && names[1] == "thumbs"@ && visible(names[2]) {
        Some(
            ManagedView {
                relative: text::joined(names, "/"@),
                board: names[0],
                category: MediaCategory::Thumbnail,
            },
        )
    } else {
        None
    }
}

/// The managed path that a raw path stands for: a known board's directory, and
/// in it a visible file or one below `thumbs`.
pub open spec fn managed_path(
    value: Seq<char>,
    expected: Option<Seq<char>>,
    boards: Seq<Seq<char>>,
) -> Option<ManagedView> {
    if text::is_blank(value) || value.contains('\\') || paths::is_absolute(value) {
        None
    } else {
        match paths::plain_names(value) {
            Some(names) => managed_names(names, expected, boards),
            None => None,
        }
    }
}

/// Whether the text can name a board.
pub fn is_valid_board_short(board: &str) -> (r: bool)
    ensures
        r == valid_board(board@),
{
    let a = chars_of(board);
    if a.len() == 0 || a.len() > 8 {
        return false;
    }
    let mut i: usize = 0;
    while i < a.len()
        invariant
            i <= a@.len(),
            a@ == board@,
            forall|j: int| 0 <= j < i ==> text::is_alphanumeric(#[trigger] board@[j]),
        decreases a@.len() - i,
    {
        let c = a[i];
        if !(('0' <= c && c <= '9') || ('a' <= c && c <= 'z') || ('A' <= c && c <= 'Z')) {
            assert(!text::is_alphanumeric(board@[i as int]));
            return false;
        }
        i = i + 1;
    }
    true
}

fn is_visible(name: &str) -> (r: bool)
    ensures
        r == visible(name@),
{
    let a = chars_of(name);
    a.len() > 0 && a[0] != '.'
}

/// Reads a raw path as a managed path of a known board.
pub fn parse_managed_path(value: &str, expected_board: Option<&str>, boards: &Vec<String>) -> (r:
    Option<ManagedPath>)
    ensures
        text::opt_view(r) == managed_path(
            value@,
            text::opt_str(expected_board),
            text::views(boards@),
        ),
{
    if blank(value) || contains_char(value, '\\') {
        return None;
    }
    let a = chars_of(value);
    if a.len() > 0 && a[0] == '/' {
        return None;
    }
    let names = match path_names(value) {
        Some(names) => names,
        None => {
            return None;
        },
    };
    let ghost all = text::views(names@);
    if names.len() == 0 {
        return None;
    }
    assert(all[0] == names@[0]@);
    if !is_valid_board_short(names[0].as_str()) || !list_holds(boards, names[0].as_str()) {
        return None;
    }
    if let Some(expected) = expected_board {
        if !str_eq(expected, names[0].as_str()) {
            return None;
        }
    }
    let category = if names.len() == 2 {
        assert(all[1] == names@[1]@);
        if !is_visible(names[1].as_str()) {
            return None;
        }
        MediaCategory::Original
    } else if names.len() == 3 {
        assert(all[1] == names@[1]@);
        assert(all[2] == names@[2]@);
        if !str_eq(names[1].as_str(), "thumbs") || !is_visible(names[2].as_str()) {
            return None;
        }
        MediaCategory::Thumbnail
    } else {
        return None;
    };
    Some(ManagedPath { relative: join(&names, "/"), board: names[0].clone(), category })
}

/// A managed path is read as itself: what a raw path stands for, read again, stands for
/// the same file on the same board, whether its board is expected or none is.
pub proof fn law_managed_paths_are_read_as_themselves(
    value: Seq<char>,
    expected: Option<Seq<char>>,
    boards: Seq<Seq<char>>,
)
    requires
        managed_path(value, expected, boards) is Some,
    ensures
        ({
            let managed = managed_path(value, expected, boards)->Some_0;
            &&& managed_path(managed.relative, None, boards) == Some(managed)
            &&& managed_path(managed.relative, Some(managed.board), boards) == Some(managed)
        }),
{
    let names = paths::plain_names(value)->Some_0;
    let managed = managed_path(value, expected, boards)->Some_0;
    assert forall|k: int| 0 <= k < names.len() implies paths::is_plain_name(
        #[trigger] names[k],
        value,
    ) by {
        paths::lemma_names_are_plain(value, k);
    }
    paths::lemma_joined_names(names, value);
    law_managed_paths_stay_on_their_board(value, expected, boards);
    assert(managed.relative[0] == managed.board[0]) by {
        let head = managed.board + "/"@;
        assert(managed.relative.take(head.len() as int)[0] == head[0]);
    }
    assert(text::is_alphanumeric(managed.board[0]));
    assert(!text::is_blank(managed.relative));
    if managed.relative.contains('\\') {
        assert(value.contains('\\'));
    }
}

/// A managed path belongs to a known board, to the expected one where one is
/// expected, and is an original or a thumbnail.
pub proof fn law_managed_paths_stay_on_their_board(
    value: Seq<char>,
    expected: Option<Seq<char>>,
    boards: Seq<Seq<char>>,
)
    requires
        managed_path(value, expected, boards) is Some,
    ensures
        ({
            let managed = managed_path(value, expected, boards)->Some_0;
            &&& valid_board(managed.board)
            &&& boards.contains(managed.board)
            &&& expected is Some ==> expected->Some_0 == managed.board
            &&& managed.category is Original || managed.category is Thumbnail
            &&& text::begins(managed.relative, managed.board + "/"@)
        }),
{
    let names = paths::plain_names(value)->Some_0;
    let managed = managed_path(value, expected, boards)->Some_0;
    reveal_with_fuel(text::joined, 4);
    let head = managed.board + "/"@;
    if names.len() == 2 {
        assert(names.drop_last().len() == 1);
        assert(managed.relative =~= head + names[1]);
    } else {
        assert(names.drop_last().drop_last().len() == 1);
        assert(managed.relative =~= head + (names[1] + "/"@ + names[2]));
    }
    assert(managed.relative.take(head.len() as int) =~= head);
}

/// A visible file in a known board's directory, or below `thumbs` in it, is managed, under
/// the path by which it is named; it is not where the board is unknown, where another is
/// expected, where the file is hidden, or where the path starts elsewhere.
pub proof fn law_files_of_known_boards_are_managed(
    board: Seq<char>,
    name: Seq<char>,
    expected: Option<Seq<char>>,
    boards: Seq<Seq<char>>,
)
    requires
        paths::is_shown_name(board),
        paths::is_shown_name(name),
        !board.contains('\\'),
        !name.contains('\\'),
    ensures
        ({
            let known = 1 <= board.len() <= 8 && (forall|i: int|
                0 <= i < board.len() ==> ('0' <= #[trigger] board[i] <= '9' || 'a' <= board[i]
                    <= 'z' || 'A' <= board[i] <= 'Z')) && boards.contains(board) && (
            expected is None || expected == Some(board));
            let original = board + "/"@ + name;
            let thumb = board + "/"@ + "thumbs"@ + "/"@ + name;
            &&& managed_path(original, expected, boards) == if known {
                Some(
                    ManagedView {
                        relative: original,
                        board,
                        category: MediaCategory::Original,
                    },
                )
            } else {
                None
            }
            &&& managed_path(thumb, expected, boards) == if known {
                Some(ManagedView { relative: thumb, board, category: MediaCategory::Thumbnail })
            } else {
                None
            }
            &&& managed_path("/"@ + original, expected, boards) is None
        }),
{
    reveal_strlit("/");
    reveal_strlit("thumbs");
    let t = "thumbs"@;
    assert(t.len() == 6 && t[0] == 't' && t[1] == 'h' && t[2] == 'u' && t[3] == 'm' && t[4] == 'b'
        && t[5] == 's');
    assert(!t.contains('/'));
    assert(!t.contains('\\'));
    paths::law_paths_are_made_of_their_names(board, name, name);
    paths::law_paths_are_made_of_their_names(board, t, name);
    let original = board + "/"@ + name;
    let thumb = board + "/"@ + t + "/"@ + name;
    reveal_with_fuel(text::joined, 4);
    assert(seq![board, name].drop_last() =~= seq![board]);
    assert(seq![board, t, name].drop_last() =~= seq![board, t]);
    assert(seq![board, t].drop_last() =~= seq![board]);
    assert(text::joined(seq![board, name], "/"@) == original);
    assert(text::joined(seq![board, t, name], "/"@) == thumb);
    assert(original[0] == board[0] && thumb[0] == board[0]);
    assert forall|i: int| 0 <= i < original.len() implies original[i] != '\\' by {
        if i < board.len() {
            assert(board.contains(board[i]));
        } else if i > board.len() {
            assert(name.contains(name[i - board.len() - 1]));
        }
    }
    assert forall|i: int| 0 <= i < thumb.len() implies thumb[i] != '\\' by {
        if i < board.len() {
            assert(board.contains(board[i]));
        } else if i == board.len() || i == board.len() + 7 {
        } else if i < board.len() + 7 {
            assert(t.contains(t[i - board.len() - 1]));
        } else {
            assert(name.contains(name[i - board.len() - 8]));
        }
    }
    if valid_board(board) {
        assert(text::is_alphanumeric(board[0]));
        assert(!text::is_space(original[0]) && !text::is_space(thumb[0]));
    }
    assert(("/"@ + original)[0] == '/');
}

/// The identifier shown in place of a path that is not trusted.
pub open spec fn redacted(value: Seq<char>) -> Seq<char> {
    "redacted:"@ + digest::sha256_hex(vstd::utf8::encode_utf8(value)).take(16)
}

/// The identifier shown in place of a path that is not trusted.
pub fn redacted_identifier(value: &str) -> (r: String)
    ensures
        r@ == redacted(value@),
{
    let digest = sha256_text(value.as_bytes());
    let a = chars_of(digest.as_str());
    assert(a@.subrange(0, 16) =~= a@.take(16));
    let short = text_of(&a, 0, 16);
    concat("redacted:", short.as_str())
}

/// The identifier under which a path is shown: itself where it is managed.
pub open spec fn shown_id(
    value: Seq<char>,
    expected: Option<Seq<char>>,
    boards: Seq<Seq<char>>,
) -> Seq<char> {
    match managed_path(value, expected, boards) {
        Some(managed) => managed.relative,
        None => redacted(value),
    }
}

/// The identifier under which a path is shown.
pub fn trusted_or_redacted_id(value: &str, expected_board: Option<&str>, boards: &Vec<String>) -> (r:
    String)
    ensures
        r@ == shown_id(value@, text::opt_str(expected_board), text::views(boards@)),
{
    match parse_managed_path(value, expected_board, boards) {
        Some(path) => path.relative,
        None => redacted_identifier(value),
    }
}

/// The first derived category among the claims, if any.
pub open spec fn derived_category(claims: Seq<ClaimView>) -> Option<MediaCategory>
    decreases claims.len(),
{
    if claims.len() == 0 {
        None
    } else {
        match derived_category(claims.drop_last()) {
            Some(category) => Some(category),
            None => if claims.last().category is Waveform
                || claims.last().category is TranscodedOutput {
                Some(claims.last().category)
            } else {
                None
            },
        }
    }
}

/// The category of a path: that of derived media where a claim says so.
pub open spec fn claimed_category(
    records: Seq<RecordView>,
    path: Seq<char>,
    fallback: MediaCategory,
) -> MediaCategory {
    match derived_category(claims_on(records, path)) {
        Some(category) => category,
        None => fallback,
    }
}

/// The category of a path: that of derived media where a claim says so.
pub fn path_category_from_claims(model: &ReferenceModel, path: &str, fallback: MediaCategory) -> (r:
    MediaCategory)
    ensures
        r == claimed_category(model@.records, path@, fallback),
{
    let claims = model.claims(path);
    let ghost all = text::views(claims@);
    let mut found: Option<MediaCategory> = None;
    let mut i: usize = 0;
    assert(all.take(0) =~= Seq::<ClaimView>::empty());
    while i < claims.len()
        invariant
            i <= claims@.len(),
            all == text::views(claims@),
            found == derived_category(all.take(i as int)),
        decreases claims@.len() - i,
    {
        assert(all.take(i as int + 1).drop_last() =~= all.take(i as int));
        assert(all.take(i as int + 1).last() == claims@[i as int]@);
        if found.is_none() && (claims[i].category == MediaCategory::Waveform || claims[i].category
            == MediaCategory::TranscodedOutput) {
            found = Some(claims[i].category);
        }
        i = i + 1;
    }
    assert(all.take(all.len() as int) =~= all);
    match found {
        Some(category) => category,
        None => fallback,
    }
}

/// The example that illustrates a reference.
pub open spec fn record_example(
    model: ModelView,
    record: RecordView,
    classification: AuditClassification,
    bytes: u64,
) -> report::ExampleView {
    report::example(
        classification,
        record.category,
        record.board,
        shown_id(record.path, record.board, model.boards),
        Some(record.owner),
        bytes,
    )
}

/// The example that illustrates a reference.
pub fn reference_example(
    model: &ReferenceModel,
    record: &ReferenceRecord,
    classification: AuditClassification,
    bytes: u64,
) -> (r: AuditExample)
    ensures
        r@ == record_example(model@, record@, classification, bytes),
{
    let id = trusted_or_redacted_id(record.path.as_str(), as_deref(&record.board), &model.boards);
    make_example(
        classification,
        record.category,
        clone_opt(&record.board),
        id,
        Some(record.owner.clone()),
        bytes,
    )
}

/// The rows still allowed, and the snapshot cut off where none are.
pub fn remaining_rows(model: &mut ReferenceModel, limit: usize) -> (r: usize)
    ensures
        r == (if limit > old(model)@.database_rows_scanned {
            limit - old(model)@.database_rows_scanned
        } else {
            0
        }),
        final(model)@ == (if r == 0 {
            old(model)@.truncated()
        } else {
            old(model)@
        }),
{
    let remaining: usize = limit.saturating_sub(model.database_rows_scanned);
    if remaining == 0 {
        model.incomplete = true;
    }
    remaining
}

/// The row count to ask the database for: one more than allowed, so that a cut
/// shows.
pub fn bounded_sql_limit(remaining: usize) -> (r: i64)
    ensures
        r == (if remaining < i64::MAX {
            remaining + 1
        } else {
            i64::MAX as int
        }),
{
    if (remaining as u64) < 0x7fff_ffff_ffff_ffff {
        (remaining as u64 + 1) as i64
    } else {
        i64::MAX
    }
}

/// The snapshot after a table's rows have been counted against the limit.
pub open spec fn counted(model: ModelView, rows: nat, remaining: nat) -> ModelView {
    let kept = if rows > remaining {
        remaining
    } else {
        rows
    };
    ModelView {
        incomplete: model.incomplete || rows > remaining,
        database_rows_scanned: if model.database_rows_scanned + kept > usize::MAX {
            usize::MAX
        } else {
            (model.database_rows_scanned + kept) as usize
        },
        ..model
    }
}

/// The rows that count: no more than the limit allows.
pub open spec fn kept_rows<T>(rows: Seq<T>, remaining: nat) -> Seq<T> {
    if rows.len() > remaining {
        rows.take(remaining as int)
    } else {
        rows
    }
}

/// The rows that the limit leaves for the next table.
pub open spec fn rows_left(model: ModelView, limit: usize) -> nat {
    if limit > model.database_rows_scanned {
        (limit - model.database_rows_scanned) as nat
    } else {
        0
    }
}

/// Counts a table's rows against the limit and drops those beyond it.
pub fn count_rows<T>(model: &mut ReferenceModel, rows: &mut Vec<T>, remaining: usize)
    ensures
        final(model)@ == counted(old(model)@, old(rows)@.len(), remaining as nat),
        final(rows)@ == kept_rows(old(rows)@, remaining as nat),
{
    if rows.len() > remaining {
        rows.truncate(remaining);
        model.incomplete = true;
    }
    model.database_rows_scanned = model.database_rows_scanned.saturating_add(rows.len());
}

/// Whether the role needs the file to be there.
pub open spec fn is_needed_by(role: ReferenceRole) -> bool {
    role is Active || role is Temporary || role is Metadata
}

/// Every claim that keeps a path's file is made by a reference to that path in a role that
/// needs it, and every such reference makes one; the claims on a path are made by its
/// references other than those to files removed on purpose.
pub proof fn law_claims_are_made_by_references(
    records: Seq<RecordView>,
    path: Seq<char>,
    claim: ClaimView,
)
    ensures
        required_on(records, path).contains(claim) <==> exists|i: int|
            0 <= i < records.len() && (#[trigger] records[i]).path == path && is_needed_by(
                records[i].role,
            ) && claim == (ClaimView {
                role: records[i].role,
                category: records[i].category,
                owner: records[i].owner,
            }),
        claims_on(records, path).contains(claim) <==> exists|i: int|
            0 <= i < records.len() && (#[trigger] records[i]).path == path && !(
            records[i].role is TerminalMissing) && claim == (ClaimView {
                role: records[i].role,
                category: records[i].category,
                owner: records[i].owner,
            }),
    decreases records.len(),
{
    if records.len() > 0 {
        let earlier = records.drop_last();
        law_claims_are_made_by_references(earlier, path, claim);
        let last = records.last();
        let view = ClaimView { role: last.role, category: last.category, owner: last.owner };
        let required = required_on(earlier, path);
        let claims = claims_on(earlier, path);
        assert(required.push(view).last() == view && claims.push(view).last() == view);
        assert(required.contains(claim) ==> required.push(view).contains(claim)) by {
            if required.contains(claim) {
                let k = choose|k: int| 0 <= k < required.len() && required[k] == claim;
                assert(required.push(view)[k] == claim);
            }
        }
        assert(claims.contains(claim) ==> claims.push(view).contains(claim)) by {
            if claims.contains(claim) {
                let k = choose|k: int| 0 <= k < claims.len() && claims[k] == claim;
                assert(claims.push(view)[k] == claim);
            }
        }
        assert(required.push(view).contains(claim) ==> required.contains(claim) || claim
            == view) by {
            if required.push(view).contains(claim) && claim != view {
                let k = choose|k: int|
                    0 <= k < required.push(view).len() && required.push(view)[k] == claim;
                assert(required[k] == claim);
            }
        }
        assert(claims.push(view).contains(claim) ==> claims.contains(claim) || claim == view) by {
            if claims.push(view).contains(claim) && claim != view {
                let k = choose|k: int|
                    0 <= k < claims.push(view).len() && claims.push(view)[k] == claim;
                assert(claims[k] == claim);
            }
        }
        assert(records[records.len() - 1] == last);
        if exists|i: int|
            0 <= i < earlier.len() && (#[trigger] earlier[i]).path == path && is_needed_by(
                earlier[i].role,
            ) && claim == (ClaimView {
                role: earlier[i].role,
                category: earlier[i].category,
                owner: earlier[i].owner,
            }) {
            let i = choose|i: int|
                0 <= i < earlier.len() && (#[trigger] earlier[i]).path == path && is_needed_by(
                    earlier[i].role,
                ) && claim == (ClaimView {
                    role: earlier[i].role,
                    category: earlier[i].category,
                    owner: earlier[i].owner,
                });
            assert(records[i] == earlier[i]);
        }
        if exists|i: int|
            0 <= i < records.len() && (#[trigger] records[i]).path == path && is_needed_by(
                records[i].role,
            ) && claim == (ClaimView {
                role: records[i].role,
                category: records[i].category,
                owner: records[i].owner,
            }) {
            let i = choose|i: int|
                0 <= i < records.len() && (#[trigger] records[i]).path == path && is_needed_by(
                    records[i].role,
                ) && claim == (ClaimView {
                    role: records[i].role,
                    category: records[i].category,
                    owner: records[i].owner,
                });
            if i < records.len() - 1 {
                assert(earlier[i] == records[i]);
            }
        }
        if exists|i: int|
            0 <= i < earlier.len() && (#[trigger] earlier[i]).path == path && !(
            earlier[i].role is TerminalMissing) && claim == (ClaimView {
                role: earlier[i].role,
                category: earlier[i].category,
                owner: earlier[i].owner,
            }) {
            let i = choose|i: int|
                0 <= i < earlier.len() && (#[trigger] earlier[i]).path == path && !(
                earlier[i].role is TerminalMissing) && claim == (ClaimView {
                    role: earlier[i].role,
                    category: earlier[i].category,
                    owner: earlier[i].owner,
                });
            assert(records[i] == earlier[i]);
        }
        if exists|i: int|
            0 <= i < records.len() && (#[trigger] records[i]).path == path && !(
            records[i].role is TerminalMissing) && claim == (ClaimView {
                role: records[i].role,
                category: records[i].category,
                owner: records[i].owner,
            }) {
            let i = choose|i: int|
                0 <= i < records.len() && (#[trigger] records[i]).path == path && !(
                records[i].role is TerminalMissing) && claim == (ClaimView {
                    role: records[i].role,
                    category: records[i].category,
                    owner: records[i].owner,
                });
            if i < records.len() - 1 {
                assert(earlier[i] == records[i]);
            }
        }
    }
}

proof fn lemma_derived_category(claims: Seq<ClaimView>)
    ensures
        derived_category(claims) is Some <==> exists|i: int|
            0 <= i < claims.len() && ((#[trigger] claims[i]).category is Waveform
                || claims[i].category is TranscodedOutput),
        derived_category(claims) is Some ==> derived_category(claims)->Some_0 is Waveform
            || derived_category(claims)->Some_0 is TranscodedOutput,
    decreases claims.len(),
{
    if claims.len() > 0 {
        let earlier = claims.drop_last();
        lemma_derived_category(earlier);
        if derived_category(earlier) is Some {
            let i = choose|i: int|
                0 <= i < earlier.len() && ((#[trigger] earlier[i]).category is Waveform
                    || earlier[i].category is TranscodedOutput);
            assert(claims[i] == earlier[i]);
        }
        if exists|i: int|
            0 <= i < claims.len() && ((#[trigger] claims[i]).category is Waveform
                || claims[i].category is TranscodedOutput) {
            let i = choose|i: int|
                0 <= i < claims.len() && ((#[trigger] claims[i]).category is Waveform
                    || claims[i].category is TranscodedOutput);
            if i < claims.len() - 1 {
                assert(earlier[i] == claims[i]);
            }
        }
    }
}

/// A path that a reference claims as derived media is derived media; any other is what its
/// place makes it.
pub proof fn law_derived_media_is_known_by_its_references(
    records: Seq<RecordView>,
    path: Seq<char>,
    fallback: MediaCategory,
)
    ensures
        ({
            let derived = exists|i: int|
                0 <= i < records.len() && (#[trigger] records[i]).path == path && !(
                records[i].role is TerminalMissing) && (records[i].category is Waveform
                    || records[i].category is TranscodedOutput);
            &&& derived ==> claimed_category(records, path, fallback) is Waveform
                || claimed_category(records, path, fallback) is TranscodedOutput
            &&& !derived ==> claimed_category(records, path, fallback) == fallback
        }),
{
    let claims = claims_on(records, path);
    lemma_derived_category(claims);
    if exists|i: int|
        0 <= i < records.len() && (#[trigger] records[i]).path == path && !(
        records[i].role is TerminalMissing) && (records[i].category is Waveform
            || records[i].category is TranscodedOutput) {
        let i = choose|i: int|
            0 <= i < records.len() && (#[trigger] records[i]).path == path && !(
            records[i].role is TerminalMissing) && (records[i].category is Waveform
                || records[i].category is TranscodedOutput);
        let claim = ClaimView {
            role: records[i].role,
            category: records[i].category,
            owner: records[i].owner,
        };
        law_claims_are_made_by_references(records, path, claim);
        assert(claims.contains(claim));
        let k = choose|k: int| 0 <= k < claims.len() && claims[k] == claim;
        assert(claims[k].category is Waveform || claims[k].category is TranscodedOutput);
    } else if derived_category(claims) is Some {
        let k = choose|k: int|
            0 <= k < claims.len() && ((#[trigger] claims[k]).category is Waveform
                || claims[k].category is TranscodedOutput);
        law_claims_are_made_by_references(records, path, claims[k]);
        assert(claims.contains(claims[k]));
    }
}

/// A table's rows count up to the limit; where there are more, the snapshot is incomplete.
pub proof fn law_rows_are_read_up_to_the_limit<T>(m: ModelView, rows: Seq<T>, limit: usize)
    requires
        m.database_rows_scanned <= limit,
    ensures
        ({
            let left = rows_left(m, limit);
            let after = counted(m, rows.len(), left);
            let kept = kept_rows(rows, left);
            &&& left + m.database_rows_scanned == limit
            &&& kept.len() <= left
            &&& after.database_rows_scanned == m.database_rows_scanned + kept.len()
            &&& after.incomplete <==> m.incomplete || kept.len() < rows.len()
            &&& kept.len() < rows.len() ==> after.database_rows_scanned == limit
            &&& forall|i: int| 0 <= i < kept.len() ==> #[trigger] kept[i] == rows[i]
            &&& after.records == m.records && after.boards == m.boards
        }),
{
}

} // verus!
