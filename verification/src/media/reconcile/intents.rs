//! Durable filesystem intents and the media that they claim.

use vstd::prelude::*;
use vstd::string::*;
use crate::media::prune::{CandidatePath, CandidatePathView};
use crate::numbers;
use crate::numbers::numbered;
use crate::paths;
use crate::paths::{path_components, path_file_name, Part, PartView};
use crate::text;
use crate::text::{concat, insert_once, join, list_holds, split_at_char, str_eq};
use super::jobs;
use super::model;
use super::model::{
    count_rows, is_valid_board_short, parse_managed_path, redacted_identifier, remaining_rows,
    AuditFinding, ClaimView, FindingView, IntentCandidateView, IntentRepairCandidate, ManagedPath,
    ManagedView, MediaState, ModelView, RecordView, ReferenceModel, ReferenceRecord, ReferenceRole,
    ReferenceSource,
};
use super::report::{AuditClassification, MediaCategory};

verus! {

/// The digest expected of an uploaded artifact.
#[derive(Debug, Clone)]
pub struct ArtifactDigest {
    pub path: String,
    pub sha256: String,
}

/// The model of an artifact's expected digest.
pub struct ArtifactView {
    pub path: Seq<char>,
    pub sha256: Seq<char>,
}

impl View for ArtifactDigest {
    type V = ArtifactView;

    open spec fn view(&self) -> ArtifactView {
        ArtifactView { path: self.path@, sha256: self.sha256@ }
    }
}

/// Where the filesystem places an upload's stage directory.
#[derive(Debug, Clone)]
pub enum StageLocation {
    /// A symbolic link, or something other than a directory.
    Unsafe,
    /// The path could not be resolved.
    Unresolved,
    /// The path resolved to one that is not valid UTF-8.
    NonUtf8 { below_pending: bool },
    /// The resolved absolute path.
    Resolved(String),
}

/// The model of a stage location.
pub enum StageView {
    Unsafe,
    Unresolved,
    NonUtf8 { below_pending: bool },
    Resolved(Seq<char>),
}

impl View for StageLocation {
    type V = StageView;

    open spec fn view(&self) -> StageView {
        match self {
            StageLocation::Unsafe => StageView::Unsafe,
            StageLocation::Unresolved => StageView::Unresolved,
            StageLocation::NonUtf8 { below_pending } => StageView::NonUtf8 {
                below_pending: *below_pending,
            },
            StageLocation::Resolved(path) => StageView::Resolved(path@),
        }
    }
}

/// An upload that is to be moved from its stage into place.
#[derive(Debug, Clone)]
pub struct UploadFinalize {
    pub stage_dir: String,
    pub relative_paths: Vec<String>,
    pub optional_paths: Vec<String>,
    pub artifact_sha256: Vec<ArtifactDigest>,
    /// The resolved upload root, where it could be resolved.
    pub root: Option<String>,
    /// Where the stage directory was found to be.
    pub stage: StageLocation,
}

/// The model of an upload that is to be moved into place.
pub struct UploadView {
    pub stage_dir: Seq<char>,
    pub relative_paths: Seq<Seq<char>>,
    pub optional_paths: Seq<Seq<char>>,
    pub artifact_sha256: Seq<ArtifactView>,
    pub root: Option<Seq<char>>,
    pub stage: StageView,
}

impl View for UploadFinalize {
    type V = UploadView;

    open spec fn view(&self) -> UploadView {
        UploadView {
            stage_dir: self.stage_dir@,
            relative_paths: text::views(self.relative_paths@),
            optional_paths: text::views(self.optional_paths@),
            artifact_sha256: text::views(self.artifact_sha256@),
            root: text::opt_view(self.root),
            stage: self.stage@,
        }
    }
}

/// What an intent row asks for, decoded from its payload.
#[derive(Debug, Clone)]
pub enum IntentBody {
    /// Deletes files and whole board directories.
    DeleteFiles { paths: Vec<String>, dirs: Vec<String> },
    /// Prunes the originals of posts.
    OriginalPrune { post_ids: Vec<i64>, paths: Vec<CandidatePath> },
    /// Moves an upload into place.
    UploadFinalize(UploadFinalize),
    /// Deletes banner assets.
    DeleteBannerAssets,
    /// Replaces all media by a restored backup.
    FullRestoreSwap,
    /// Replaces one board's media by a restored backup.
    BoardRestoreSwap { live: String },
    /// The payload does not fit the row's kind.
    Undecodable,
    /// The row's kind is not known.
    UnknownKind,
}

/// The model of an intent.
pub enum IntentView {
    DeleteFiles { paths: Seq<Seq<char>>, dirs: Seq<Seq<char>> },
    OriginalPrune { post_ids: Seq<i64>, paths: Seq<CandidatePathView> },
    UploadFinalize(UploadView),
    DeleteBannerAssets,
    FullRestoreSwap,
    BoardRestoreSwap { live: Seq<char> },
    Undecodable,
    UnknownKind,
}

impl View for IntentBody {
    type V = IntentView;

    open spec fn view(&self) -> IntentView {
        match self {
            IntentBody::DeleteFiles { paths, dirs } => IntentView::DeleteFiles {
                paths: text::views(paths@),
                dirs: text::views(dirs@),
            },
            IntentBody::OriginalPrune { post_ids, paths } => IntentView::OriginalPrune {
                post_ids: post_ids@,
                paths: text::views(paths@),
            },
            IntentBody::UploadFinalize(upload) => IntentView::UploadFinalize(upload@),
            IntentBody::DeleteBannerAssets => IntentView::DeleteBannerAssets,
            IntentBody::FullRestoreSwap => IntentView::FullRestoreSwap,
            IntentBody::BoardRestoreSwap { live } => IntentView::BoardRestoreSwap { live: live@ },
            IntentBody::Undecodable => IntentView::Undecodable,
            IntentBody::UnknownKind => IntentView::UnknownKind,
        }
    }
}

/// A row of the intent table.
#[derive(Debug, Clone)]
pub struct IntentRow {
    pub id: String,
    pub kind: String,
    pub payload_json: String,
    pub body: IntentBody,
}

/// The model of an intent row.
pub struct IntentRowView {
    pub id: Seq<char>,
    pub kind: Seq<char>,
    pub payload_json: Seq<char>,
    pub body: IntentView,
}

impl View for IntentRow {
    type V = IntentRowView;

    open spec fn view(&self) -> IntentRowView {
        IntentRowView {
            id: self.id@,
            kind: self.kind@,
            payload_json: self.payload_json@,
            body: self.body@,
        }
    }
}

/// Why an intent row cannot be used.
#[derive(Debug, Clone, Copy, PartialEq, Eq, Structural)]
pub enum IntentError {
    /// The row is malformed.
    Malformed,
    /// The row points outside the managed directories.
    UnsafePath,
}

/// A snapshot, and the error that stopped its last row, if one did.
pub struct Collected {
    pub model: ModelView,
    pub error: Option<IntentError>,
}

/// A snapshot whose last row was used in full.
pub open spec fn collected(model: ModelView) -> Collected {
    Collected { model, error: None }
}

/// A snapshot whose last row was given up.
pub open spec fn given_up(model: ModelView, error: IntentError) -> Collected {
    Collected { model, error: Some(error) }
}

/// The owner under which an intent's claims are shown.
pub open spec fn intent_owner(id: Seq<char>) -> Seq<char> {
    "intent:"@ + id
}

/// The snapshot with one more path that an intent will delete.
pub open spec fn with_deletion(m: ModelView, id: Seq<char>, path: ManagedView, conflict: bool) -> ModelView {
    let m1 = m.with_record(
        RecordView {
            source: ReferenceSource::Intent,
            path: path.relative,
            board: Some(path.board),
            category: path.category,
            role: ReferenceRole::ScheduledDeletion,
            owner: intent_owner(id),
            expected_digest: None,
            recoverable_source: None,
        },
    );
    if conflict {
        m1.ambiguous().with_finding(
            FindingView {
                classification: AuditClassification::IntentConflictsWithActiveReference,
                category: path.category,
                board: Some(path.board),
                managed_id: path.relative,
                owner: Some(intent_owner(id)),
            },
        )
    } else {
        m1
    }
}

fn add_deletion(m: &mut ReferenceModel, id: &str, path: ManagedPath, conflict: bool)
    ensures
        final(m)@ == with_deletion(old(m)@, id@, path@, conflict),
{
    m.add_record(
        ReferenceRecord {
            source: ReferenceSource::Intent,
            path: path.relative.clone(),
            board: Some(path.board.clone()),
            category: path.category,
            role: ReferenceRole::ScheduledDeletion,
            owner: concat("intent:", id),
            expected_digest: None,
            recoverable_source: None,
        },
    );
    if conflict {
        m.mark_ambiguous();
        m.add_finding(
            AuditFinding {
                classification: AuditClassification::IntentConflictsWithActiveReference,
                category: path.category,
                board: Some(path.board),
                managed_id: path.relative,
                owner: Some(concat("intent:", id)),
            },
        );
    }
}

/// The snapshot with one more path that a deletion intent covers. A claim that
/// keeps the path's file conflicts with it.
pub open spec fn with_scheduled(m: ModelView, id: Seq<char>, path: ManagedView) -> ModelView {
    with_deletion(m, id, path, model::required_on(m.records, path.relative).len() > 0)
}

/// Adds a path that a deletion intent covers.
pub fn add_scheduled_intent_claim(m: &mut ReferenceModel, id: &str, path: ManagedPath)
    ensures
        final(m)@ == with_scheduled(old(m)@, id@, path@),
{
    let required = m.required_claims(path.relative.as_str());
    let conflict = required.len() > 0;
    assert(text::views(required@).len() == required@.len());
    add_deletion(m, id, path, conflict);
}

/// Whether some claim keeps the path for more than the posts being pruned.
pub open spec fn claimed_elsewhere(claims: Seq<ClaimView>, protected: Seq<Seq<char>>) -> bool {
    exists|i: int|
        0 <= i < claims.len() && !((#[trigger] claims[i]).role is Temporary && text::holds(
            protected,
            claims[i].owner,
        ))
}

/// The snapshot with one more original that a pruning intent covers.
pub open spec fn with_prune_claim(
    m: ModelView,
    id: Seq<char>,
    path: ManagedView,
    protected: Seq<Seq<char>>,
) -> ModelView {
    with_deletion(
        m,
        id,
        path,
        claimed_elsewhere(model::required_on(m.records, path.relative), protected),
    )
}

/// Adds an original that a pruning intent covers.
pub fn add_original_prune_claim(
    m: &mut ReferenceModel,
    id: &str,
    path: ManagedPath,
    protected_posts: &Vec<String>,
)
    ensures
        final(m)@ == with_prune_claim(old(m)@, id@, path@, text::views(protected_posts@)),
{
    let required = m.required_claims(path.relative.as_str());
    let ghost claims = text::views(required@);
    let ghost protected = text::views(protected_posts@);
    let mut conflict = false;
    let mut i: usize = 0;
    while i < required.len()
        invariant
            i <= required@.len(),
            claims == text::views(required@),
            protected == text::views(protected_posts@),
            conflict == claimed_elsewhere(claims.take(i as int), protected),
        decreases required@.len() - i,
    {
        let claim = &required[i];
        let ghost now = claims.take(i as int + 1);
        let ghost before = claims.take(i as int);
        assert(claims[i as int] == claim@);
        let own = claim.role == ReferenceRole::Temporary && list_holds(
            protected_posts,
            claim.owner.as_str(),
        );
        proof {
            if conflict {
                let j = choose|j: int|
                    0 <= j < before.len() && !((#[trigger] before[j]).role is Temporary
                        && text::holds(protected, before[j].owner));
                assert(now[j] == before[j]);
            }
            if claimed_elsewhere(now, protected) && own {
                let j = choose|j: int|
                    0 <= j < now.len() && !((#[trigger] now[j]).role is Temporary && text::holds(
                        protected,
                        now[j].owner,
                    ));
                assert(before[j] == now[j]);
            }
            assert(now[i as int] == claim@);
        }
        if !own {
            conflict = true;
        }
        i = i + 1;
    }
    assert(claims.take(claims.len() as int) =~= claims);
    add_deletion(m, id, path, conflict);
}

/// The snapshot after the paths of a deletion intent, up to the first that is
/// not managed.
pub open spec fn with_delete_paths(m: ModelView, id: Seq<char>, paths: Seq<Seq<char>>) -> Collected
    decreases paths.len(),
{
    if paths.len() == 0 {
        collected(m)
    } else {
        let before = with_delete_paths(m, id, paths.drop_last());
        if before.error is Some {
            before
        } else {
            match model::managed_path(paths.last(), None, before.model.boards) {
                Some(path) => collected(with_scheduled(before.model, id, path)),
                None => given_up(before.model, IntentError::UnsafePath),
            }
        }
    }
}

/// The snapshot after the directories of a deletion intent, up to the first that
/// is no known board.
pub open spec fn with_delete_dirs(m: ModelView, dirs: Seq<Seq<char>>) -> Collected
    decreases dirs.len(),
{
    if dirs.len() == 0 {
        collected(m)
    } else {
        let before = with_delete_dirs(m, dirs.drop_last());
        if before.error is Some {
            before
        } else if !model::valid_board(dirs.last()) || !text::holds(
            before.model.boards,
            dirs.last(),
        ) {
            given_up(before.model, IntentError::UnsafePath)
        } else {
            collected(before.model.with_scheduled_board(dirs.last()))
        }
    }
}

/// The snapshot after a deletion intent.
pub open spec fn with_delete_intent(
    m: ModelView,
    id: Seq<char>,
    paths: Seq<Seq<char>>,
    dirs: Seq<Seq<char>>,
) -> Collected {
    if paths.len() == 0 && dirs.len() == 0 {
        given_up(m, IntentError::Malformed)
    } else {
        let files = with_delete_paths(m, id, paths);
        if files.error is Some {
            files
        } else {
            with_delete_dirs(files.model, dirs)
        }
    }
}

fn collect_delete_paths(m: &mut ReferenceModel, id: &str, paths: &Vec<String>) -> (r: Result<
    (),
    IntentError,
>)
    ensures
        with_delete_paths(old(m)@, id@, text::views(paths@)) == (Collected {
            model: final(m)@,
            error: match r {
                Ok(_) => None,
                Err(e) => Some(e),
            },
        }),
{
    let ghost start = m@;
    let ghost all = text::views(paths@);
    let mut i: usize = 0;
    assert(all.take(0) =~= Seq::<Seq<char>>::empty());
    while i < paths.len()
        invariant
            i <= paths@.len(),
            all == text::views(paths@),
            with_delete_paths(start, id@, all.take(i as int)) == collected(m@),
            start == old(m)@,
        decreases paths@.len() - i,
    {
        assert(all.take(i as int + 1).drop_last() =~= all.take(i as int));
        assert(all.take(i as int + 1).last() == paths@[i as int]@);
        match parse_managed_path(paths[i].as_str(), None, &m.boards) {
            Some(path) => {
                add_scheduled_intent_claim(m, id, path);
            },
            None => {
                proof {
                    lemma_delete_paths_stop(start, id@, all, i as int + 1);
                }
                return Err(IntentError::UnsafePath);
            },
        }
        i = i + 1;
    }
    assert(all.take(all.len() as int) =~= all);
    Ok(())
}

proof fn lemma_delete_paths_stop(m: ModelView, id: Seq<char>, paths: Seq<Seq<char>>, n: int)
    requires
        0 <= n <= paths.len(),
        with_delete_paths(m, id, paths.take(n)).error is Some,
    ensures
        with_delete_paths(m, id, paths) == with_delete_paths(m, id, paths.take(n)),
    decreases paths.len() - n,
{
    if n < paths.len() {
        assert(paths.take(n + 1).drop_last() =~= paths.take(n));
        lemma_delete_paths_stop(m, id, paths, n + 1);
    } else {
        assert(paths.take(n) =~= paths);
    }
}

proof fn lemma_delete_dirs_stop(m: ModelView, dirs: Seq<Seq<char>>, n: int)
    requires
        0 <= n <= dirs.len(),
        with_delete_dirs(m, dirs.take(n)).error is Some,
    ensures
        with_delete_dirs(m, dirs) == with_delete_dirs(m, dirs.take(n)),
    decreases dirs.len() - n,
{
    if n < dirs.len() {
        assert(dirs.take(n + 1).drop_last() =~= dirs.take(n));
        lemma_delete_dirs_stop(m, dirs, n + 1);
    } else {
        assert(dirs.take(n) =~= dirs);
    }
}

fn schedule_board(m: &mut ReferenceModel, board: &str)
    ensures
        final(m)@ == old(m)@.with_scheduled_board(board@),
{
    insert_once(&mut m.scheduled_boards, board);
}

/// Reads a deletion intent into the snapshot.
pub fn collect_delete_intent(
    m: &mut ReferenceModel,
    id: &str,
    paths: &Vec<String>,
    dirs: &Vec<String>,
) -> (r: Result<(), IntentError>)
    ensures
        with_delete_intent(old(m)@, id@, text::views(paths@), text::views(dirs@)) == (Collected {
            model: final(m)@,
            error: match r {
                Ok(_) => None,
                Err(e) => Some(e),
            },
        }),
{
    if paths.len() == 0 && dirs.len() == 0 {
        return Err(IntentError::Malformed);
    }
    match collect_delete_paths(m, id, paths) {
        Ok(_) => {},
        Err(e) => {
            return Err(e);
        },
    }
    let ghost start = m@;
    let ghost all = text::views(dirs@);
    let ghost whole = with_delete_intent(old(m)@, id@, text::views(paths@), all);
    assert(whole == with_delete_dirs(start, all));
    let mut i: usize = 0;
    assert(all.take(0) =~= Seq::<Seq<char>>::empty());
    while i < dirs.len()
        invariant
            i <= dirs@.len(),
            all == text::views(dirs@),
            with_delete_dirs(start, all.take(i as int)) == collected(m@),
            whole == with_delete_dirs(start, all),
            whole == with_delete_intent(old(m)@, id@, text::views(paths@), text::views(dirs@)),
        decreases dirs@.len() - i,
    {
        assert(all.take(i as int + 1).drop_last() =~= all.take(i as int));
        assert(all.take(i as int + 1).last() == dirs@[i as int]@);
        let board = dirs[i].as_str();
        if !is_valid_board_short(board) || !list_holds(&m.boards, board) {
            proof {
                lemma_delete_dirs_stop(start, all, i as int + 1);
            }
            return Err(IntentError::UnsafePath);
        }
        schedule_board(m, board);
        i = i + 1;
    }
    assert(all.take(all.len() as int) =~= all);
    Ok(())
}

/// The owners of the posts being pruned.
pub open spec fn post_owners(post_ids: Seq<i64>) -> Seq<Seq<char>> {
    post_ids.map_values(|id: i64| "post:"@ + numbers::int_text(id as int))
}

/// Whether every post is about to be pruned.
pub open spec fn all_prune_pending(m: ModelView, post_ids: Seq<i64>) -> bool {
    forall|i: int|
        0 <= i < post_ids.len() ==> match jobs::post_of(m, #[trigger] post_ids[i]) {
            Some(post) => post.media_state is PrunePending,
            None => false,
        }
}

/// The snapshot after the originals of a pruning intent, up to the first that
/// is not managed.
pub open spec fn with_prune_paths(
    m: ModelView,
    id: Seq<char>,
    targets: Seq<CandidatePathView>,
    protected: Seq<Seq<char>>,
) -> Collected
    decreases targets.len(),
{
    if targets.len() == 0 {
        collected(m)
    } else {
        let before = with_prune_paths(m, id, targets.drop_last(), protected);
        if before.error is Some {
            before
        } else {
            match model::managed_path(
                targets.last().path,
                Some(targets.last().board_short),
                before.model.boards,
            ) {
                Some(path) => collected(with_prune_claim(before.model, id, path, protected)),
                None => given_up(before.model, IntentError::UnsafePath),
            }
        }
    }
}

/// The snapshot after a pruning intent.
pub open spec fn with_prune_intent(
    m: ModelView,
    id: Seq<char>,
    post_ids: Seq<i64>,
    targets: Seq<CandidatePathView>,
) -> Collected {
    if post_ids.len() == 0 || targets.len() == 0 || !all_prune_pending(m, post_ids) {
        given_up(m, IntentError::Malformed)
    } else {
        with_prune_paths(m, id, targets, post_owners(post_ids))
    }
}

proof fn lemma_prune_paths_stop(
    m: ModelView,
    id: Seq<char>,
    targets: Seq<CandidatePathView>,
    protected: Seq<Seq<char>>,
    n: int,
)
    requires
        0 <= n <= targets.len(),
        with_prune_paths(m, id, targets.take(n), protected).error is Some,
    ensures
        with_prune_paths(m, id, targets, protected) == with_prune_paths(
            m,
            id,
            targets.take(n),
            protected,
        ),
    decreases targets.len() - n,
{
    if n < targets.len() {
        assert(targets.take(n + 1).drop_last() =~= targets.take(n));
        lemma_prune_paths_stop(m, id, targets, protected, n + 1);
    } else {
        assert(targets.take(n) =~= targets);
    }
}

fn owners_of_posts(post_ids: &Vec<i64>) -> (r: Vec<String>)
    ensures
        text::views(r@) == post_owners(post_ids@),
{
    broadcast use text::group_views;

    let mut owners: Vec<String> = Vec::new();
    let mut i: usize = 0;
    assert(text::views(owners@) =~= post_owners(post_ids@.take(0)));
    while i < post_ids.len()
        invariant
            i <= post_ids@.len(),
            text::views(owners@) == post_owners(post_ids@.take(i as int)),
        decreases post_ids@.len() - i,
    {
        broadcast use text::group_views;

        owners.push(numbered("post:", post_ids[i]));
        assert(post_owners(post_ids@.take(i as int + 1)) =~= post_owners(
            post_ids@.take(i as int),
        ).push("post:"@ + numbers::int_text(post_ids@[i as int] as int)));
        i = i + 1;
    }
    assert(post_ids@.take(post_ids@.len() as int) =~= post_ids@);
    owners
}

fn posts_are_prune_pending(m: &ReferenceModel, post_ids: &Vec<i64>) -> (r: bool)
    ensures
        r == all_prune_pending(m@, post_ids@),
{
    let mut i: usize = 0;
    while i < post_ids.len()
        invariant
            i <= post_ids@.len(),
            forall|j: int|
                0 <= j < i ==> match jobs::post_of(m@, #[trigger] post_ids@[j]) {
                    Some(post) => post.media_state is PrunePending,
                    None => false,
                },
        decreases post_ids@.len() - i,
    {
        broadcast use vstd::std_specs::btree::group_btree_axioms;

        let ghost id = post_ids@[i as int];
        match m.posts.get(&post_ids[i]) {
            Some(post) => {
                assert(jobs::post_of(m@, id) == Some(post@));
                if post.media_state != MediaState::PrunePending {
                    return false;
                }
            },
            None => {
                assert(jobs::post_of(m@, id) is None);
                return false;
            },
        }
        i = i + 1;
    }
    true
}

/// Reads a pruning intent into the snapshot.
pub fn collect_prune_intent(
    m: &mut ReferenceModel,
    id: &str,
    post_ids: &Vec<i64>,
    targets: &Vec<CandidatePath>,
) -> (r: Result<(), IntentError>)
    ensures
        with_prune_intent(old(m)@, id@, post_ids@, text::views(targets@)) == (Collected {
            model: final(m)@,
            error: match r {
                Ok(_) => None,
                Err(e) => Some(e),
            },
        }),
{
    if post_ids.len() == 0 || targets.len() == 0 {
        return Err(IntentError::Malformed);
    }
    if !posts_are_prune_pending(m, post_ids) {
        return Err(IntentError::Malformed);
    }
    let protected = owners_of_posts(post_ids);
    let ghost start = m@;
    let ghost all = text::views(targets@);
    let ghost owners = text::views(protected@);
    let mut i: usize = 0;
    assert(all.take(0) =~= Seq::<CandidatePathView>::empty());
    while i < targets.len()
        invariant
            i <= targets@.len(),
            all == text::views(targets@),
            owners == text::views(protected@),
            with_prune_paths(start, id@, all.take(i as int), owners) == collected(m@),
            with_prune_intent(old(m)@, id@, post_ids@, text::views(targets@)) == with_prune_paths(
                start,
                id@,
                all,
                owners,
            ),
        decreases targets@.len() - i,
    {
        let target = &targets[i];
        assert(all.take(i as int + 1).drop_last() =~= all.take(i as int));
        assert(all.take(i as int + 1).last() == target@);
        match parse_managed_path(
            target.path.as_str(),
            Some(target.board_short.as_str()),
            &m.boards,
        ) {
            Some(path) => {
                add_original_prune_claim(m, id, path, &protected);
            },
            None => {
                proof {
                    lemma_prune_paths_stop(start, id@, all, owners, i as int + 1);
                }
                return Err(IntentError::UnsafePath);
            },
        }
        i = i + 1;
    }
    assert(all.take(all.len() as int) =~= all);
    Ok(())
}

/// The text of a path component.
pub open spec fn part_text(part: PartView) -> Seq<char> {
    match part {
        PartView::Root => "/"@,
        PartView::Current => "."@,
        PartView::Parent => ".."@,
        PartView::Normal(name) => name,
    }
}

/// The components of the directory in which uploads are staged.
pub open spec fn pending_root(root: Seq<char>) -> Seq<PartView> {
    paths::components(root).push(PartView::Normal(".pending"@))
}

/// Whether the first components are those of the second and more.
pub open spec fn lies_below(parts: Seq<PartView>, root: Seq<PartView>) -> bool {
    root.len() < parts.len() && parts.take(root.len() as int) == root
}

/// The path of an upload's stage relative to the upload root, where it is a
/// directory below the one in which uploads are staged.
pub open spec fn stage_relative(upload: UploadView) -> Result<Seq<char>, IntentError> {
    if upload.root is None {
        Err(IntentError::Malformed)
    } else if !paths::is_absolute(upload.stage_dir) || paths::components(
        upload.stage_dir,
    ).contains(PartView::Parent) {
        Err(IntentError::UnsafePath)
    } else {
        match upload.stage {
            StageView::Unsafe => Err(IntentError::UnsafePath),
            StageView::Unresolved => Err(IntentError::Malformed),
            StageView::NonUtf8 { below_pending } => if below_pending {
                Err(IntentError::Malformed)
            } else {
                Err(IntentError::UnsafePath)
            },
            StageView::Resolved(path) => {
                let parts = paths::components(path);
                let root = upload.root->Some_0;
                if lies_below(parts, pending_root(root)) {
                    Ok(
                        text::joined(
                            parts.skip(paths::components(root).len() as int).map_values(
                                |p: PartView| part_text(p),
                            ),
                            "/"@,
                        ),
                    )
                } else {
                    Err(IntentError::UnsafePath)
                }
            },
        }
    }
}

fn write_part(part: &Part) -> (r: String)
    ensures
        r@ == part_text(part@),
{
    match part {
        Part::Root => "/".to_owned(),
        Part::Current => ".".to_owned(),
        Part::Parent => "..".to_owned(),
        Part::Normal(name) => name.clone(),
    }
}

fn same_part(a: &Part, b: &Part) -> (r: bool)
    ensures
        r == (a@ == b@),
{
    match (a, b) {
        (Part::Root, Part::Root) => true,
        (Part::Current, Part::Current) => true,
        (Part::Parent, Part::Parent) => true,
        (Part::Normal(x), Part::Normal(y)) => str_eq(x.as_str(), y.as_str()),
        _ => false,
    }
}

fn goes_up(path: &str) -> (r: bool)
    ensures
        r == paths::components(path@).contains(PartView::Parent),
{
    let parts = path_components(path);
    let ghost all = text::views(parts@);
    let mut i: usize = 0;
    while i < parts.len()
        invariant
            i <= parts@.len(),
            all == text::views(parts@),
            all == paths::components(path@),
            forall|j: int| 0 <= j < i ==> all[j] != PartView::Parent,
        decreases parts@.len() - i,
    {
        if same_part(&parts[i], &Part::Parent) {
            assert(all[i as int] == PartView::Parent);
            return true;
        }
        i = i + 1;
    }
    false
}

fn begins_with_slash(path: &str) -> (r: bool)
    ensures
        r == paths::is_absolute(path@),
{
    let a = text::chars_of(path);
    a.len() > 0 && a[0] == '/'
}

/// Where a resolved stage lies below the upload root.
fn resolve_stage(root: &str, path: &str) -> (r: Option<String>)
    ensures
        text::opt_view(r) == (if lies_below(paths::components(path@), pending_root(root@)) {
            Some(
                text::joined(
                    paths::components(path@).skip(
                        paths::components(root@).len() as int,
                    ).map_values(|p: PartView| part_text(p)),
                    "/"@,
                ),
            )
        } else {
            None
        }),
{
    broadcast use text::group_views;

    let parts = path_components(path);
    let mut base = path_components(root);
    let root_len: usize = base.len();
    base.push(Part::Normal(".pending".to_owned()));
    let ghost p = text::views(parts@);
    let ghost b = text::views(base@);
    assert(b =~= pending_root(root@));
    if base.len() >= parts.len() {
        return None;
    }
    let mut i: usize = 0;
    while i < base.len()
        invariant
            i <= base@.len() < parts@.len(),
            p == text::views(parts@),
            b == text::views(base@),
            p == paths::components(path@),
            b == pending_root(root@),
            forall|j: int| 0 <= j < i ==> p[j] == b[j],
        decreases base@.len() - i,
    {
        if !same_part(&parts[i], &base[i]) {
            assert(p[i as int] != b[i as int]);
            assert(p.take(b.len() as int)[i as int] != b[i as int]);
            return None;
        }
        assert(p[i as int] == b[i as int]);
        i = i + 1;
    }
    assert(p.take(b.len() as int) =~= b);
    let mut names: Vec<String> = Vec::new();
    let mut k: usize = root_len;
    let ghost rest = p.skip(root_len as int).map_values(|q: PartView| part_text(q));
    assert(text::views(names@) =~= rest.take(0));
    while k < parts.len()
        invariant
            root_len <= k <= parts@.len(),
            p == text::views(parts@),
            rest == p.skip(root_len as int).map_values(|q: PartView| part_text(q)),
            text::views(names@) == rest.take(k - root_len),
        decreases parts@.len() - k,
    {
        broadcast use text::group_views;

        names.push(write_part(&parts[k]));
        assert(rest[k - root_len] == part_text(parts@[k as int]@));
        assert(rest.take(k - root_len + 1) =~= rest.take(k - root_len).push(rest[k - root_len]));
        k = k + 1;
    }
    assert(rest.take(rest.len() as int) =~= rest);
    Some(join(&names, "/"))
}

/// The path of an upload's stage relative to the upload root.
pub fn locate_stage(upload: &UploadFinalize) -> (r: Result<String, IntentError>)
    ensures
        match r {
            Ok(path) => stage_relative(upload@) == Ok::<Seq<char>, IntentError>(path@),
            Err(e) => stage_relative(upload@) == Err::<Seq<char>, IntentError>(e),
        },
{
    let root = match &upload.root {
        Some(root) => root.as_str(),
        None => {
            return Err(IntentError::Malformed);
        },
    };
    if !begins_with_slash(upload.stage_dir.as_str()) || goes_up(upload.stage_dir.as_str()) {
        return Err(IntentError::UnsafePath);
    }
    match &upload.stage {
        StageLocation::Unsafe => Err(IntentError::UnsafePath),
        StageLocation::Unresolved => Err(IntentError::Malformed),
        StageLocation::NonUtf8 { below_pending } => if *below_pending {
            Err(IntentError::Malformed)
        } else {
            Err(IntentError::UnsafePath)
        },
        StageLocation::Resolved(path) => match resolve_stage(root, path.as_str()) {
            Some(relative) => Ok(relative),
            None => Err(IntentError::UnsafePath),
        },
    }
}

/// The paths of all artifacts of an upload, the required ones first.
pub open spec fn artifact_paths(upload: UploadView) -> Seq<Seq<char>> {
    upload.relative_paths + upload.optional_paths
}

/// The digest expected of an artifact.
pub open spec fn artifact_digest(digests: Seq<ArtifactView>, path: Seq<char>) -> Option<Seq<char>>
    decreases digests.len(),
{
    if digests.len() == 0 {
        None
    } else {
        match artifact_digest(digests.drop_last(), path) {
            Some(sha256) => Some(sha256),
            None => if digests.last().path == path {
                Some(digests.last().sha256)
            } else {
                None
            },
        }
    }
}

/// The snapshot with the two references that an uploaded artifact makes: to its
/// destination and to its place in the stage.
pub open spec fn with_artifact(
    m: ModelView,
    id: Seq<char>,
    upload: UploadView,
    stage: Seq<char>,
    raw_path: Seq<char>,
    managed: ManagedView,
) -> ModelView {
    let staged = stage + "/"@ + managed.relative;
    let digest = artifact_digest(upload.artifact_sha256, raw_path);
    m.with_record(
        RecordView {
            source: ReferenceSource::Intent,
            path: managed.relative,
            board: Some(managed.board),
            category: managed.category,
            role: ReferenceRole::Temporary,
            owner: intent_owner(id),
            expected_digest: digest,
            recoverable_source: Some(staged),
        },
    ).with_record(
        RecordView {
            source: ReferenceSource::Intent,
            path: staged,
            board: Some(managed.board),
            category: MediaCategory::UploadStage,
            role: ReferenceRole::Temporary,
            owner: intent_owner(id),
            expected_digest: digest,
            recoverable_source: Some(managed.relative),
        },
    )
}

/// The snapshot after the first `n` artifacts of an upload, up to the first that
/// is repeated, not managed, or optional without being a thumbnail.
pub open spec fn with_artifacts(
    m: ModelView,
    id: Seq<char>,
    upload: UploadView,
    stage: Seq<char>,
    n: nat,
) -> Collected
    decreases n,
{
    if n == 0 {
        collected(m)
    } else {
        let before = with_artifacts(m, id, upload, stage, (n - 1) as nat);
        let paths = artifact_paths(upload);
        let raw_path = paths[n - 1];
        if before.error is Some {
            before
        } else if paths.take(n - 1).contains(raw_path) {
            given_up(before.model, IntentError::Malformed)
        } else {
            match model::managed_path(raw_path, None, before.model.boards) {
                None => given_up(before.model, IntentError::UnsafePath),
                Some(managed) => if n > upload.relative_paths.len() && !(
                managed.category is Thumbnail) {
                    given_up(before.model, IntentError::Malformed)
                } else {
                    collected(with_artifact(before.model, id, upload, stage, raw_path, managed))
                },
            }
        }
    }
}

/// The snapshot after an upload intent.
pub open spec fn with_upload_intent(m: ModelView, id: Seq<char>, upload: UploadView) -> Collected {
    match stage_relative(upload) {
        Err(e) => given_up(m, e),
        Ok(stage) => if upload.relative_paths.len() == 0 {
            given_up(m, IntentError::Malformed)
        } else {
            let after = with_artifacts(m, id, upload, stage, artifact_paths(upload).len());
            if after.error is Some {
                after
            } else {
                collected(
                    after.model.with_finding(
                        FindingView {
                            classification: AuditClassification::LifecycleInProgress,
                            category: MediaCategory::UploadStage,
                            board: None,
                            managed_id: stage,
                            owner: Some(intent_owner(id)),
                        },
                    ),
                )
            }
        },
    }
}

proof fn lemma_artifacts_stop(
    m: ModelView,
    id: Seq<char>,
    upload: UploadView,
    stage: Seq<char>,
    n: nat,
    all: nat,
)
    requires
        n <= all,
        with_artifacts(m, id, upload, stage, n).error is Some,
    ensures
        with_artifacts(m, id, upload, stage, all) == with_artifacts(m, id, upload, stage, n),
    decreases all - n,
{
    if n < all {
        lemma_artifacts_stop(m, id, upload, stage, n + 1, all);
    }
}

fn find_digest(digests: &Vec<ArtifactDigest>, path: &str) -> (r: Option<String>)
    ensures
        text::opt_view(r) == artifact_digest(text::views(digests@), path@),
{
    let ghost all = text::views(digests@);
    let mut found: Option<String> = None;
    let mut i: usize = 0;
    assert(all.take(0) =~= Seq::<ArtifactView>::empty());
    while i < digests.len()
        invariant
            i <= digests@.len(),
            all == text::views(digests@),
            text::opt_view(found) == artifact_digest(all.take(i as int), path@),
        decreases digests@.len() - i,
    {
        assert(all.take(i as int + 1).drop_last() =~= all.take(i as int));
        assert(all.take(i as int + 1).last() == digests@[i as int]@);
        if found.is_none() && str_eq(digests[i].path.as_str(), path) {
            found = Some(digests[i].sha256.clone());
        }
        i = i + 1;
    }
    assert(all.take(all.len() as int) =~= all);
    found
}

fn add_artifact(
    m: &mut ReferenceModel,
    id: &str,
    upload: &UploadFinalize,
    stage: &str,
    raw_path: &str,
    managed: ManagedPath,
)
    ensures
        final(m)@ == with_artifact(old(m)@, id@, upload@, stage@, raw_path@, managed@),
{
    let mut staged = concat(stage, "/");
    staged.append(managed.relative.as_str());
    m.add_record(
        ReferenceRecord {
            source: ReferenceSource::Intent,
            path: managed.relative.clone(),
            board: Some(managed.board.clone()),
            category: managed.category,
            role: ReferenceRole::Temporary,
            owner: concat("intent:", id),
            expected_digest: find_digest(&upload.artifact_sha256, raw_path),
            recoverable_source: Some(staged.clone()),
        },
    );
    m.add_record(
        ReferenceRecord {
            source: ReferenceSource::Intent,
            path: staged,
            board: Some(managed.board),
            category: MediaCategory::UploadStage,
            role: ReferenceRole::Temporary,
            owner: concat("intent:", id),
            expected_digest: find_digest(&upload.artifact_sha256, raw_path),
            recoverable_source: Some(managed.relative),
        },
    );
}

fn list_artifacts(upload: &UploadFinalize) -> (r: Vec<String>)
    ensures
        text::views(r@) == artifact_paths(upload@),
        upload.relative_paths@.len() <= r@.len(),
{
    let mut all = text::copy_list(&upload.relative_paths);
    let mut optional = text::copy_list(&upload.optional_paths);
    let ghost a = text::views(all@);
    let ghost b = text::views(optional@);
    all.append(&mut optional);
    assert(text::views(all@) =~= a + b);
    all
}

/// Reads an upload intent into the snapshot.
pub fn collect_upload_intent(m: &mut ReferenceModel, id: &str, upload: &UploadFinalize) -> (r:
    Result<(), IntentError>)
    ensures
        with_upload_intent(old(m)@, id@, upload@) == (Collected {
            model: final(m)@,
            error: match r {
                Ok(_) => None,
                Err(e) => Some(e),
            },
        }),
{
    broadcast use text::group_views;

    let stage = match locate_stage(upload) {
        Ok(stage) => stage,
        Err(e) => {
            return Err(e);
        },
    };
    let required: usize = upload.relative_paths.len();
    if required == 0 {
        return Err(IntentError::Malformed);
    }
    let raw = list_artifacts(upload);
    let ghost start = m@;
    let ghost up = upload@;
    let ghost all = text::views(raw@);
    let mut seen: Vec<String> = Vec::new();
    let mut i: usize = 0;
    assert(text::views(seen@) =~= all.take(0));
    while i < raw.len()
        invariant
            i <= raw@.len(),
            up == upload@,
            required == up.relative_paths.len(),
            start == old(m)@,
            stage_relative(up) == Ok::<Seq<char>, IntentError>(stage@),
            required > 0,
            all == text::views(raw@),
            all == artifact_paths(up),
            text::views(seen@) == all.take(i as int),
            with_artifacts(start, id@, up, stage@, i as nat) == collected(m@),
        decreases raw@.len() - i,
    {
        broadcast use text::group_views;

        let path = raw[i].as_str();
        assert(all[i as int] == path@);
        if list_holds(&seen, path) {
            proof {
                lemma_artifacts_stop(start, id@, up, stage@, (i + 1) as nat, all.len());
            }
            return Err(IntentError::Malformed);
        }
        seen.push(path.to_owned());
        assert(all.take(i as int + 1) =~= all.take(i as int).push(path@));
        let managed = match parse_managed_path(path, None, &m.boards) {
            Some(managed) => managed,
            None => {
                proof {
                    lemma_artifacts_stop(start, id@, up, stage@, (i + 1) as nat, all.len());
                }
                return Err(IntentError::UnsafePath);
            },
        };
        if i >= required && managed.category != MediaCategory::Thumbnail {
            proof {
                lemma_artifacts_stop(start, id@, up, stage@, (i + 1) as nat, all.len());
            }
            return Err(IntentError::Malformed);
        }
        add_artifact(m, id, upload, stage.as_str(), path, managed);
        i = i + 1;
    }
    m.add_finding(
        AuditFinding {
            classification: AuditClassification::LifecycleInProgress,
            category: MediaCategory::UploadStage,
            board: None,
            managed_id: stage,
            owner: Some(concat("intent:", id)),
        },
    );
    Ok(())
}

/// The finding that reports an intent in progress.
pub open spec fn progress_finding(id: Seq<char>, board: Option<Seq<char>>, managed_id: Seq<char>) -> FindingView {
    FindingView {
        classification: AuditClassification::LifecycleInProgress,
        category: MediaCategory::Unknown,
        board,
        managed_id,
        owner: Some(intent_owner(id)),
    }
}

/// The snapshot after one intent, and the error that stopped it.
pub open spec fn with_intent(m: ModelView, row: IntentRowView) -> Collected {
    match row.body {
        IntentView::DeleteFiles { paths, dirs } => {
            let after = with_delete_intent(m, row.id, paths, dirs);
            if after.error is Some {
                after
            } else {
                collected(
                    ModelView {
                        intent_candidates: after.model.intent_candidates.push(
                            IntentCandidateView {
                                id: row.id,
                                kind: row.kind,
                                payload_json: row.payload_json,
                            },
                        ),
                        ..after.model
                    },
                )
            }
        },
        IntentView::OriginalPrune { post_ids, paths } => with_prune_intent(
            m,
            row.id,
            post_ids,
            paths,
        ),
        IntentView::UploadFinalize(upload) => with_upload_intent(m, row.id, upload),
        IntentView::DeleteBannerAssets => collected(
            m.with_finding(progress_finding(row.id, None, "banner-assets"@)),
        ),
        IntentView::FullRestoreSwap => collected(
            m.ambiguous().with_finding(progress_finding(row.id, None, "full-restore"@)),
        ),
        IntentView::BoardRestoreSwap { live } => match paths::file_name(live) {
            Some(board) => if text::holds(m.boards, board) {
                collected(
                    m.with_scheduled_board(board).ambiguous().with_finding(
                        progress_finding(row.id, Some(board), "board-restore"@),
                    ),
                )
            } else {
                given_up(m, IntentError::UnsafePath)
            },
            None => given_up(m, IntentError::UnsafePath),
        },
        IntentView::Undecodable => given_up(m, IntentError::Malformed),
        IntentView::UnknownKind => given_up(m, IntentError::Malformed),
    }
}

fn add_progress(m: &mut ReferenceModel, id: &str, board: Option<String>, managed_id: &str)
    ensures
        final(m)@ == old(m)@.with_finding(
            progress_finding(id@, text::opt_view(board), managed_id@),
        ),
{
    m.add_finding(
        AuditFinding {
            classification: AuditClassification::LifecycleInProgress,
            category: MediaCategory::Unknown,
            board,
            managed_id: managed_id.to_owned(),
            owner: Some(concat("intent:", id)),
        },
    );
}

/// Reads one intent into the snapshot.
pub fn collect_intent(m: &mut ReferenceModel, row: &IntentRow) -> (r: Result<(), IntentError>)
    ensures
        with_intent(old(m)@, row@) == (Collected {
            model: final(m)@,
            error: match r {
                Ok(_) => None,
                Err(e) => Some(e),
            },
        }),
{
    broadcast use text::group_views;

    let id = row.id.as_str();
    match &row.body {
        IntentBody::DeleteFiles { paths, dirs } => {
            match collect_delete_intent(m, id, paths, dirs) {
                Ok(_) => {},
                Err(e) => {
                    return Err(e);
                },
            }
            m.intent_candidates.push(
                IntentRepairCandidate {
                    id: row.id.clone(),
                    kind: row.kind.clone(),
                    payload_json: row.payload_json.clone(),
                },
            );
            Ok(())
        },
        IntentBody::OriginalPrune { post_ids, paths } => {
            collect_prune_intent(m, id, post_ids, paths)
        },
        IntentBody::UploadFinalize(upload) => collect_upload_intent(m, id, upload),
        IntentBody::DeleteBannerAssets => {
            add_progress(m, id, None, "banner-assets");
            Ok(())
        },
        IntentBody::FullRestoreSwap => {
            m.mark_ambiguous();
            add_progress(m, id, None, "full-restore");
            Ok(())
        },
        IntentBody::BoardRestoreSwap { live } => match path_file_name(live.as_str()) {
            Some(board) => {
                if !list_holds(&m.boards, board.as_str()) {
                    return Err(IntentError::UnsafePath);
                }
                schedule_board(m, board.as_str());
                m.mark_ambiguous();
                add_progress(m, id, Some(board), "board-restore");
                Ok(())
            },
            None => Err(IntentError::UnsafePath),
        },
        IntentBody::Undecodable => Err(IntentError::Malformed),
        IntentBody::UnknownKind => Err(IntentError::Malformed),
    }
}

/// The snapshot after one intent row: one that cannot be used leaves what it
/// claimed until then, and makes the snapshot ambiguous.
pub open spec fn with_intent_row(m: ModelView, row: IntentRowView) -> ModelView {
    let after = with_intent(m, row);
    match after.error {
        None => after.model,
        Some(e) => after.model.ambiguous().with_finding(
            FindingView {
                classification: if e is UnsafePath {
                    AuditClassification::UnsafeExternalIntent
                } else {
                    AuditClassification::MalformedIntent
                },
                category: MediaCategory::Unknown,
                board: None,
                managed_id: model::redacted(row.payload_json),
                owner: Some(intent_owner(row.id)),
            },
        ),
    }
}

/// The snapshot after all the intent rows.
pub open spec fn with_intents(m: ModelView, rows: Seq<IntentRowView>) -> ModelView
    decreases rows.len(),
{
    if rows.len() == 0 {
        m
    } else {
        with_intent_row(with_intents(m, rows.drop_last()), rows.last())
    }
}

/// The snapshot after the intent table.
pub open spec fn intents_collected(m: ModelView, rows: Seq<IntentRowView>, limit: usize) -> ModelView {
    let left = model::rows_left(m, limit);
    if left == 0 {
        m.truncated()
    } else {
        with_intents(model::counted(m, rows.len(), left), model::kept_rows(rows, left))
    }
}

/// Reads the intent rows into the snapshot.
pub fn collect_intents(m: &mut ReferenceModel, rows: Vec<IntentRow>, row_limit: usize)
    ensures
        final(m)@ == intents_collected(old(m)@, text::views(rows@), row_limit),
{
    broadcast use text::group_views;

    let mut rows = rows;
    let ghost given = text::views(rows@);
    let remaining: usize = remaining_rows(m, row_limit);
    if remaining == 0 {
        return ;
    }
    count_rows(m, &mut rows, remaining);
    let ghost base = m@;
    let ghost all = text::views(rows@);
    assert(all =~= model::kept_rows(given, remaining as nat));
    let mut i: usize = 0;
    assert(all.take(0) =~= Seq::<IntentRowView>::empty());
    while i < rows.len()
        invariant
            i <= rows@.len(),
            all == text::views(rows@),
            m@ == with_intents(base, all.take(i as int)),
        decreases rows@.len() - i,
    {
        let row = &rows[i];
        assert(all.take(i as int + 1).drop_last() =~= all.take(i as int));
        assert(all.take(i as int + 1).last() == row@);
        match collect_intent(m, row) {
            Ok(_) => {},
            Err(e) => {
                m.mark_ambiguous();
                let classification = if e == IntentError::UnsafePath {
                    AuditClassification::UnsafeExternalIntent
                } else {
                    AuditClassification::MalformedIntent
                };
                m.add_finding(
                    AuditFinding {
                        classification,
                        category: MediaCategory::Unknown,
                        board: None,
                        managed_id: redacted_identifier(row.payload_json.as_str()),
                        owner: Some(concat("intent:", row.id.as_str())),
                    },
                );
            },
        }
        i = i + 1;
    }
    assert(all.take(all.len() as int) =~= all);
}

/// A row whose intent cannot be used makes the snapshot ambiguous.
pub proof fn law_unusable_intents_are_ambiguous(m: ModelView, row: IntentRowView)
    requires
        with_intent(m, row).error is Some,
    ensures
        with_intent_row(m, row).global_ambiguity,
{
}

/// Whether an intent claims the path; nothing where the row cannot be read.
pub open spec fn intent_claim(
    body: IntentView,
    staged_root: Option<Seq<char>>,
    candidate: Seq<char>,
) -> Option<bool> {
    match body {
        IntentView::DeleteFiles { paths, dirs } => Some(
            paths.contains(candidate) || dirs.contains(text::split(candidate, '/')[0]),
        ),
        IntentView::OriginalPrune { post_ids: _, paths } => Some(
            exists|i: int| 0 <= i < paths.len() && (#[trigger] paths[i]).path == candidate,
        ),
        IntentView::UploadFinalize(upload) => Some(
            artifact_paths(upload).contains(candidate) || (staged_root is Some && exists|i: int|
                0 <= i < artifact_paths(upload).len() && staged_root->Some_0 + "/"@ + (
                #[trigger] artifact_paths(upload)[i]) == candidate),
        ),
        IntentView::DeleteBannerAssets => Some(false),
        IntentView::FullRestoreSwap => Some(true),
        IntentView::BoardRestoreSwap { live: _ } => Some(true),
        IntentView::Undecodable => None,
        IntentView::UnknownKind => None,
    }
}

/// Whether an intent claims the path. `staged_root` is the stage directory
/// relative to the upload root, where it lies below it.
pub fn intent_claims_path(body: &IntentBody, staged_root: Option<&str>, candidate: &str) -> (r:
    Option<bool>)
    ensures
        r == intent_claim(body@, text::opt_str(staged_root), candidate@),
{
    match body {
        IntentBody::DeleteFiles { paths, dirs } => {
            let pieces = split_at_char(candidate, '/');
            assert(text::views(pieces@)[0] == pieces@[0]@);
            Some(list_holds(paths, candidate) || list_holds(dirs, pieces[0].as_str()))
        },
        IntentBody::OriginalPrune { post_ids: _, paths } => {
            let ghost all = text::views(paths@);
            let mut i: usize = 0;
            while i < paths.len()
                invariant
                    i <= paths@.len(),
                    all == text::views(paths@),
                    forall|j: int| 0 <= j < i ==> (#[trigger] all[j]).path != candidate@,
                    body@ matches IntentView::OriginalPrune { paths: p, .. } && p == all,
                decreases paths@.len() - i,
            {
                assert(all[i as int] == paths@[i as int]@);
                if str_eq(paths[i].path.as_str(), candidate) {
                    return Some(true);
                }
                i = i + 1;
            }
            Some(false)
        },
        IntentBody::UploadFinalize(upload) => {
            let raw = list_artifacts(upload);
            let ghost all = text::views(raw@);
            if list_holds(&raw, candidate) {
                return Some(true);
            }
            let stage = match staged_root {
                Some(stage) => stage,
                None => {
                    return Some(false);
                },
            };
            let mut i: usize = 0;
            while i < raw.len()
                invariant
                    i <= raw@.len(),
                    all == text::views(raw@),
                    all == artifact_paths(upload@),
                    !all.contains(candidate@),
                    text::opt_str(staged_root) == Some(stage@),
                    body@ == IntentView::UploadFinalize(upload@),
                    forall|j: int|
                        0 <= j < i ==> stage@ + "/"@ + (#[trigger] all[j]) != candidate@,
                decreases raw@.len() - i,
            {
                assert(all[i as int] == raw@[i as int]@);
                let mut staged = concat(stage, "/");
                staged.append(raw[i].as_str());
                if str_eq(staged.as_str(), candidate) {
                    return Some(true);
                }
                i = i + 1;
            }
            Some(false)
        },
        IntentBody::DeleteBannerAssets => Some(false),
        IntentBody::FullRestoreSwap => Some(true),
        IntentBody::BoardRestoreSwap { live: _ } => Some(true),
        IntentBody::Undecodable => None,
        IntentBody::UnknownKind => None,
    }
}

/// Whether a reference needs the path's file, other than as work in progress of one of the
/// owners.
pub open spec fn is_needed_beside(
    records: Seq<RecordView>,
    path: Seq<char>,
    owners: Seq<Seq<char>>,
) -> bool {
    exists|i: int|
        0 <= i < records.len() && (#[trigger] records[i]).path == path && model::is_needed_by(
            records[i].role,
        ) && !(records[i].role is Temporary && owners.contains(records[i].owner))
}

proof fn lemma_claimed_elsewhere(records: Seq<RecordView>, path: Seq<char>, owners: Seq<Seq<char>>)
    ensures
        claimed_elsewhere(model::required_on(records, path), owners) <==> is_needed_beside(
            records,
            path,
            owners,
        ),
        model::required_on(records, path).len() > 0 <==> is_needed_beside(
            records,
            path,
            Seq::empty(),
        ),
{
    let required = model::required_on(records, path);
    if claimed_elsewhere(required, owners) {
        let k = choose|k: int|
            0 <= k < required.len() && !((#[trigger] required[k]).role is Temporary && text::holds(
                owners,
                required[k].owner,
            ));
        assert(required.contains(required[k]));
        model::law_claims_are_made_by_references(records, path, required[k]);
    }
    if is_needed_beside(records, path, owners) {
        let i = choose|i: int|
            0 <= i < records.len() && (#[trigger] records[i]).path == path && model::is_needed_by(
                records[i].role,
            ) && !(records[i].role is Temporary && owners.contains(records[i].owner));
        let claim = ClaimView {
            role: records[i].role,
            category: records[i].category,
            owner: records[i].owner,
        };
        model::law_claims_are_made_by_references(records, path, claim);
        let k = choose|k: int| 0 <= k < required.len() && required[k] == claim;
        assert(required[k] == claim);
    }
    if required.len() > 0 {
        assert(required.contains(required[0]));
        model::law_claims_are_made_by_references(records, path, required[0]);
    }
    if is_needed_beside(records, path, Seq::empty()) {
        let i = choose|i: int|
            0 <= i < records.len() && (#[trigger] records[i]).path == path && model::is_needed_by(
                records[i].role,
            ) && !(records[i].role is Temporary && Seq::<Seq<char>>::empty().contains(
                records[i].owner,
            ));
        let claim = ClaimView {
            role: records[i].role,
            category: records[i].category,
            owner: records[i].owner,
        };
        model::law_claims_are_made_by_references(records, path, claim);
        assert(required.contains(claim));
    }
}

/// A path that an intent deletes is referred to as such, once more than before, and the
/// intent conflicts exactly where a row needs the file: any row where files are deleted,
/// and any but the pruned posts' own work in progress where originals are pruned. A
/// conflict makes the snapshot ambiguous and is noted.
pub proof fn law_deletions_conflict_with_needed_files(
    m: ModelView,
    id: Seq<char>,
    path: ManagedView,
    post_ids: Seq<i64>,
)
    ensures
        ({
            let deleted = with_scheduled(m, id, path);
            let pruned = with_prune_claim(m, id, path, post_owners(post_ids));
            let n = m.records.len() as int;
            &&& deleted.records.len() == n + 1 && pruned.records.len() == n + 1
            &&& deleted.records[n].role is ScheduledDeletion
            &&& pruned.records[n].role is ScheduledDeletion
            &&& deleted.records[n].path == path.relative && pruned.records[n].path == path.relative
            &&& deleted.records[n].owner == "intent:"@ + id && pruned.records[n].owner
                == "intent:"@ + id
            &&& deleted.global_ambiguity <==> m.global_ambiguity || is_needed_beside(
                m.records,
                path.relative,
                Seq::empty(),
            )
            &&& pruned.global_ambiguity <==> m.global_ambiguity || is_needed_beside(
                m.records,
                path.relative,
                post_owners(post_ids),
            )
            &&& deleted.findings.len() == m.findings.len() + (if is_needed_beside(
                m.records,
                path.relative,
                Seq::empty(),
            ) {
                1int
            } else {
                0
            })
            &&& deleted.findings.len() > m.findings.len() ==> deleted.findings.last().classification
                is IntentConflictsWithActiveReference
            &&& pruned.findings.len() > m.findings.len() ==> pruned.findings.last().classification
                is IntentConflictsWithActiveReference
        }),
{
    lemma_claimed_elsewhere(m.records, path.relative, post_owners(post_ids));
}

proof fn lemma_delete_paths_usable(m: ModelView, id: Seq<char>, paths: Seq<Seq<char>>)
    ensures
        ({
            let after = with_delete_paths(m, id, paths);
            &&& after.model.boards == m.boards
            &&& after.error is None <==> forall|i: int|
                0 <= i < paths.len() ==> model::managed_path(
                    #[trigger] paths[i],
                    None,
                    m.boards,
                ) is Some
            &&& after.error is Some ==> after.error->Some_0 is UnsafePath
            &&& after.error is None ==> after.model.records.len() == m.records.len() + paths.len()
        }),
    decreases paths.len(),
{
    if paths.len() > 0 {
        let earlier = paths.drop_last();
        lemma_delete_paths_usable(m, id, earlier);
        assert forall|i: int| 0 <= i < earlier.len() implies #[trigger] paths[i] == earlier[i] by {}
        if with_delete_paths(m, id, paths).error is None {
            assert forall|i: int| 0 <= i < paths.len() implies model::managed_path(
                #[trigger] paths[i],
                None,
                m.boards,
            ) is Some by {
                if i < earlier.len() {
                    assert(paths[i] == earlier[i]);
                }
            }
        }
        if forall|i: int|
            0 <= i < paths.len() ==> model::managed_path(#[trigger] paths[i], None, m.boards) is Some {
            assert forall|i: int| 0 <= i < earlier.len() implies model::managed_path(
                #[trigger] earlier[i],
                None,
                m.boards,
            ) is Some by {
                assert(paths[i] == earlier[i]);
            }
            assert(model::managed_path(paths[paths.len() - 1], None, m.boards) is Some);
        }
    }
}

proof fn lemma_delete_dirs_usable(m: ModelView, dirs: Seq<Seq<char>>)
    ensures
        ({
            let after = with_delete_dirs(m, dirs);
            &&& after.model.boards == m.boards
            &&& after.error is None <==> forall|i: int|
                0 <= i < dirs.len() ==> model::valid_board(#[trigger] dirs[i])
                    && m.boards.contains(dirs[i])
            &&& after.error is Some ==> after.error->Some_0 is UnsafePath
            &&& after.error is None ==> forall|i: int|
                0 <= i < dirs.len() ==> after.model.scheduled_boards.contains(#[trigger] dirs[i])
            &&& forall|b: Seq<char>| #[trigger]
                m.scheduled_boards.contains(b) ==> after.model.scheduled_boards.contains(b)
            &&& after.model.records == m.records
        }),
    decreases dirs.len(),
{
    if dirs.len() > 0 {
        let earlier = dirs.drop_last();
        lemma_delete_dirs_usable(m, earlier);
        let before = with_delete_dirs(m, earlier).model;
        let last = dirs.last();
        assert forall|i: int| 0 <= i < earlier.len() implies #[trigger] dirs[i] == earlier[i] by {}
        assert forall|list: Seq<Seq<char>>, s: Seq<char>, x: Seq<char>|
            list.contains(x) implies #[trigger] text::inserted(list, s).contains(x) by {
            let k = choose|k: int| 0 <= k < list.len() && list[k] == x;
            assert(list.push(s)[k] == x);
        }
        assert(text::inserted(before.scheduled_boards, last).contains(last)) by {
            assert(before.scheduled_boards.push(last).last() == last);
        }
        if with_delete_dirs(m, dirs).error is None {
            assert forall|i: int| 0 <= i < dirs.len() implies model::valid_board(#[trigger] dirs[i])
                && m.boards.contains(dirs[i]) by {
                if i < earlier.len() {
                    assert(dirs[i] == earlier[i]);
                }
            }
            let after = with_delete_dirs(m, dirs).model;
            assert forall|i: int| 0 <= i < dirs.len() implies after.scheduled_boards.contains(
                #[trigger] dirs[i],
            ) by {
                if i < earlier.len() {
                    assert(dirs[i] == earlier[i]);
                    assert(before.scheduled_boards.contains(earlier[i]));
                }
            }
        }
        if forall|i: int|
            0 <= i < dirs.len() ==> model::valid_board(#[trigger] dirs[i]) && m.boards.contains(
                dirs[i],
            ) {
            assert forall|i: int| 0 <= i < earlier.len() implies model::valid_board(
                #[trigger] earlier[i],
            ) && m.boards.contains(earlier[i]) by {
                assert(dirs[i] == earlier[i]);
            }
            assert(model::valid_board(dirs[dirs.len() - 1]));
        }
    }
}

/// An intent to delete files can be used exactly where it names something, every file is a
/// known board's and every directory is a known board's; its directories are then covered,
/// and it is noted as one that may be completed.
pub proof fn law_deletions_are_usable_on_known_boards(m: ModelView, row: IntentRowView)
    requires
        row.body is DeleteFiles,
    ensures
        ({
            let paths = row.body->DeleteFiles_paths;
            let dirs = row.body->DeleteFiles_dirs;
            let after = with_intent_row(m, row);
            let usable = (paths.len() > 0 || dirs.len() > 0) && (forall|i: int|
                0 <= i < paths.len() ==> model::managed_path(
                    #[trigger] paths[i],
                    None,
                    m.boards,
                ) is Some) && (forall|i: int|
                0 <= i < dirs.len() ==> model::valid_board(#[trigger] dirs[i])
                    && m.boards.contains(dirs[i]));
            &&& usable ==> after.intent_candidates.len() == m.intent_candidates.len() + 1
                && after.intent_candidates.last().id == row.id
                && after.intent_candidates.last().kind == row.kind
                && after.intent_candidates.last().payload_json == row.payload_json
            &&& usable ==> forall|i: int|
                0 <= i < dirs.len() ==> after.scheduled_boards.contains(#[trigger] dirs[i])
            &&& usable ==> after.records.len() == m.records.len() + paths.len()
            &&& !usable ==> after.global_ambiguity && after.intent_candidates
                == m.intent_candidates
        }),
{
    let paths = row.body->DeleteFiles_paths;
    let dirs = row.body->DeleteFiles_dirs;
    lemma_delete_paths_usable(m, row.id, paths);
    let files = with_delete_paths(m, row.id, paths).model;
    lemma_delete_dirs_usable(files, dirs);
    lemma_candidates_stay(m, row.id, paths);
    lemma_dirs_keep_candidates(files, dirs);
}

proof fn lemma_candidates_stay(m: ModelView, id: Seq<char>, paths: Seq<Seq<char>>)
    ensures
        with_delete_paths(m, id, paths).model.intent_candidates == m.intent_candidates,
    decreases paths.len(),
{
    if paths.len() > 0 {
        lemma_candidates_stay(m, id, paths.drop_last());
    }
}

proof fn lemma_dirs_keep_candidates(m: ModelView, dirs: Seq<Seq<char>>)
    ensures
        with_delete_dirs(m, dirs).model.intent_candidates == m.intent_candidates,
    decreases dirs.len(),
{
    if dirs.len() > 0 {
        lemma_dirs_keep_candidates(m, dirs.drop_last());
    }
}

proof fn lemma_prune_paths_usable(
    m: ModelView,
    id: Seq<char>,
    targets: Seq<CandidatePathView>,
    protected: Seq<Seq<char>>,
)
    ensures
        ({
            let after = with_prune_paths(m, id, targets, protected);
            &&& after.model.boards == m.boards
            &&& after.error is None <==> forall|i: int|
                0 <= i < targets.len() ==> model::managed_path(
                    (#[trigger] targets[i]).path,
                    Some(targets[i].board_short),
                    m.boards,
                ) is Some
            &&& after.error is None ==> after.model.records.len() == m.records.len()
                + targets.len()
        }),
    decreases targets.len(),
{
    if targets.len() > 0 {
        let earlier = targets.drop_last();
        lemma_prune_paths_usable(m, id, earlier, protected);
        if with_prune_paths(m, id, targets, protected).error is None {
            assert forall|i: int| 0 <= i < targets.len() implies model::managed_path(
                (#[trigger] targets[i]).path,
                Some(targets[i].board_short),
                m.boards,
            ) is Some by {
                if i < earlier.len() {
                    assert(targets[i] == earlier[i]);
                }
            }
        }
        if forall|i: int|
            0 <= i < targets.len() ==> model::managed_path(
                (#[trigger] targets[i]).path,
                Some(targets[i].board_short),
                m.boards,
            ) is Some {
            assert forall|i: int| 0 <= i < earlier.len() implies model::managed_path(
                (#[trigger] earlier[i]).path,
                Some(earlier[i].board_short),
                m.boards,
            ) is Some by {
                assert(targets[i] == earlier[i]);
            }
            assert(targets[targets.len() - 1] == targets.last());
        }
    }
}

/// An intent to prune originals can be used exactly where it names posts, all about to be
/// pruned, and originals, all on their boards; any other makes the snapshot ambiguous.
pub proof fn law_prunes_are_usable_for_pending_posts(m: ModelView, row: IntentRowView)
    requires
        row.body is OriginalPrune,
    ensures
        ({
            let ids = row.body->OriginalPrune_post_ids;
            let targets = row.body->OriginalPrune_paths;
            let after = with_intent_row(m, row);
            let usable = ids.len() > 0 && targets.len() > 0 && (forall|i: int|
                0 <= i < ids.len() ==> m.posts.dom().contains(#[trigger] ids[i])
                    && m.posts[ids[i]].media_state is PrunePending) && (forall|i: int|
                0 <= i < targets.len() ==> model::managed_path(
                    (#[trigger] targets[i]).path,
                    Some(targets[i].board_short),
                    m.boards,
                ) is Some);
            &&& with_intent(m, row).error is None <==> usable
            &&& !usable ==> after.global_ambiguity
            &&& usable ==> after.records.len() == m.records.len() + targets.len()
        }),
{
    let ids = row.body->OriginalPrune_post_ids;
    let targets = row.body->OriginalPrune_paths;
    lemma_prune_paths_usable(m, row.id, targets, post_owners(ids));
    if all_prune_pending(m, ids) {
        assert forall|i: int| 0 <= i < ids.len() implies m.posts.dom().contains(#[trigger] ids[i])
            && m.posts[ids[i]].media_state is PrunePending by {}
    }
}

proof fn lemma_artifacts_usable(
    m: ModelView,
    id: Seq<char>,
    upload: UploadView,
    stage: Seq<char>,
    n: nat,
)
    requires
        n <= artifact_paths(upload).len(),
    ensures
        ({
            let after = with_artifacts(m, id, upload, stage, n);
            let paths = artifact_paths(upload);
            &&& after.model.boards == m.boards
            &&& after.error is None <==> usable_artifacts(m, upload, n)
            &&& after.error is None ==> after.model.records.len() == m.records.len() + 2 * n
            &&& after.error is None ==> forall|k: int|
                0 <= k < n ==> #[trigger] artifact_is_held(
                    after.model.records,
                    m.records.len() as int,
                    k,
                    model::managed_path(paths[k], None, m.boards)->Some_0,
                    "intent:"@ + id,
                    stage,
                )
        }),
    decreases n,
{
    if n > 0 {
        lemma_artifacts_usable(m, id, upload, stage, (n - 1) as nat);
        let paths = artifact_paths(upload);
        let before = with_artifacts(m, id, upload, stage, (n - 1) as nat);
        let after = with_artifacts(m, id, upload, stage, n);
        if after.error is None {
            let len = m.records.len() as int;
            assert forall|k: int| 0 <= k < n implies #[trigger] artifact_is_held(
                after.model.records,
                len,
                k,
                model::managed_path(paths[k], None, m.boards)->Some_0,
                "intent:"@ + id,
                stage,
            ) by {
                if k < n - 1 {
                    assert(artifact_is_held(
                        before.model.records,
                        len,
                        k,
                        model::managed_path(paths[k], None, m.boards)->Some_0,
                        "intent:"@ + id,
                        stage,
                    ));
                    assert(after.model.records[len + 2 * k] == before.model.records[len + 2 * k]);
                    assert(after.model.records[len + 2 * k + 1] == before.model.records[len + 2 * k
                        + 1]);
                }
            }
            assert(!paths.take(n - 1).contains(paths[n - 1]));
            assert forall|i: int, j: int| 0 <= i < j < n implies paths[i] != paths[j] by {
                if j == n - 1 {
                    assert(paths.take(n - 1)[i] == paths[i]);
                }
            }
        }
        if usable_artifacts(m, upload, n) {
            assert(usable_artifacts(m, upload, (n - 1) as nat));
            if paths.take(n - 1).contains(paths[n - 1]) {
                let earlier = paths.take(n - 1);
                let i = choose|i: int| 0 <= i < earlier.len() && earlier[i] == paths[n - 1];
                assert(paths[i] == paths[n - 1]);
            }
        }
    }
}

/// Whether the first artifacts can be used: each is a known board's file and named once,
/// and those that may be absent are thumbnails.
pub open spec fn usable_artifacts(m: ModelView, upload: UploadView, n: nat) -> bool {
    let paths = upload.relative_paths + upload.optional_paths;
    &&& forall|k: int|
        0 <= k < n ==> model::managed_path(#[trigger] paths[k], None, m.boards) is Some && (k
            >= upload.relative_paths.len() ==> model::managed_path(
            paths[k],
            None,
            m.boards,
        )->Some_0.category is Thumbnail)
    &&& forall|i: int, j: int| 0 <= i < j < n ==> #[trigger] paths[i] != #[trigger] paths[j]
}

/// Whether two references, the artifact's among those from the given one on, are to its
/// destination and to its place in the stage, each as what the other can be made from.
pub open spec fn artifact_is_held(
    records: Seq<RecordView>,
    from: int,
    k: int,
    file: ManagedView,
    owner: Seq<char>,
    stage: Seq<char>,
) -> bool {
    let placed = records[from + 2 * k];
    let staged = records[from + 2 * k + 1];
    &&& placed.path == file.relative
    &&& staged.path == stage + "/"@ + file.relative
    &&& placed.role is Temporary && staged.role is Temporary
    &&& placed.category == file.category && staged.category is UploadStage
    &&& placed.owner == owner && staged.owner == owner
    &&& placed.recoverable_source == Some(staged.path)
    &&& staged.recoverable_source == Some(placed.path)
    &&& placed.expected_digest == staged.expected_digest
}

/// An upload can be used exactly where its stage is in place, it has an artifact, and its
/// artifacts can be used; each is then held in the stage and in its place. Any other makes
/// the snapshot ambiguous.
pub proof fn law_uploads_hold_their_artifacts(m: ModelView, row: IntentRowView)
    requires
        row.body is UploadFinalize,
    ensures
        ({
            let upload = row.body->UploadFinalize_0;
            let after = with_intent_row(m, row);
            let n = (upload.relative_paths.len() + upload.optional_paths.len()) as nat;
            let usable = stage_relative(upload) is Ok && upload.relative_paths.len() > 0
                && usable_artifacts(m, upload, n);
            &&& with_intent(m, row).error is None <==> usable
            &&& !usable ==> after.global_ambiguity
            &&& usable ==> after.records.len() == m.records.len() + 2 * n && forall|k: int|
                0 <= k < n ==> #[trigger] artifact_is_held(
                    after.records,
                    m.records.len() as int,
                    k,
                    model::managed_path(
                        (upload.relative_paths + upload.optional_paths)[k],
                        None,
                        m.boards,
                    )->Some_0,
                    "intent:"@ + row.id,
                    stage_relative(upload)->Ok_0,
                )
        }),
{
    let upload = row.body->UploadFinalize_0;
    if stage_relative(upload) is Ok {
        lemma_artifacts_usable(
            m,
            row.id,
            upload,
            stage_relative(upload)->Ok_0,
            artifact_paths(upload).len(),
        );
    }
}

/// The digest expected of an artifact is the first that is given for its path.
pub proof fn law_artifacts_have_the_first_digest_given(
    digests: Seq<ArtifactView>,
    path: Seq<char>,
    k: int,
)
    requires
        0 <= k < digests.len(),
        digests[k].path == path,
        forall|j: int| 0 <= j < k ==> (#[trigger] digests[j]).path != path,
    ensures
        artifact_digest(digests, path) == Some(digests[k].sha256),
    decreases digests.len(),
{
    let earlier = digests.drop_last();
    if k < digests.len() - 1 {
        assert(earlier[k] == digests[k]);
        assert forall|j: int| 0 <= j < k implies (#[trigger] earlier[j]).path != path by {
            assert(earlier[j] == digests[j]);
        }
        law_artifacts_have_the_first_digest_given(earlier, path, k);
    } else {
        assert forall|j: int| 0 <= j < earlier.len() implies (#[trigger] earlier[j]).path
            != path by {
            assert(earlier[j] == digests[j]);
        }
        lemma_no_digest(earlier, path);
    }
}

proof fn lemma_no_digest(digests: Seq<ArtifactView>, path: Seq<char>)
    requires
        forall|j: int| 0 <= j < digests.len() ==> (#[trigger] digests[j]).path != path,
    ensures
        artifact_digest(digests, path) is None,
    decreases digests.len(),
{
    if digests.len() > 0 {
        let earlier = digests.drop_last();
        assert forall|j: int| 0 <= j < earlier.len() implies (#[trigger] earlier[j]).path
            != path by {
            assert(earlier[j] == digests[j]);
        }
        assert(digests[digests.len() - 1].path != path);
        lemma_no_digest(earlier, path);
    }
}

/// While a restore is under way nothing can be told to be an orphan; banners are no managed
/// media.
pub proof fn law_restores_leave_nothing_to_repair(m: ModelView, row: IntentRowView)
    ensures
        row.body is FullRestoreSwap || row.body is BoardRestoreSwap || row.body is Undecodable
            || row.body is UnknownKind ==> with_intent_row(m, row).global_ambiguity,
        row.body is DeleteBannerAssets ==> with_intent_row(m, row).global_ambiguity
            == m.global_ambiguity && with_intent_row(m, row).records == m.records,
{
}

/// An intent claims every file that it names, in its place and in the stage, and every file
/// of a board that it deletes; a restore claims every file, and an intent that cannot be
/// read is not known to claim none.
pub proof fn law_intents_claim_what_they_name(
    body: IntentView,
    staged_root: Option<Seq<char>>,
    candidate: Seq<char>,
    k: int,
)
    ensures
        ({
            let claim = intent_claim(body, staged_root, candidate);
            &&& body is DeleteFiles && body->DeleteFiles_paths.contains(candidate) ==> claim
                == Some(true)
            &&& body is DeleteFiles && body->DeleteFiles_dirs.contains(
                text::split(candidate, '/')[0],
            ) ==> claim == Some(true)
            &&& body is OriginalPrune && 0 <= k < body->OriginalPrune_paths.len()
                && body->OriginalPrune_paths[k].path == candidate ==> claim == Some(true)
            &&& body is UploadFinalize && (
            body->UploadFinalize_0.relative_paths.contains(candidate)
                || body->UploadFinalize_0.optional_paths.contains(candidate)) ==> claim == Some(
                true,
            )
            &&& body is UploadFinalize && staged_root is Some && 0 <= k
                < body->UploadFinalize_0.relative_paths.len() && staged_root->Some_0 + "/"@
                + body->UploadFinalize_0.relative_paths[k] == candidate ==> claim == Some(true)
            &&& body is UploadFinalize && staged_root is Some && 0 <= k
                < body->UploadFinalize_0.optional_paths.len() && staged_root->Some_0 + "/"@
                + body->UploadFinalize_0.optional_paths[k] == candidate ==> claim == Some(true)
            &&& body is FullRestoreSwap || body is BoardRestoreSwap ==> claim == Some(true)
            &&& body is DeleteBannerAssets ==> claim == Some(false)
            &&& body is Undecodable || body is UnknownKind ==> claim is None
        }),
{
    if body is UploadFinalize {
        let upload = body->UploadFinalize_0;
        let all = artifact_paths(upload);
        if upload.relative_paths.contains(candidate) {
            let i = choose|i: int|
                0 <= i < upload.relative_paths.len() && upload.relative_paths[i] == candidate;
            assert(all[i] == candidate);
        }
        if upload.optional_paths.contains(candidate) {
            let i = choose|i: int|
                0 <= i < upload.optional_paths.len() && upload.optional_paths[i] == candidate;
            assert(all[upload.relative_paths.len() + i] == candidate);
        }
        if 0 <= k < upload.relative_paths.len() {
            assert(all[k] == upload.relative_paths[k]);
        }
        if 0 <= k < upload.optional_paths.len() {
            assert(all[upload.relative_paths.len() + k] == upload.optional_paths[k]);
        }
    }
}

} // verus!
