//! What a pruning intent must find of its posts and originals before it is
//! written, and again before it is carried out.

use vstd::prelude::*;
use vstd::string::*;
use crate::media::prune;
use crate::media::prune::{
    copy_path, validate_prune_payload, CandidatePath, CandidatePathView, FileSize,
    OriginalPrunePayload,
};
use crate::media::reconcile::model::MediaState;
use crate::media::reconcile::report;
use crate::text;
use crate::text::str_eq;
use super::groups::{Candidate, CandidateView};
use super::plan::OriginalPruneFinalizeReport;

verus! {

/// Why an intent cannot be written or carried out.
#[derive(Debug, Clone, Copy, PartialEq, Eq, Structural)]
pub enum PruneRefusal {
    /// A post disappeared.
    PostGone,
    /// A post may no longer be pruned.
    NotEligible,
    /// A post left the transition that the intent began.
    LeftTransition,
    /// A post refers to an original that the intent does not cover.
    UnexpectedPath,
    /// A shared original belongs to another board.
    CrossesBoards,
    /// A post outside the intent still needs an original.
    StillReferenced,
    /// The payload cannot be carried out.
    Malformed,
    /// A post changed while the intent was being written.
    Changed,
    /// An original's path failed the safety inspection.
    UnsafePath,
    /// An original's file could not be removed.
    NotRemoved,
}

/// A post of an intent as it is now.
#[derive(Debug, Clone)]
pub struct TargetRow {
    pub file_path: Option<String>,
    pub audio_path: Option<String>,
    pub state: MediaState,
    pub board_short: String,
    pub archived: bool,
}

/// The model of a post of an intent.
#[verifier::ext_equal]
pub struct TargetView {
    pub file_path: Option<Seq<char>>,
    pub audio_path: Option<Seq<char>>,
    pub state: MediaState,
    pub board_short: Seq<char>,
    pub archived: bool,
}

impl View for TargetRow {
    type V = TargetView;

    open spec fn view(&self) -> TargetView {
        TargetView {
            file_path: text::opt_view(self.file_path),
            audio_path: text::opt_view(self.audio_path),
            state: self.state,
            board_short: self.board_short@,
            archived: self.archived,
        }
    }
}

/// The board under which the intent covers the path: that of the last original
/// with it.
pub open spec fn intended_board(paths: Seq<CandidatePathView>, path: Seq<char>) -> Option<Seq<char>>
    decreases paths.len(),
{
    if paths.len() == 0 {
        None
    } else if paths.last().path == path {
        Some(paths.last().board_short)
    } else {
        intended_board(paths.drop_last(), path)
    }
}

/// Whether the intent covers an original of a post, where the post has it.
pub open spec fn covered(paths: Seq<CandidatePathView>, path: Option<Seq<char>>, board: Seq<char>) -> bool {
    match path {
        Some(path) => intended_board(paths, path) == Some(board),
        None => true,
    }
}

/// What stands in the way of a post's transition, if anything: before the intent
/// is written the post must be there, active and settled; afterwards it may be
/// gone, and must be in the transition.
pub open spec fn target_refusal(
    row: Option<TargetView>,
    paths: Seq<CandidatePathView>,
    require_active: bool,
) -> Option<PruneRefusal> {
    match row {
        None => if require_active {
            Some(PruneRefusal::PostGone)
        } else {
            None
        },
        Some(post) => if require_active && (post.archived || !(post.state is Settled)) {
            Some(PruneRefusal::NotEligible)
        } else if !require_active && !(post.state is PrunePending || post.state is Pruned) {
            Some(PruneRefusal::LeftTransition)
        } else if !covered(paths, post.file_path, post.board_short) || !covered(
            paths,
            post.audio_path,
            post.board_short,
        ) {
            Some(PruneRefusal::UnexpectedPath)
        } else {
            None
        },
    }
}

/// The models of optional target rows.
pub open spec fn target_views(rows: Seq<Option<TargetRow>>) -> Seq<Option<TargetView>> {
    rows.map_values(|r: Option<TargetRow>| text::opt_view(r))
}

/// The first refusal among the posts.
pub open spec fn targets_refusal(
    rows: Seq<Option<TargetView>>,
    paths: Seq<CandidatePathView>,
    require_active: bool,
) -> Option<PruneRefusal>
    decreases rows.len(),
{
    if rows.len() == 0 {
        None
    } else {
        match targets_refusal(rows.drop_last(), paths, require_active) {
            Some(refusal) => Some(refusal),
            None => target_refusal(rows.last(), paths, require_active),
        }
    }
}

fn find_board<'a>(paths: &'a Vec<CandidatePath>, path: &str) -> (r: Option<&'a str>)
    ensures
        text::opt_str(r) == intended_board(text::views(paths@), path@),
{
    let ghost all = text::views(paths@);
    let mut n: usize = paths.len();
    assert(all.take(n as int) =~= all);
    while n > 0
        invariant
            n <= paths@.len(),
            all == text::views(paths@),
            intended_board(all, path@) == intended_board(all.take(n as int), path@),
        decreases n,
    {
        assert(all.take(n as int).last() == paths@[n - 1]@);
        assert(all.take(n as int).drop_last() =~= all.take(n as int - 1));
        if str_eq(paths[n - 1].path.as_str(), path) {
            return Some(paths[n - 1].board_short.as_str());
        }
        n = n - 1;
    }
    None
}

fn is_covered(paths: &Vec<CandidatePath>, path: &Option<String>, board: &str) -> (r: bool)
    ensures
        r == covered(text::views(paths@), text::opt_view(*path), board@),
{
    match path {
        Some(path) => match find_board(paths, path.as_str()) {
            Some(intended) => str_eq(intended, board),
            None => false,
        },
        None => true,
    }
}

/// Checks one post of an intent.
pub fn check_target(row: &Option<TargetRow>, paths: &Vec<CandidatePath>, require_active: bool) -> (r:
    Option<PruneRefusal>)
    ensures
        r == target_refusal(text::opt_view(*row), text::views(paths@), require_active),
{
    match row {
        None => if require_active {
            Some(PruneRefusal::PostGone)
        } else {
            None
        },
        Some(post) => {
            if require_active && (post.archived || post.state != MediaState::Settled) {
                return Some(PruneRefusal::NotEligible);
            }
            if !require_active && post.state != MediaState::PrunePending && post.state
                != MediaState::Pruned {
                return Some(PruneRefusal::LeftTransition);
            }
            let board = post.board_short.as_str();
            if !is_covered(paths, &post.file_path, board) || !is_covered(
                paths,
                &post.audio_path,
                board,
            ) {
                return Some(PruneRefusal::UnexpectedPath);
            }
            None
        },
    }
}

/// Checks every post of an intent, in order.
pub fn validate_current_target_paths(
    rows: &Vec<Option<TargetRow>>,
    paths: &Vec<CandidatePath>,
    require_active: bool,
) -> (r: Option<PruneRefusal>)
    ensures
        r == targets_refusal(target_views(rows@), text::views(paths@), require_active),
{
    let ghost all = target_views(rows@);
    let ghost intended = text::views(paths@);
    let mut found: Option<PruneRefusal> = None;
    let mut i: usize = 0;
    assert(all.take(0) =~= Seq::<Option<TargetView>>::empty());
    while i < rows.len()
        invariant
            i <= rows@.len(),
            all == target_views(rows@),
            intended == text::views(paths@),
            found == targets_refusal(all.take(i as int), intended, require_active),
        decreases rows@.len() - i,
    {
        assert(all.take(i as int + 1).drop_last() =~= all.take(i as int));
        assert(all.take(i as int + 1).last() == text::opt_view(rows@[i as int]));
        if found.is_none() {
            found = check_target(&rows[i], paths, require_active);
        }
        i = i + 1;
    }
    assert(all.take(all.len() as int) =~= all);
    found
}

/// A post that refers to an original.
#[derive(Debug, Clone)]
pub struct PathReference {
    pub post_id: i64,
    pub state: MediaState,
    pub board_short: String,
}

/// The model of a post that refers to an original.
pub struct ReferenceView {
    pub post_id: i64,
    pub state: MediaState,
    pub board_short: Seq<char>,
}

impl View for PathReference {
    type V = ReferenceView;

    open spec fn view(&self) -> ReferenceView {
        ReferenceView {
            post_id: self.post_id,
            state: self.state,
            board_short: self.board_short@,
        }
    }
}

/// What stands in the way of removing an original, if anything: a reference from
/// another board, or one from a post that still needs it. Before the intent is
/// written its own posts may need it in any state; afterwards only while they
/// are in the transition.
pub open spec fn reference_refusal(
    reference: ReferenceView,
    board: Seq<char>,
    targets: Seq<i64>,
    committed: bool,
) -> Option<PruneRefusal> {
    let own = targets.contains(reference.post_id) && (!committed || reference.state is PrunePending);
    if reference.board_short != board {
        Some(PruneRefusal::CrossesBoards)
    } else if !(reference.state is Pruned) && !own {
        Some(PruneRefusal::StillReferenced)
    } else {
        None
    }
}

/// The first refusal among the references.
pub open spec fn references_refusal(
    references: Seq<ReferenceView>,
    board: Seq<char>,
    targets: Seq<i64>,
    committed: bool,
) -> Option<PruneRefusal>
    decreases references.len(),
{
    if references.len() == 0 {
        None
    } else {
        match references_refusal(references.drop_last(), board, targets, committed) {
            Some(refusal) => Some(refusal),
            None => reference_refusal(references.last(), board, targets, committed),
        }
    }
}

fn holds_id(ids: &Vec<i64>, id: i64) -> (r: bool)
    ensures
        r == ids@.contains(id),
{
    let mut i: usize = 0;
    while i < ids.len()
        invariant
            i <= ids@.len(),
            forall|j: int| 0 <= j < i ==> ids@[j] != id,
        decreases ids@.len() - i,
    {
        if ids[i] == id {
            assert(ids@[i as int] == id);
            return true;
        }
        i = i + 1;
    }
    false
}

/// Checks every post that refers to an original.
pub fn check_references(
    references: &Vec<PathReference>,
    path: &CandidatePath,
    targets: &Vec<i64>,
    committed: bool,
) -> (r: Option<PruneRefusal>)
    ensures
        r == references_refusal(
            text::views(references@),
            path@.board_short,
            targets@,
            committed,
        ),
{
    let ghost all = text::views(references@);
    let mut found: Option<PruneRefusal> = None;
    let mut i: usize = 0;
    assert(all.take(0) =~= Seq::<ReferenceView>::empty());
    while i < references.len()
        invariant
            i <= references@.len(),
            all == text::views(references@),
            found == references_refusal(
                all.take(i as int),
                path@.board_short,
                targets@,
                committed,
            ),
        decreases references@.len() - i,
    {
        let reference = &references[i];
        assert(all.take(i as int + 1).drop_last() =~= all.take(i as int));
        assert(all.take(i as int + 1).last() == reference@);
        if found.is_none() {
            let own = holds_id(targets, reference.post_id) && (!committed || reference.state
                == MediaState::PrunePending);
            if !str_eq(reference.board_short.as_str(), path.board_short.as_str()) {
                found = Some(PruneRefusal::CrossesBoards);
            } else if reference.state != MediaState::Pruned && !own {
                found = Some(PruneRefusal::StillReferenced);
            }
        }
        i = i + 1;
    }
    assert(all.take(all.len() as int) =~= all);
    found
}

/// No original is removed while a post outside the intent needs it.
pub proof fn law_surviving_references_refuse(
    references: Seq<ReferenceView>,
    board: Seq<char>,
    targets: Seq<i64>,
    committed: bool,
    k: int,
)
    requires
        0 <= k < references.len(),
        !(references[k].state is Pruned),
        !targets.contains(references[k].post_id),
    ensures
        references_refusal(references, board, targets, committed) is Some,
    decreases references.len(),
{
    if k < references.len() - 1 {
        law_surviving_references_refuse(references.drop_last(), board, targets, committed, k);
    }
}

/// What to do with a post once the originals of its intent are gone.
#[derive(Debug, Clone, Copy, PartialEq, Eq, Structural)]
pub enum Transition {
    /// The post is gone or already pruned.
    Settled,
    /// The post becomes pruned.
    MarkPruned,
    /// The post left the transition.
    Refused,
}

/// What becomes of a post once the originals of its intent are gone.
pub open spec fn transition(state: Option<MediaState>) -> Transition {
    match state {
        None => Transition::Settled,
        Some(MediaState::Pruned) => Transition::Settled,
        Some(MediaState::PrunePending) => Transition::MarkPruned,
        Some(_) => Transition::Refused,
    }
}

/// What to do with a post once the originals of its intent are gone.
pub fn finish_post(state: Option<MediaState>) -> (r: Transition)
    ensures
        r == transition(state),
{
    match state {
        None | Some(MediaState::Pruned) => Transition::Settled,
        Some(MediaState::PrunePending) => Transition::MarkPruned,
        Some(_) => Transition::Refused,
    }
}

/// Replaying an intent is idempotent: a post that one replay marks pruned is
/// left alone by the next, as is one that has been deleted.
pub proof fn law_replay_settles(state: Option<MediaState>)
    requires
        !(transition(state) is Refused),
    ensures
        transition(state) is MarkPruned ==> transition(Some(MediaState::Pruned)) is Settled,
        transition(state) is Settled <==> state is None || state == Some(MediaState::Pruned),
{
}

/// The report after one original, given whether its file was still there.
pub open spec fn with_removal(
    r: OriginalPruneFinalizeReport,
    path: CandidatePathView,
    was_present: bool,
) -> OriginalPruneFinalizeReport {
    if was_present {
        OriginalPruneFinalizeReport {
            removed_files: report::saturated(r.removed_files as int, 1),
            removed_bytes: report::saturated(r.removed_bytes as int, path.size as int),
        }
    } else {
        r
    }
}

/// Counts one original, given whether its file was still there.
pub fn record_removal(r: &mut OriginalPruneFinalizeReport, path: &CandidatePath, was_present: bool)
    ensures
        *final(r) == with_removal(*old(r), path@, was_present),
{
    if was_present {
        r.removed_files = r.removed_files.saturating_add(1);
        r.removed_bytes = r.removed_bytes.saturating_add(path.size);
    }
}

/// The report of carrying out an intent, given whether each file was still
/// there.
pub open spec fn finalized(paths: Seq<CandidatePathView>, present: Seq<bool>, n: nat) -> OriginalPruneFinalizeReport
    decreases n,
{
    if n == 0 {
        OriginalPruneFinalizeReport { removed_files: 0, removed_bytes: 0 }
    } else {
        with_removal(finalized(paths, present, (n - 1) as nat), paths[n - 1], present[n - 1])
    }
}

/// What was re-read of one original, and what came of removing its file.
#[derive(Debug, Clone)]
pub struct PathState {
    /// The posts that refer to it.
    pub references: Vec<PathReference>,
    /// What inspecting the file gave.
    pub file: FileSize,
    /// Whether the file could be removed, where one is there.
    pub removed: bool,
}

/// The model of an original's state.
pub struct PathStateView {
    pub references: Seq<ReferenceView>,
    pub file: FileSize,
    pub removed: bool,
}

impl View for PathState {
    type V = PathStateView;

    open spec fn view(&self) -> PathStateView {
        PathStateView {
            references: text::views(self.references@),
            file: self.file,
            removed: self.removed,
        }
    }
}

/// What is done about the file of an original.
#[derive(Debug, Clone, Copy, PartialEq, Eq, Structural)]
pub enum RemovalStep {
    /// The file is removed.
    Remove,
    /// There is no file to remove.
    Keep,
    /// Neither this file nor a later one is removed.
    Stop(PruneRefusal),
}

/// What is done about the file of an original: it is removed only where no post outside
/// the intent needs it.
pub open spec fn removal_step(
    path: CandidatePathView,
    references: Seq<ReferenceView>,
    file: FileSize,
    targets: Seq<i64>,
) -> RemovalStep {
    match references_refusal(references, path.board_short, targets, true) {
        Some(refusal) => RemovalStep::Stop(refusal),
        None => match file {
            FileSize::Present(_) => RemovalStep::Remove,
            FileSize::Missing => RemovalStep::Keep,
            FileSize::Unsafe => RemovalStep::Stop(PruneRefusal::UnsafePath),
        },
    }
}

/// What to do about the file of an original, given the posts that refer to it and what
/// inspecting it gave.
pub fn next_removal(
    path: &CandidatePath,
    references: &Vec<PathReference>,
    file: FileSize,
    targets: &Vec<i64>,
) -> (r: RemovalStep)
    ensures
        r == removal_step(path@, text::views(references@), file, targets@),
        r is Remove <==> references_refusal(
            text::views(references@),
            path@.board_short,
            targets@,
            true,
        ) is None && file is Present,
        r is Keep <==> references_refusal(
            text::views(references@),
            path@.board_short,
            targets@,
            true,
        ) is None && file is Missing,
{
    match check_references(references, path, targets, true) {
        Some(refusal) => RemovalStep::Stop(refusal),
        None => match file {
            FileSize::Present(_) => RemovalStep::Remove,
            FileSize::Missing => RemovalStep::Keep,
            FileSize::Unsafe => RemovalStep::Stop(PruneRefusal::UnsafePath),
        },
    }
}

/// What stands in the way of going on after a step, if anything. `removed` says whether
/// the file could be removed, where it was to be.
pub open spec fn step_refusal(step: RemovalStep, removed: bool) -> Option<PruneRefusal> {
    match step {
        RemovalStep::Remove => if removed {
            None
        } else {
            Some(PruneRefusal::NotRemoved)
        },
        RemovalStep::Keep => None,
        RemovalStep::Stop(refusal) => Some(refusal),
    }
}

/// What stands in the way of going on after a step, if anything.
pub fn settle_removal(step: RemovalStep, removed: bool) -> (r: Option<PruneRefusal>)
    ensures
        r == step_refusal(step, removed),
{
    match step {
        RemovalStep::Remove => if removed {
            None
        } else {
            Some(PruneRefusal::NotRemoved)
        },
        RemovalStep::Keep => None,
        RemovalStep::Stop(refusal) => Some(refusal),
    }
}

/// What stands in the way of removing an original's file, if anything.
pub open spec fn path_refusal(
    path: CandidatePathView,
    state: PathStateView,
    targets: Seq<i64>,
) -> Option<PruneRefusal> {
    step_refusal(removal_step(path, state.references, state.file, targets), state.removed)
}

/// The first refusal among the originals of an intent that is carried out.
pub open spec fn paths_refusal(
    paths: Seq<CandidatePathView>,
    states: Seq<PathStateView>,
    targets: Seq<i64>,
    n: nat,
) -> Option<PruneRefusal>
    decreases n,
{
    if n == 0 {
        None
    } else {
        match paths_refusal(paths, states, targets, (n - 1) as nat) {
            Some(refusal) => Some(refusal),
            None => path_refusal(paths[n - 1], states[n - 1], targets),
        }
    }
}

/// Whether the file of each original was still there.
pub open spec fn were_present(states: Seq<PathStateView>) -> Seq<bool> {
    states.map_values(|s: PathStateView| s.file is Present)
}

/// Carries out an intent on what was re-read of its posts and originals: refused
/// where the payload, a post or an original is not as it must be, and otherwise a
/// count of the files that were still there.
pub open spec fn finalize_outcome(
    post_ids: Seq<i64>,
    paths: Seq<CandidatePathView>,
    rows: Seq<Option<TargetView>>,
    states: Seq<PathStateView>,
) -> Result<OriginalPruneFinalizeReport, PruneRefusal> {
    match start_refusal(post_ids, paths, rows) {
        Some(refusal) => Err(refusal),
        None => match paths_refusal(paths, states, post_ids, paths.len()) {
            Some(refusal) => Err(refusal),
            None => Ok(finalized(paths, were_present(states), paths.len())),
        },
    }
}

/// What stands in the way of removing any original of an intent, if anything.
pub open spec fn start_refusal(
    post_ids: Seq<i64>,
    paths: Seq<CandidatePathView>,
    rows: Seq<Option<TargetView>>,
) -> Option<PruneRefusal> {
    if !prune::valid_payload(post_ids, paths) {
        Some(PruneRefusal::Malformed)
    } else {
        targets_refusal(rows, paths, false)
    }
}

/// What stands in the way of removing any original of an intent, if anything: it is
/// found before the first file is looked at.
pub fn start_removals(payload: &OriginalPrunePayload, rows: &Vec<Option<TargetRow>>) -> (r: Option<
    PruneRefusal,
>)
    ensures
        r == start_refusal(payload.post_ids@, text::views(payload.paths@), target_views(rows@)),
{
    if !validate_prune_payload(payload) {
        return Some(PruneRefusal::Malformed);
    }
    validate_current_target_paths(rows, &payload.paths, false)
}

/// Carries out an intent on what was re-read of its posts and originals, and on what
/// came of each removal. The files are removed one after the other, as [`start_removals`],
/// [`next_removal`] and [`settle_removal`] say: each only once everything before it was
/// in order.
pub fn finalize_original_prune_payload(
    payload: &OriginalPrunePayload,
    rows: &Vec<Option<TargetRow>>,
    states: &Vec<PathState>,
) -> (r: Result<OriginalPruneFinalizeReport, PruneRefusal>)
    requires
        states@.len() == payload.paths@.len(),
    ensures
        r == finalize_outcome(
            payload.post_ids@,
            text::views(payload.paths@),
            target_views(rows@),
            text::views(states@),
        ),
{
    match start_removals(payload, rows) {
        Some(refusal) => {
            return Err(refusal);
        },
        None => {},
    }
    let paths = &payload.paths;
    let post_ids = &payload.post_ids;
    let ghost all = text::views(paths@);
    let ghost seen = text::views(states@);
    let mut refusal: Option<PruneRefusal> = None;
    let mut report = OriginalPruneFinalizeReport::default();
    let mut i: usize = 0;
    while i < paths.len()
        invariant
            i <= paths@.len(),
            states@.len() == paths@.len(),
            all == text::views(paths@),
            seen == text::views(states@),
            refusal == paths_refusal(all, seen, post_ids@, i as nat),
            report == finalized(all, were_present(seen), i as nat),
        decreases paths@.len() - i,
    {
        assert(all[i as int] == paths@[i as int]@);
        assert(seen[i as int] == states@[i as int]@);
        if refusal.is_none() {
            let step = next_removal(&paths[i], &states[i].references, states[i].file, post_ids);
            refusal = settle_removal(step, states[i].removed);
        }
        let present = match states[i].file {
            FileSize::Present(_) => true,
            _ => false,
        };
        record_removal(&mut report, &paths[i], present);
        i = i + 1;
    }
    match refusal {
        Some(refusal) => Err(refusal),
        None => Ok(report),
    }
}

/// Whether the file of an original is removed when an intent is carried out: nothing
/// stood in the way before it, and nothing needs it.
pub open spec fn is_removed(
    post_ids: Seq<i64>,
    paths: Seq<CandidatePathView>,
    rows: Seq<Option<TargetView>>,
    states: Seq<PathStateView>,
    k: int,
) -> bool {
    &&& start_refusal(post_ids, paths, rows) is None
    &&& paths_refusal(paths, states, post_ids, k as nat) is None
    &&& removal_step(paths[k], states[k].references, states[k].file, post_ids) is Remove
}

/// A refusal among the first originals stays the refusal of all of them.
proof fn lemma_refusals_stay(
    paths: Seq<CandidatePathView>,
    states: Seq<PathStateView>,
    targets: Seq<i64>,
    n: nat,
    m: nat,
)
    requires
        n <= m,
        paths_refusal(paths, states, targets, n) is Some,
    ensures
        paths_refusal(paths, states, targets, m) == paths_refusal(paths, states, targets, n),
    decreases m,
{
    if n < m {
        lemma_refusals_stay(paths, states, targets, n, (m - 1) as nat);
    }
}

/// No file is removed that a post outside the intent needs: every reference to a file
/// that is removed belongs to a post of the intent or to one that is pruned already.
pub proof fn law_needed_originals_stay(
    post_ids: Seq<i64>,
    paths: Seq<CandidatePathView>,
    rows: Seq<Option<TargetView>>,
    states: Seq<PathStateView>,
    k: int,
)
    requires
        is_removed(post_ids, paths, rows, states, k),
    ensures
        references_refusal(states[k].references, paths[k].board_short, post_ids, true) is None,
        states[k].file is Present,
        forall|j: int|
            0 <= j < states[k].references.len() ==> (#[trigger] states[k].references[j]).state
                is Pruned || post_ids.contains(states[k].references[j].post_id),
{
    assert forall|j: int| 0 <= j < states[k].references.len() implies (
    #[trigger] states[k].references[j]).state is Pruned || post_ids.contains(
        states[k].references[j].post_id,
    ) by {
        if !(states[k].references[j].state is Pruned) && !post_ids.contains(
            states[k].references[j].post_id,
        ) {
            law_surviving_references_refuse(
                states[k].references,
                paths[k].board_short,
                post_ids,
                true,
                j,
            );
        }
    }
}

/// The first refusal stops the removals: neither the original that it is about nor a
/// later one is removed, except where the refusal is that a file could not be.
pub proof fn law_refusals_stop_removals(
    post_ids: Seq<i64>,
    paths: Seq<CandidatePathView>,
    rows: Seq<Option<TargetView>>,
    states: Seq<PathStateView>,
    n: int,
    k: int,
)
    requires
        0 <= n <= k < paths.len(),
        path_refusal(paths[n], states[n], post_ids) is Some,
    ensures
        is_removed(post_ids, paths, rows, states, k) ==> k == n && !states[n].removed,
{
    if n < k && is_removed(post_ids, paths, rows, states, k) {
        if paths_refusal(paths, states, post_ids, n as nat) is Some {
            lemma_refusals_stay(paths, states, post_ids, n as nat, k as nat);
        } else {
            assert(paths_refusal(paths, states, post_ids, (n + 1) as nat) is Some);
            lemma_refusals_stay(paths, states, post_ids, (n + 1) as nat, k as nat);
        }
    }
}

/// Where an intent was carried out, exactly the files that were there have been removed.
pub proof fn law_carried_out_intents_leave_no_file(
    post_ids: Seq<i64>,
    paths: Seq<CandidatePathView>,
    rows: Seq<Option<TargetView>>,
    states: Seq<PathStateView>,
    k: int,
)
    requires
        finalize_outcome(post_ids, paths, rows, states) is Ok,
        0 <= k < paths.len(),
    ensures
        is_removed(post_ids, paths, rows, states, k) <==> states[k].file is Present,
        states[k].file is Present ==> states[k].removed,
{
    if paths_refusal(paths, states, post_ids, k as nat) is Some {
        lemma_refusals_stay(paths, states, post_ids, k as nat, paths.len());
    }
    if paths_refusal(paths, states, post_ids, (k + 1) as nat) is Some {
        lemma_refusals_stay(paths, states, post_ids, (k + 1) as nat, paths.len());
    }
}

/// The first refusal among the originals of an intent that is to be written.
pub open spec fn planned_refusal(
    paths: Seq<CandidatePathView>,
    references: Seq<Seq<ReferenceView>>,
    targets: Seq<i64>,
    n: nat,
) -> Option<PruneRefusal>
    decreases n,
{
    if n == 0 {
        None
    } else {
        match planned_refusal(paths, references, targets, (n - 1) as nat) {
            Some(refusal) => Some(refusal),
            None => references_refusal(
                references[n - 1],
                paths[n - 1].board_short,
                targets,
                false,
            ),
        }
    }
}

/// The models of the references of each original.
pub open spec fn reference_lists(references: Seq<Vec<PathReference>>) -> Seq<Seq<ReferenceView>> {
    references.map_values(|list: Vec<PathReference>| text::views(list@))
}

/// Whether an intent for a group may be written, given what was re-read of its posts and
/// originals, and whether each post then took the mark of the transition.
pub open spec fn intent_refusal(
    group: CandidateView,
    rows: Seq<Option<TargetView>>,
    references: Seq<Seq<ReferenceView>>,
    marked: Seq<bool>,
) -> Option<PruneRefusal> {
    match targets_refusal(rows, group.paths, true) {
        Some(refusal) => Some(refusal),
        None => match planned_refusal(
            group.paths,
            references,
            group.post_ids,
            group.paths.len(),
        ) {
            Some(refusal) => Some(refusal),
            None => if exists|i: int| 0 <= i < marked.len() && !(#[trigger] marked[i]) {
                Some(PruneRefusal::Changed)
            } else {
                None
            },
        },
    }
}

/// Writes the payload of the intent for a group, or says why none may be written.
pub fn persist_prune_intent(
    group: &Candidate,
    rows: &Vec<Option<TargetRow>>,
    references: &Vec<Vec<PathReference>>,
    marked: &Vec<bool>,
) -> (r: Result<OriginalPrunePayload, PruneRefusal>)
    requires
        references@.len() == group.paths@.len(),
    ensures
        match intent_refusal(group@, target_views(rows@), reference_lists(references@), marked@) {
            Some(refusal) => r == Err::<OriginalPrunePayload, PruneRefusal>(refusal),
            None => r is Ok && r->Ok_0.post_ids@ == group@.post_ids && text::views(
                r->Ok_0.paths@,
            ) == group@.paths,
        },
{
    match validate_current_target_paths(rows, &group.paths, true) {
        Some(refusal) => {
            return Err(refusal);
        },
        None => {},
    }
    let ghost all = text::views(group.paths@);
    let ghost seen = reference_lists(references@);
    let mut refusal: Option<PruneRefusal> = None;
    let mut paths: Vec<CandidatePath> = Vec::new();
    let mut i: usize = 0;
    assert(text::views(paths@) =~= all.take(0));
    while i < group.paths.len()
        invariant
            i <= group.paths@.len(),
            references@.len() == group.paths@.len(),
            all == text::views(group.paths@),
            seen == reference_lists(references@),
            refusal == planned_refusal(all, seen, group.post_ids@, i as nat),
            text::views(paths@) == all.take(i as int),
        decreases group.paths@.len() - i,
    {
        broadcast use text::group_views;

        let path = &group.paths[i];
        assert(all[i as int] == path@);
        assert(seen[i as int] == text::views(references@[i as int]@));
        if refusal.is_none() {
            refusal = check_references(&references[i], path, &group.post_ids, false);
        }
        paths.push(copy_path(path));
        assert(all.take(i as int + 1) =~= all.take(i as int).push(path@));
        i = i + 1;
    }
    assert(all.take(all.len() as int) =~= all);
    if let Some(found) = refusal {
        return Err(found);
    }
    let mut j: usize = 0;
    while j < marked.len()
        invariant
            j <= marked@.len(),
            targets_refusal(target_views(rows@), group@.paths, true) is None,
            planned_refusal(
                group@.paths,
                reference_lists(references@),
                group@.post_ids,
                group@.paths.len(),
            ) is None,
            forall|k: int| 0 <= k < j ==> #[trigger] marked@[k],
        decreases marked@.len() - j,
    {
        if !marked[j] {
            assert(!marked@[j as int]);
            return Err(PruneRefusal::Changed);
        }
        j = j + 1;
    }
    let mut post_ids: Vec<i64> = Vec::new();
    let mut k: usize = 0;
    assert(post_ids@ =~= group.post_ids@.take(0));
    while k < group.post_ids.len()
        invariant
            k <= group.post_ids@.len(),
            post_ids@ == group.post_ids@.take(k as int),
        decreases group.post_ids@.len() - k,
    {
        post_ids.push(group.post_ids[k]);
        assert(group.post_ids@.take(k as int + 1) =~= group.post_ids@.take(k as int).push(
            group.post_ids@[k as int],
        ));
        k = k + 1;
    }
    assert(group.post_ids@.take(group.post_ids@.len() as int) =~= group.post_ids@);
    Ok(OriginalPrunePayload { post_ids, paths })
}

/// Whether some post still needs an original.
pub open spec fn still_required(references: Seq<ReferenceView>) -> bool {
    exists|i: int| 0 <= i < references.len() && !((#[trigger] references[i]).state is Pruned)
}

/// Whether the digest rows of an original have become stale: no post needs it any more.
pub fn hashes_are_stale(references: &Vec<PathReference>) -> (r: bool)
    ensures
        r == !still_required(text::views(references@)),
{
    let ghost all = text::views(references@);
    let mut i: usize = 0;
    while i < references.len()
        invariant
            i <= references@.len(),
            all == text::views(references@),
            forall|j: int| 0 <= j < i ==> (#[trigger] all[j]).state is Pruned,
        decreases references@.len() - i,
    {
        assert(all[i as int] == references@[i as int]@);
        if references[i].state != MediaState::Pruned {
            return false;
        }
        i = i + 1;
    }
    true
}

/// The references after every post of the intent has finished its transition.
pub open spec fn after_transition(references: Seq<ReferenceView>, targets: Seq<i64>) -> Seq<ReferenceView> {
    references.map_values(
        |r: ReferenceView|
            if targets.contains(r.post_id) && r.state is PrunePending {
                ReferenceView { state: MediaState::Pruned, ..r }
            } else {
                r
            },
    )
}

/// An original that an intent may remove is needed by no post once the posts of the
/// intent have finished their transition, so that its digest rows are stale.
pub proof fn law_removed_originals_are_unneeded(
    references: Seq<ReferenceView>,
    board: Seq<char>,
    targets: Seq<i64>,
)
    requires
        references_refusal(references, board, targets, true) is None,
    ensures
        !still_required(after_transition(references, targets)),
    decreases references.len(),
{
    let after = after_transition(references, targets);
    assert forall|i: int| 0 <= i < after.len() implies (#[trigger] after[i]).state is Pruned by {
        lemma_reference_accepted(references, board, targets, i);
    }
}

proof fn lemma_reference_accepted(
    references: Seq<ReferenceView>,
    board: Seq<char>,
    targets: Seq<i64>,
    k: int,
)
    requires
        0 <= k < references.len(),
        references_refusal(references, board, targets, true) is None,
    ensures
        reference_refusal(references[k], board, targets, true) is None,
    decreases references.len(),
{
    if k < references.len() - 1 {
        lemma_reference_accepted(references.drop_last(), board, targets, k);
    }
}

/// No post of an intent that is carried out refuses to finish: each is gone, is pruned,
/// or is marked pruned.
pub proof fn law_accepted_targets_finish(
    rows: Seq<Option<TargetView>>,
    paths: Seq<CandidatePathView>,
    k: int,
)
    requires
        0 <= k < rows.len(),
        targets_refusal(rows, paths, false) is None,
    ensures
        match rows[k] {
            Some(post) => !(transition(Some(post.state)) is Refused),
            None => transition(None) is Settled,
        },
    decreases rows.len(),
{
    if k < rows.len() - 1 {
        law_accepted_targets_finish(rows.drop_last(), paths, k);
    }
}

/// An intent whose posts are all pruned and whose files are all gone is carried
/// out again without removing anything.
pub proof fn law_second_replay_removes_nothing(paths: Seq<CandidatePathView>, present: Seq<bool>, n: nat)
    requires
        n <= present.len(),
        forall|i: int| 0 <= i < present.len() ==> present[i] == false,
    ensures
        finalized(paths, present, n).removed_files == 0,
        finalized(paths, present, n).removed_bytes == 0,
    decreases n,
{
    if n > 0 {
        law_second_replay_removes_nothing(paths, present, (n - 1) as nat);
    }
}

proof fn lemma_intended_board(paths: Seq<CandidatePathView>, path: Seq<char>, board: Seq<char>)
    requires
        prune::distinct_paths(paths),
    ensures
        intended_board(paths, path) == Some(board) <==> exists|k: int|
            0 <= k < paths.len() && (#[trigger] paths[k]).path == path && paths[k].board_short
                == board,
    decreases paths.len(),
{
    if paths.len() > 0 {
        let earlier = paths.drop_last();
        assert(prune::distinct_paths(earlier)) by {
            assert forall|i: int, j: int| 0 <= i < j < earlier.len() implies (
            #[trigger] earlier[i]).path != (#[trigger] earlier[j]).path by {
                assert(earlier[i] == paths[i] && earlier[j] == paths[j]);
            }
        }
        lemma_intended_board(earlier, path, board);
        if exists|k: int|
            0 <= k < earlier.len() && (#[trigger] earlier[k]).path == path && earlier[k].board_short
                == board {
            let k = choose|k: int|
                0 <= k < earlier.len() && (#[trigger] earlier[k]).path == path
                    && earlier[k].board_short == board;
            assert(paths[k] == earlier[k]);
        }
        if exists|k: int|
            0 <= k < paths.len() && (#[trigger] paths[k]).path == path && paths[k].board_short
                == board {
            let k = choose|k: int|
                0 <= k < paths.len() && (#[trigger] paths[k]).path == path && paths[k].board_short
                    == board;
            if k < earlier.len() {
                assert(earlier[k] == paths[k]);
                assert(paths[k].path != paths[paths.len() - 1].path);
            }
        }
        if paths.last().path == path && paths.last().board_short == board {
            assert(paths[paths.len() - 1].path == path);
        }
    }
}

/// Whether the originals include one with the path, on the board.
pub open spec fn includes(paths: Seq<CandidatePathView>, path: Seq<char>, board: Seq<char>) -> bool {
    exists|k: int|
        0 <= k < paths.len() && (#[trigger] paths[k]).path == path && paths[k].board_short == board
}

/// A post may be pruned exactly where it is there, not archived, and no processing is under
/// way, and may be finished exactly where it is about to be pruned, was pruned, or is gone;
/// in both cases only where its file and its audio are among the originals, on its board.
pub proof fn law_posts_are_pruned_exactly_when_eligible(
    row: Option<TargetView>,
    paths: Seq<CandidatePathView>,
)
    requires
        prune::distinct_paths(paths),
    ensures
        ({
            let post = row->Some_0;
            let known = row is Some ==> (post.file_path is Some ==> includes(
                paths,
                post.file_path->Some_0,
                post.board_short,
            )) && (post.audio_path is Some ==> includes(
                paths,
                post.audio_path->Some_0,
                post.board_short,
            ));
            &&& target_refusal(row, paths, true) is None <==> row is Some && !post.archived
                && post.state is Settled && known
            &&& target_refusal(row, paths, false) is None <==> row is None || ((
            post.state is PrunePending || post.state is Pruned) && known)
            &&& row is None ==> target_refusal(row, paths, true) == Some(PruneRefusal::PostGone)
        }),
{
    if row is Some {
        let post = row->Some_0;
        if post.file_path is Some {
            lemma_intended_board(paths, post.file_path->Some_0, post.board_short);
        }
        if post.audio_path is Some {
            lemma_intended_board(paths, post.audio_path->Some_0, post.board_short);
        }
    }
}

/// The references to an original let it go exactly where each is on its board and is a
/// pruned post's or one of the posts to be pruned, which must be about to be pruned once
/// the intent is written.
pub proof fn law_references_let_go_exactly_when_unneeded(
    references: Seq<ReferenceView>,
    board: Seq<char>,
    targets: Seq<i64>,
    committed: bool,
)
    ensures
        references_refusal(references, board, targets, committed) is None <==> forall|k: int|
            0 <= k < references.len() ==> (#[trigger] references[k]).board_short == board && (
            references[k].state is Pruned || (targets.contains(references[k].post_id) && (
            committed ==> references[k].state is PrunePending))),
    decreases references.len(),
{
    if references.len() > 0 {
        let earlier = references.drop_last();
        law_references_let_go_exactly_when_unneeded(earlier, board, targets, committed);
        if references_refusal(references, board, targets, committed) is None {
            assert forall|k: int| 0 <= k < references.len() implies (
            #[trigger] references[k]).board_short == board && (references[k].state is Pruned || (
            targets.contains(references[k].post_id) && (committed ==> references[k].state
                is PrunePending))) by {
                if k < earlier.len() {
                    assert(earlier[k] == references[k]);
                }
            }
        }
        if forall|k: int|
            0 <= k < references.len() ==> (#[trigger] references[k]).board_short == board && (
            references[k].state is Pruned || (targets.contains(references[k].post_id) && (
            committed ==> references[k].state is PrunePending))) {
            assert forall|k: int| 0 <= k < earlier.len() implies (
            #[trigger] earlier[k]).board_short == board && (earlier[k].state is Pruned || (
            targets.contains(earlier[k].post_id) && (committed ==> earlier[k].state
                is PrunePending))) by {
                assert(earlier[k] == references[k]);
            }
            assert(references[references.len() - 1].board_short == board);
        }
    }
}

/// The files that were there, and their sizes, added up over the first originals.
pub open spec fn files_there(present: Seq<bool>, n: nat) -> int
    decreases n,
{
    if n == 0 {
        0
    } else {
        files_there(present, (n - 1) as nat) + if present[n - 1] {
            1int
        } else {
            0
        }
    }
}

/// The sizes of the files that were there, added up over the first originals.
pub open spec fn bytes_there(paths: Seq<CandidatePathView>, present: Seq<bool>, n: nat) -> int
    decreases n,
{
    if n == 0 {
        0
    } else {
        bytes_there(paths, present, (n - 1) as nat) + if present[n - 1] {
            paths[n - 1].size as int
        } else {
            0
        }
    }
}

/// The report counts every file that was removed, and its size.
pub proof fn law_removals_are_counted(paths: Seq<CandidatePathView>, present: Seq<bool>, n: nat)
    requires
        n <= u64::MAX,
        bytes_there(paths, present, n) <= u64::MAX,
    ensures
        finalized(paths, present, n).removed_files == files_there(present, n),
        finalized(paths, present, n).removed_bytes == bytes_there(paths, present, n),
        0 <= files_there(present, n) <= n,
        0 <= bytes_there(paths, present, n),
    decreases n,
{
    if n > 0 {
        lemma_bytes_there(paths, present, (n - 1) as nat);
        law_removals_are_counted(paths, present, (n - 1) as nat);
    }
}

proof fn lemma_bytes_there(paths: Seq<CandidatePathView>, present: Seq<bool>, n: nat)
    ensures
        0 <= bytes_there(paths, present, n),
    decreases n,
{
    if n > 0 {
        lemma_bytes_there(paths, present, (n - 1) as nat);
    }
}

/// An original is removed at its turn exactly where its references let it go and a safe
/// file is there; where none is there nothing is done, and an unsafe one ends the removals.
pub proof fn law_originals_are_removed_exactly_when_let_go(
    path: CandidatePathView,
    references: Seq<ReferenceView>,
    file: FileSize,
    targets: Seq<i64>,
)
    ensures
        ({
            let step = removal_step(path, references, file, targets);
            let free = forall|k: int|
                0 <= k < references.len() ==> (#[trigger] references[k]).board_short
                    == path.board_short && (references[k].state is Pruned || (targets.contains(
                    references[k].post_id,
                ) && references[k].state is PrunePending));
            &&& step is Remove <==> free && file is Present
            &&& step is Keep <==> free && file is Missing
            &&& free && file is Unsafe ==> step == RemovalStep::Stop(PruneRefusal::UnsafePath)
            &&& step_refusal(step, true) is None <==> free && !(file is Unsafe)
            &&& step_refusal(step, false) is None <==> free && file is Missing
        }),
{
    law_references_let_go_exactly_when_unneeded(references, path.board_short, targets, true);
}

/// A digest row is stale exactly where every post that refers to its file was pruned.
pub proof fn law_digests_are_stale_when_all_is_pruned(references: Seq<ReferenceView>)
    ensures
        !still_required(references) <==> forall|k: int|
            0 <= k < references.len() ==> (#[trigger] references[k]).state is Pruned,
{
}

proof fn lemma_targets_refusal(
    rows: Seq<Option<TargetView>>,
    paths: Seq<CandidatePathView>,
    require_active: bool,
)
    ensures
        targets_refusal(rows, paths, require_active) is None <==> forall|k: int|
            0 <= k < rows.len() ==> target_refusal(
                #[trigger] rows[k],
                paths,
                require_active,
            ) is None,
    decreases rows.len(),
{
    if rows.len() > 0 {
        let earlier = rows.drop_last();
        lemma_targets_refusal(earlier, paths, require_active);
        if targets_refusal(rows, paths, require_active) is None {
            assert forall|k: int| 0 <= k < rows.len() implies target_refusal(
                #[trigger] rows[k],
                paths,
                require_active,
            ) is None by {
                if k < earlier.len() {
                    assert(earlier[k] == rows[k]);
                }
            }
        }
        if forall|k: int|
            0 <= k < rows.len() ==> target_refusal(
                #[trigger] rows[k],
                paths,
                require_active,
            ) is None {
            assert forall|k: int| 0 <= k < earlier.len() implies target_refusal(
                #[trigger] earlier[k],
                paths,
                require_active,
            ) is None by {
                assert(earlier[k] == rows[k]);
            }
            assert(target_refusal(rows[rows.len() - 1], paths, require_active) is None);
        }
    }
}

proof fn lemma_planned_refusal(
    paths: Seq<CandidatePathView>,
    references: Seq<Seq<ReferenceView>>,
    targets: Seq<i64>,
    n: nat,
)
    requires
        n <= paths.len(),
        n <= references.len(),
    ensures
        planned_refusal(paths, references, targets, n) is None <==> forall|k: int|
            0 <= k < n ==> references_refusal(
                #[trigger] references[k],
                paths[k].board_short,
                targets,
                false,
            ) is None,
    decreases n,
{
    if n > 0 {
        lemma_planned_refusal(paths, references, targets, (n - 1) as nat);
    }
}

/// An intent is written exactly where every post may be pruned, every reference lets its
/// original go, and every post could be marked.
pub proof fn law_intents_are_written_exactly_when_all_agree(
    group: CandidateView,
    rows: Seq<Option<TargetView>>,
    references: Seq<Seq<ReferenceView>>,
    marked: Seq<bool>,
)
    requires
        references.len() == group.paths.len(),
    ensures
        intent_refusal(group, rows, references, marked) is None <==> {
            &&& forall|k: int|
                0 <= k < rows.len() ==> target_refusal(#[trigger] rows[k], group.paths, true)
                    is None
            &&& forall|k: int|
                0 <= k < group.paths.len() ==> references_refusal(
                    #[trigger] references[k],
                    group.paths[k].board_short,
                    group.post_ids,
                    false,
                ) is None
            &&& forall|k: int| 0 <= k < marked.len() ==> #[trigger] marked[k]
        },
{
    lemma_targets_refusal(rows, group.paths, true);
    lemma_planned_refusal(group.paths, references, group.post_ids, group.paths.len());
}

/// An intent that is malformed, or that a post stands in the way of, removes nothing, and is
/// refused for that reason.
pub proof fn law_refused_intents_remove_nothing(
    post_ids: Seq<i64>,
    paths: Seq<CandidatePathView>,
    rows: Seq<Option<TargetView>>,
    states: Seq<PathStateView>,
)
    ensures
        ({
            let outcome = finalize_outcome(post_ids, paths, rows, states);
            let blocked = targets_refusal(rows, paths, false);
            &&& !prune::valid_payload(post_ids, paths) ==> outcome == Err::<
                OriginalPruneFinalizeReport,
                PruneRefusal,
            >(PruneRefusal::Malformed) && start_refusal(post_ids, paths, rows) == Some(
                PruneRefusal::Malformed,
            )
            &&& prune::valid_payload(post_ids, paths) && blocked is Some ==> outcome == Err::<
                OriginalPruneFinalizeReport,
                PruneRefusal,
            >(blocked->Some_0) && start_refusal(post_ids, paths, rows) == blocked
            &&& outcome is Ok ==> prune::valid_payload(post_ids, paths) && blocked is None
        }),
{
}

} // verus!
