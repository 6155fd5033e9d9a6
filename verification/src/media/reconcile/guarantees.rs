//! What a pass guarantees of the files that the database rows name.

use vstd::prelude::*;
use crate::numbers;
use crate::paths;
use super::audit;
use super::audit::{DeletionView, ObservationView};
use super::intents;
use super::intents::{IntentRowView, IntentView};
use super::inventory::PageView;
use super::jobs;
use super::jobs::{JobRowView, JobView};
use super::model;
use super::model::{ModelView, RecordView, ReferenceRole, ReferenceSource};
use super::orphans::EntrySeen;
use super::pass;
use super::pass::SnapshotView;
use super::report::{MediaCategory, ReconcileLimits, ReconcileMode};
use super::rows;
use super::rows::{HashRowView, PostRowView};
use super::run;

verus! {

/// Whether the second snapshot holds every reference of the first, at its place, knows the
/// same boards, and trusts no more rows.
spec fn grows(a: ModelView, b: ModelView) -> bool {
    &&& a.records.len() <= b.records.len()
    &&& forall|i: int| 0 <= i < a.records.len() ==> #[trigger] b.records[i] == a.records[i]
    &&& a.boards == b.boards
    &&& a.global_ambiguity ==> b.global_ambiguity
    &&& a.incomplete ==> b.incomplete
}

proof fn lemma_post_grows(m: ModelView, row: PostRowView)
    ensures
        grows(m, rows::with_post(m, row)),
{
}

proof fn lemma_posts_grow(m: ModelView, all: Seq<PostRowView>)
    ensures
        grows(m, rows::with_posts(m, all)),
    decreases all.len(),
{
    if all.len() > 0 {
        lemma_posts_grow(m, all.drop_last());
        lemma_post_grows(rows::with_posts(m, all.drop_last()), all.last());
    }
}

proof fn lemma_hashes_grow(m: ModelView, all: Seq<HashRowView>)
    ensures
        grows(m, rows::with_hashes(m, all)),
    decreases all.len(),
{
    if all.len() > 0 {
        lemma_hashes_grow(m, all.drop_last());
    }
}

proof fn lemma_jobs_grow(m: ModelView, all: Seq<JobRowView>, n: nat)
    ensures
        grows(m, jobs::with_jobs(m, all, n)),
    decreases n,
{
    if n > 0 {
        lemma_jobs_grow(m, all, (n - 1) as nat);
    }
}

proof fn lemma_delete_paths_grow(m: ModelView, id: Seq<char>, paths: Seq<Seq<char>>)
    ensures
        grows(m, intents::with_delete_paths(m, id, paths).model),
    decreases paths.len(),
{
    if paths.len() > 0 {
        lemma_delete_paths_grow(m, id, paths.drop_last());
    }
}

proof fn lemma_delete_dirs_grow(m: ModelView, dirs: Seq<Seq<char>>)
    ensures
        grows(m, intents::with_delete_dirs(m, dirs).model),
    decreases dirs.len(),
{
    if dirs.len() > 0 {
        lemma_delete_dirs_grow(m, dirs.drop_last());
    }
}

proof fn lemma_prune_paths_grow(
    m: ModelView,
    id: Seq<char>,
    targets: Seq<crate::media::prune::CandidatePathView>,
    protected: Seq<Seq<char>>,
)
    ensures
        grows(m, intents::with_prune_paths(m, id, targets, protected).model),
    decreases targets.len(),
{
    if targets.len() > 0 {
        lemma_prune_paths_grow(m, id, targets.drop_last(), protected);
    }
}

proof fn lemma_artifacts_grow(
    m: ModelView,
    id: Seq<char>,
    upload: intents::UploadView,
    stage: Seq<char>,
    n: nat,
)
    ensures
        grows(m, intents::with_artifacts(m, id, upload, stage, n).model),
    decreases n,
{
    if n > 0 {
        lemma_artifacts_grow(m, id, upload, stage, (n - 1) as nat);
    }
}

proof fn lemma_intent_grows(m: ModelView, row: IntentRowView)
    ensures
        grows(m, intents::with_intent(m, row).model),
{
    match row.body {
        IntentView::DeleteFiles { paths, dirs } => {
            lemma_delete_paths_grow(m, row.id, paths);
            lemma_delete_dirs_grow(intents::with_delete_paths(m, row.id, paths).model, dirs);
        },
        IntentView::OriginalPrune { post_ids, paths } => {
            lemma_prune_paths_grow(m, row.id, paths, intents::post_owners(post_ids));
        },
        IntentView::UploadFinalize(upload) => {
            if intents::stage_relative(upload) is Ok {
                lemma_artifacts_grow(
                    m,
                    row.id,
                    upload,
                    intents::stage_relative(upload)->Ok_0,
                    intents::artifact_paths(upload).len(),
                );
            }
        },
        _ => {},
    }
}

proof fn lemma_intents_grow(m: ModelView, all: Seq<IntentRowView>)
    ensures
        grows(m, intents::with_intents(m, all)),
    decreases all.len(),
{
    if all.len() > 0 {
        lemma_intents_grow(m, all.drop_last());
        lemma_intent_grows(intents::with_intents(m, all.drop_last()), all.last());
    }
}

proof fn lemma_stages_grow(m: ModelView, s: SnapshotView, limit: usize)
    ensures
        grows(m, rows::posts_collected(m, s.posts, limit)),
        grows(m, rows::hashes_collected(m, s.hashes, limit)),
        grows(m, jobs::jobs_collected(m, s.jobs, limit)),
        grows(m, intents::intents_collected(m, s.intents, limit)),
{
    let left = model::rows_left(m, limit);
    lemma_posts_grow(model::counted(m, s.posts.len(), left), model::kept_rows(s.posts, left));
    lemma_hashes_grow(model::counted(m, s.hashes.len(), left), model::kept_rows(s.hashes, left));
    let kept = model::kept_rows(s.jobs, left);
    lemma_jobs_grow(model::counted(m, s.jobs.len(), left), kept, kept.len());
    lemma_intents_grow(
        model::counted(m, s.intents.len(), left),
        model::kept_rows(s.intents, left),
    );
}

/// The path of a file in a board's directory, or below `thumbs` in it.
pub open spec fn file_of_board(board: Seq<char>, name: Seq<char>, thumb: bool) -> Seq<char> {
    if thumb {
        board + "/"@ + "thumbs"@ + "/"@ + name
    } else {
        board + "/"@ + name
    }
}

/// Whether the snapshot keeps the path's file from being an orphan: a reference that expects
/// the file is to it, or the snapshot is not to be trusted.
spec fn accounted(m: ModelView, path: Seq<char>) -> bool {
    ||| m.global_ambiguity
    ||| m.incomplete
    ||| exists|i: int|
        0 <= i < m.records.len() && (#[trigger] m.records[i]).path == path
            && !(m.records[i].role is TerminalMissing)
}

proof fn lemma_accounted_grows(a: ModelView, b: ModelView, path: Seq<char>)
    requires
        accounted(a, path),
        grows(a, b),
    ensures
        accounted(b, path),
{
    if !a.global_ambiguity && !a.incomplete {
        let i = choose|i: int|
            0 <= i < a.records.len() && (#[trigger] a.records[i]).path == path
                && !(a.records[i].role is TerminalMissing);
        assert(b.records[i] == a.records[i]);
    }
}

proof fn lemma_managed_as_named(
    board: Seq<char>,
    name: Seq<char>,
    thumb: bool,
    expected: Option<Seq<char>>,
    boards: Seq<Seq<char>>,
)
    requires
        paths::is_shown_name(board),
        paths::is_shown_name(name),
    ensures
        ({
            let path = file_of_board(board, name, thumb);
            model::managed_path(path, expected, boards) is Some ==> model::managed_path(
                path,
                expected,
                boards,
            )->Some_0.relative == path
        }),
{
    let path = file_of_board(board, name, thumb);
    if board.contains('\\') {
        let i = choose|i: int| 0 <= i < board.len() && board[i] == '\\';
        assert(path[i] == '\\');
    } else if name.contains('\\') {
        let i = choose|i: int| 0 <= i < name.len() && name[i] == '\\';
        assert(path[path.len() - name.len() + i] == '\\');
    } else {
        model::law_files_of_known_boards_are_managed(board, name, expected, boards);
    }
}

proof fn lemma_post_path_accounts(
    m: ModelView,
    row: PostRowView,
    path: Seq<char>,
    board: Seq<char>,
    name: Seq<char>,
    thumb: bool,
    category: MediaCategory,
    role: ReferenceRole,
)
    requires
        paths::is_shown_name(board),
        paths::is_shown_name(name),
        path == file_of_board(board, name, thumb),
        !(role is TerminalMissing),
    ensures
        accounted(rows::with_optional_path(m, row, Some(path), category, role), path),
{
    lemma_managed_as_named(board, name, thumb, Some(row.board), m.boards);
    lemma_managed_as_named(board, name, thumb, None, m.boards);
    let after = rows::with_optional_path(m, row, Some(path), category, role);
    if !after.global_ambiguity {
        assert(after.records[m.records.len() as int].path == path);
    }
}

/// Whether a reference of the snapshot is the post's, to this path, in this category and
/// role.
pub open spec fn post_refers(
    m: ModelView,
    id: i64,
    path: Seq<char>,
    category: MediaCategory,
    role: ReferenceRole,
) -> bool {
    exists|i: int|
        0 <= i < m.records.len() && (#[trigger] m.records[i]).path == path && m.records[i].source
            == ReferenceSource::Post && m.records[i].owner == "post:"@ + numbers::int_text(
            id as int,
        ) && m.records[i].category == category && m.records[i].role == role
}

proof fn lemma_post_refers_grows(
    a: ModelView,
    b: ModelView,
    id: i64,
    path: Seq<char>,
    category: MediaCategory,
    role: ReferenceRole,
)
    requires
        grows(a, b),
        post_refers(a, id, path, category, role),
    ensures
        post_refers(b, id, path, category, role),
{
    let i = choose|i: int|
        0 <= i < a.records.len() && (#[trigger] a.records[i]).path == path && a.records[i].source
            == ReferenceSource::Post && a.records[i].owner == "post:"@ + numbers::int_text(
            id as int,
        ) && a.records[i].category == category && a.records[i].role == role;
    assert(b.records[i] == a.records[i]);
}

/// Whether the row's references are in the snapshot: to the file and the audio, which are
/// gone on purpose once the originals have been pruned and otherwise needed, and to the
/// thumbnail, which is needed in every state.
pub open spec fn post_is_held(m: ModelView, row: PostRowView) -> bool {
    let board = Some(row.board);
    let pruned = row.media_state is Pruned;
    &&& row.file_path is Some ==> (model::managed_path(
        row.file_path->Some_0,
        board,
        m.boards,
    ) is Some ==> post_refers(
        m,
        row.id,
        model::managed_path(row.file_path->Some_0, board, m.boards)->Some_0.relative,
        MediaCategory::Original,
        if pruned {
            ReferenceRole::TerminalMissing
        } else if row.media_state is Settled {
            ReferenceRole::Active
        } else {
            ReferenceRole::Temporary
        },
    ))
    &&& row.audio_file_path is Some ==> (model::managed_path(
        row.audio_file_path->Some_0,
        board,
        m.boards,
    ) is Some ==> post_refers(
        m,
        row.id,
        model::managed_path(row.audio_file_path->Some_0, board, m.boards)->Some_0.relative,
        MediaCategory::Original,
        if pruned {
            ReferenceRole::TerminalMissing
        } else {
            ReferenceRole::Active
        },
    ))
    &&& row.thumb_path is Some ==> (model::managed_path(
        row.thumb_path->Some_0,
        board,
        m.boards,
    ) is Some ==> post_refers(
        m,
        row.id,
        model::managed_path(row.thumb_path->Some_0, board, m.boards)->Some_0.relative,
        if row.mime_type.len() >= 6 && row.mime_type.take(6) == "audio/"@ {
            MediaCategory::Waveform
        } else {
            MediaCategory::Thumbnail
        },
        ReferenceRole::Active,
    ))
}

proof fn lemma_held_grows(a: ModelView, b: ModelView, row: PostRowView)
    requires
        grows(a, b),
        post_is_held(a, row),
    ensures
        post_is_held(b, row),
{
    assert forall|path: Seq<char>, category: MediaCategory, role: ReferenceRole|
        post_refers(a, row.id, path, category, role) implies #[trigger] post_refers(
        b,
        row.id,
        path,
        category,
        role,
    ) by {
        lemma_post_refers_grows(a, b, row.id, path, category, role);
    }
}

proof fn lemma_post_is_held(m: ModelView, row: PostRowView)
    ensures
        post_is_held(rows::with_post(m, row), row),
{
    reveal_strlit("audio/");
    let known = m.boards_by_id.dom().contains(row.board_id) && m.boards_by_id[row.board_id]
        == row.board;
    let m1 = ModelView {
        global_ambiguity: m.global_ambiguity || !known,
        posts: m.posts.insert(
            row.id,
            model::PostView {
                board: row.board,
                file_path: row.file_path,
                media_state: row.media_state,
            },
        ),
        ..m
    };
    let original = MediaCategory::Original;
    let primary = rows::primary_role(row.media_state);
    let audio = rows::audio_role(row.media_state);
    let shown = rows::thumb_category(row.mime_type);
    let m2 = rows::with_optional_path(m1, row, row.file_path, original, primary);
    let m3 = rows::with_optional_path(m2, row, row.audio_file_path, original, audio);
    let m4 = rows::with_optional_path(m3, row, row.thumb_path, shown, ReferenceRole::Active);
    assert(m4 == rows::with_post(m, row));
    assert(grows(m2, m3) && grows(m3, m4));
    if row.file_path is Some {
        let managed = model::managed_path(row.file_path->Some_0, Some(row.board), m.boards);
        if managed is Some {
            let path = managed->Some_0.relative;
            assert(m2.records[m1.records.len() as int].path == path);
            assert(post_refers(m2, row.id, path, original, primary));
            lemma_post_refers_grows(m2, m3, row.id, path, original, primary);
            lemma_post_refers_grows(m3, m4, row.id, path, original, primary);
        }
    }
    if row.audio_file_path is Some {
        let managed = model::managed_path(row.audio_file_path->Some_0, Some(row.board), m.boards);
        if managed is Some {
            let path = managed->Some_0.relative;
            assert(m3.records[m2.records.len() as int].path == path);
            assert(post_refers(m3, row.id, path, original, audio));
            lemma_post_refers_grows(m3, m4, row.id, path, original, audio);
        }
    }
    if row.thumb_path is Some {
        let managed = model::managed_path(row.thumb_path->Some_0, Some(row.board), m.boards);
        if managed is Some {
            let path = managed->Some_0.relative;
            assert(m4.records[m3.records.len() as int].path == path);
            assert(post_refers(m4, row.id, path, shown, ReferenceRole::Active));
        }
    }
}

proof fn lemma_posts_are_held(m: ModelView, all: Seq<PostRowView>, k: int)
    requires
        0 <= k < all.len(),
    ensures
        post_is_held(rows::with_posts(m, all), all[k]),
    decreases all.len(),
{
    let before = rows::with_posts(m, all.drop_last());
    if k == all.len() - 1 {
        lemma_post_is_held(before, all.last());
    } else {
        lemma_posts_are_held(m, all.drop_last(), k);
        assert(all.drop_last()[k] == all[k]);
        lemma_post_grows(before, all.last());
        lemma_held_grows(before, rows::with_posts(m, all), all[k]);
    }
}

proof fn lemma_boards_are_not_counted_twice(m: ModelView, all: Seq<rows::BoardRowView>)
    ensures
        rows::with_boards(m, all).database_rows_scanned == m.database_rows_scanned,
    decreases all.len(),
{
    if all.len() > 0 {
        lemma_boards_are_not_counted_twice(m, all.drop_last());
    }
}

/// For every post row within the row limit, each of its file, its audio and its thumbnail
/// that is a managed path of its board is the path of a reference that the post owns, in a
/// role that needs the file; the file and the audio of a pruned post are gone on purpose.
pub proof fn law_posts_hold_their_files(s: SnapshotView, limit: usize, k: int)
    requires
        0 <= k < s.posts.len(),
        s.boards.len() + k < limit,
    ensures
        post_is_held(pass::snapshot_model(s, limit), s.posts[k]),
{
    let fresh = ModelView::fresh(s.data_version);
    let m0 = rows::boards_collected(fresh, s.boards, limit);
    let m1 = rows::posts_collected(m0, s.posts, limit);
    let m2 = rows::hashes_collected(m1, s.hashes, limit);
    let m3 = jobs::jobs_collected(m2, s.jobs, limit);
    let m4 = intents::intents_collected(m3, s.intents, limit);
    assert(grows(m1, m2) && grows(m2, m3) && grows(m3, m4)) by {
        lemma_stages_grow(m1, s, limit);
        lemma_stages_grow(m2, s, limit);
        lemma_stages_grow(m3, s, limit);
    }
    lemma_boards_are_not_counted_twice(
        model::counted(fresh, s.boards.len(), limit as nat),
        model::kept_rows(s.boards, limit as nat),
    );
    let left = model::rows_left(m0, limit);
    assert(k < left);
    let kept = model::kept_rows(s.posts, left);
    assert(kept[k] == s.posts[k]);
    lemma_posts_are_held(model::counted(m0, s.posts.len(), left), kept, k);
    lemma_held_grows(m1, m2, s.posts[k]);
    lemma_held_grows(m2, m3, s.posts[k]);
    lemma_held_grows(m3, m4, s.posts[k]);
}

/// Whether a row that has not been pruned names the path: its file, its audio, or in every
/// state its thumbnail.
pub open spec fn names_live_file(row: PostRowView, path: Seq<char>) -> bool {
    ||| row.thumb_path == Some(path)
    ||| !(row.media_state is Pruned) && (row.file_path == Some(path) || row.audio_file_path == Some(
        path,
    ))
}

proof fn lemma_post_accounts(
    m: ModelView,
    row: PostRowView,
    board: Seq<char>,
    name: Seq<char>,
    thumb: bool,
)
    requires
        paths::is_shown_name(board),
        paths::is_shown_name(name),
        names_live_file(row, file_of_board(board, name, thumb)),
    ensures
        accounted(rows::with_post(m, row), file_of_board(board, name, thumb)),
{
    let path = file_of_board(board, name, thumb);
    let known = m.boards_by_id.dom().contains(row.board_id) && m.boards_by_id[row.board_id]
        == row.board;
    let m1 = ModelView {
        global_ambiguity: m.global_ambiguity || !known,
        posts: m.posts.insert(
            row.id,
            model::PostView {
                board: row.board,
                file_path: row.file_path,
                media_state: row.media_state,
            },
        ),
        ..m
    };
    let original = MediaCategory::Original;
    let primary = rows::primary_role(row.media_state);
    let audio = rows::audio_role(row.media_state);
    let shown = rows::thumb_category(row.mime_type);
    let m2 = rows::with_optional_path(m1, row, row.file_path, original, primary);
    let m3 = rows::with_optional_path(m2, row, row.audio_file_path, original, audio);
    let m4 = rows::with_optional_path(m3, row, row.thumb_path, shown, ReferenceRole::Active);
    assert(m4 == rows::with_post(m, row));
    if row.thumb_path == Some(path) {
        lemma_post_path_accounts(m3, row, path, board, name, thumb, shown, ReferenceRole::Active);
    } else if row.file_path == Some(path) {
        lemma_post_path_accounts(m1, row, path, board, name, thumb, original, primary);
        lemma_accounted_grows(m2, m3, path);
        lemma_accounted_grows(m3, m4, path);
    } else {
        lemma_post_path_accounts(m2, row, path, board, name, thumb, original, audio);
        lemma_accounted_grows(m3, m4, path);
    }
}

proof fn lemma_posts_account(
    m: ModelView,
    all: Seq<PostRowView>,
    k: int,
    board: Seq<char>,
    name: Seq<char>,
    thumb: bool,
)
    requires
        0 <= k < all.len(),
        paths::is_shown_name(board),
        paths::is_shown_name(name),
        names_live_file(all[k], file_of_board(board, name, thumb)),
    ensures
        accounted(rows::with_posts(m, all), file_of_board(board, name, thumb)),
    decreases all.len(),
{
    let before = rows::with_posts(m, all.drop_last());
    if k == all.len() - 1 {
        lemma_post_accounts(before, all.last(), board, name, thumb);
    } else {
        assert(all.drop_last()[k] == all[k]);
        lemma_posts_account(m, all.drop_last(), k, board, name, thumb);
        lemma_post_grows(before, all.last());
        lemma_accounted_grows(
            before,
            rows::with_posts(m, all),
            file_of_board(board, name, thumb),
        );
    }
}

proof fn lemma_hash_accounts(
    m: ModelView,
    row: HashRowView,
    board: Seq<char>,
    name: Seq<char>,
    thumb: bool,
)
    requires
        paths::is_shown_name(board),
        paths::is_shown_name(name),
        row.file_path == file_of_board(board, name, thumb) || row.thumb_path == file_of_board(
            board,
            name,
            thumb,
        ),
    ensures
        accounted(rows::with_hash(m, row), file_of_board(board, name, thumb)),
{
    let path = file_of_board(board, name, thumb);
    let after = rows::with_hash(m, row);
    lemma_managed_as_named(board, name, thumb, None, m.boards);
    if !after.global_ambiguity {
        let file = model::managed_path(row.file_path, None, m.boards);
        assert(file is Some);
        lemma_managed_as_named(board, name, thumb, Some(file->Some_0.board), m.boards);
        if row.file_path == path {
            assert(after.records[m.records.len() as int].path == path);
        } else {
            reveal_strlit("/");
            assert(path[board.len() as int] == '/');
            assert(!crate::text::is_space('/'));
            assert(after.records[m.records.len() as int + 1].path == path);
        }
    }
}

proof fn lemma_hashes_account(
    m: ModelView,
    all: Seq<HashRowView>,
    k: int,
    board: Seq<char>,
    name: Seq<char>,
    thumb: bool,
)
    requires
        0 <= k < all.len(),
        paths::is_shown_name(board),
        paths::is_shown_name(name),
        all[k].file_path == file_of_board(board, name, thumb) || all[k].thumb_path
            == file_of_board(board, name, thumb),
    ensures
        accounted(rows::with_hashes(m, all), file_of_board(board, name, thumb)),
    decreases all.len(),
{
    let before = rows::with_hashes(m, all.drop_last());
    if k == all.len() - 1 {
        lemma_hash_accounts(before, all.last(), board, name, thumb);
    } else {
        assert(all.drop_last()[k] == all[k]);
        lemma_hashes_account(m, all.drop_last(), k, board, name, thumb);
        assert(grows(before, rows::with_hash(before, all.last())));
        lemma_accounted_grows(
            before,
            rows::with_hashes(m, all),
            file_of_board(board, name, thumb),
        );
    }
}

/// Whether the job reads the path's file, or makes it.
pub open spec fn job_names_file(row: JobRowView, path: Seq<char>) -> bool {
    match jobs::parsed_job(row.job_type, row.payload) {
        Some(JobView::Media { source, output, .. }) => source == path || output == path,
        _ => false,
    }
}

proof fn lemma_job_accounts(
    m: ModelView,
    all: Seq<JobRowView>,
    row: JobRowView,
    board: Seq<char>,
    name: Seq<char>,
    thumb: bool,
)
    requires
        paths::is_shown_name(board),
        paths::is_shown_name(name),
        job_names_file(row, file_of_board(board, name, thumb)),
    ensures
        accounted(jobs::with_job(m, all, row), file_of_board(board, name, thumb)),
{
    let path = file_of_board(board, name, thumb);
    let after = jobs::with_job(m, all, row);
    let job = jobs::parsed_job(row.job_type, row.payload)->Some_0;
    lemma_managed_as_named(board, name, thumb, Some(job->Media_board), m.boards);
    if !after.global_ambiguity {
        let n = m.records.len() as int;
        if job->Media_source == path {
            assert(after.records[n].path == path);
        } else {
            assert(after.records[n + 1].path == path);
        }
    }
}

proof fn lemma_jobs_account(
    m: ModelView,
    all: Seq<JobRowView>,
    n: nat,
    k: int,
    board: Seq<char>,
    name: Seq<char>,
    thumb: bool,
)
    requires
        0 <= k < n <= all.len(),
        paths::is_shown_name(board),
        paths::is_shown_name(name),
        job_names_file(all[k], file_of_board(board, name, thumb)),
    ensures
        accounted(jobs::with_jobs(m, all, n), file_of_board(board, name, thumb)),
    decreases n,
{
    let before = jobs::with_jobs(m, all, (n - 1) as nat);
    if k == n - 1 {
        lemma_job_accounts(before, all, all[k], board, name, thumb);
    } else {
        lemma_jobs_account(m, all, (n - 1) as nat, k, board, name, thumb);
        assert(grows(before, jobs::with_job(before, all, all[n - 1])));
        lemma_accounted_grows(
            before,
            jobs::with_jobs(m, all, n),
            file_of_board(board, name, thumb),
        );
    }
}

/// Whether the intent deletes the path's file, prunes it, or moves it into place.
pub open spec fn intent_names_file(row: IntentRowView, path: Seq<char>) -> bool {
    match row.body {
        IntentView::DeleteFiles { paths, .. } => paths.contains(path),
        IntentView::OriginalPrune { paths, .. } => exists|i: int|
            0 <= i < paths.len() && (#[trigger] paths[i]).path == path,
        IntentView::UploadFinalize(upload) => upload.relative_paths.contains(path)
            || upload.optional_paths.contains(path),
        _ => false,
    }
}

proof fn lemma_delete_paths_account(
    m: ModelView,
    id: Seq<char>,
    list: Seq<Seq<char>>,
    k: int,
    board: Seq<char>,
    name: Seq<char>,
    thumb: bool,
)
    requires
        0 <= k < list.len(),
        paths::is_shown_name(board),
        paths::is_shown_name(name),
        list[k] == file_of_board(board, name, thumb),
        intents::with_delete_paths(m, id, list).error is None,
    ensures
        accounted(
            intents::with_delete_paths(m, id, list).model,
            file_of_board(board, name, thumb),
        ),
    decreases list.len(),
{
    let path = file_of_board(board, name, thumb);
    let before = intents::with_delete_paths(m, id, list.drop_last()).model;
    let after = intents::with_delete_paths(m, id, list).model;
    if k == list.len() - 1 {
        lemma_managed_as_named(board, name, thumb, None, before.boards);
        assert(after.records[before.records.len() as int].path == path);
    } else {
        assert(list.drop_last()[k] == list[k]);
        lemma_delete_paths_account(m, id, list.drop_last(), k, board, name, thumb);
        assert(grows(before, after));
        lemma_accounted_grows(before, after, path);
    }
}

proof fn lemma_prune_paths_account(
    m: ModelView,
    id: Seq<char>,
    list: Seq<crate::media::prune::CandidatePathView>,
    protected: Seq<Seq<char>>,
    k: int,
    board: Seq<char>,
    name: Seq<char>,
    thumb: bool,
)
    requires
        0 <= k < list.len(),
        paths::is_shown_name(board),
        paths::is_shown_name(name),
        list[k].path == file_of_board(board, name, thumb),
        intents::with_prune_paths(m, id, list, protected).error is None,
    ensures
        accounted(
            intents::with_prune_paths(m, id, list, protected).model,
            file_of_board(board, name, thumb),
        ),
    decreases list.len(),
{
    let path = file_of_board(board, name, thumb);
    let before = intents::with_prune_paths(m, id, list.drop_last(), protected).model;
    let after = intents::with_prune_paths(m, id, list, protected).model;
    if k == list.len() - 1 {
        lemma_managed_as_named(board, name, thumb, Some(list[k].board_short), before.boards);
        assert(after.records[before.records.len() as int].path == path);
    } else {
        assert(list.drop_last()[k] == list[k]);
        lemma_prune_paths_account(m, id, list.drop_last(), protected, k, board, name, thumb);
        assert(grows(before, after));
        lemma_accounted_grows(before, after, path);
    }
}

proof fn lemma_artifacts_account(
    m: ModelView,
    id: Seq<char>,
    upload: intents::UploadView,
    stage: Seq<char>,
    n: nat,
    k: int,
    board: Seq<char>,
    name: Seq<char>,
    thumb: bool,
)
    requires
        0 <= k < n <= intents::artifact_paths(upload).len(),
        paths::is_shown_name(board),
        paths::is_shown_name(name),
        intents::artifact_paths(upload)[k] == file_of_board(board, name, thumb),
        intents::with_artifacts(m, id, upload, stage, n).error is None,
    ensures
        accounted(
            intents::with_artifacts(m, id, upload, stage, n).model,
            file_of_board(board, name, thumb),
        ),
        accounted(
            intents::with_artifacts(m, id, upload, stage, n).model,
            stage + "/"@ + file_of_board(board, name, thumb),
        ),
    decreases n,
{
    let path = file_of_board(board, name, thumb);
    let staged = stage + "/"@ + path;
    let before = intents::with_artifacts(m, id, upload, stage, (n - 1) as nat).model;
    let after = intents::with_artifacts(m, id, upload, stage, n).model;
    if k == n - 1 {
        lemma_managed_as_named(board, name, thumb, None, before.boards);
        assert(after.records[before.records.len() as int].path == path);
        assert(after.records[before.records.len() as int + 1].path == staged);
    } else {
        lemma_artifacts_account(m, id, upload, stage, (n - 1) as nat, k, board, name, thumb);
        assert(grows(before, after));
        lemma_accounted_grows(before, after, path);
        lemma_accounted_grows(before, after, staged);
    }
}

proof fn lemma_intent_accounts(
    m: ModelView,
    row: IntentRowView,
    board: Seq<char>,
    name: Seq<char>,
    thumb: bool,
)
    requires
        paths::is_shown_name(board),
        paths::is_shown_name(name),
        intent_names_file(row, file_of_board(board, name, thumb)),
    ensures
        accounted(intents::with_intent_row(m, row), file_of_board(board, name, thumb)),
{
    let path = file_of_board(board, name, thumb);
    let after = intents::with_intent(m, row);
    if after.error is None {
        match row.body {
            IntentView::DeleteFiles { paths: list, dirs } => {
                let k = choose|k: int| 0 <= k < list.len() && list[k] == path;
                lemma_delete_paths_account(m, row.id, list, k, board, name, thumb);
                let files = intents::with_delete_paths(m, row.id, list).model;
                lemma_delete_dirs_grow(files, dirs);
                lemma_accounted_grows(files, after.model, path);
            },
            IntentView::OriginalPrune { post_ids, paths: list } => {
                let k = choose|k: int| 0 <= k < list.len() && (#[trigger] list[k]).path == path;
                lemma_prune_paths_account(
                    m,
                    row.id,
                    list,
                    intents::post_owners(post_ids),
                    k,
                    board,
                    name,
                    thumb,
                );
            },
            IntentView::UploadFinalize(upload) => {
                let list = intents::artifact_paths(upload);
                let stage = intents::stage_relative(upload)->Ok_0;
                let k = if upload.relative_paths.contains(path) {
                    choose|k: int|
                        0 <= k < upload.relative_paths.len() && upload.relative_paths[k] == path
                } else {
                    upload.relative_paths.len() + choose|k: int|
                        0 <= k < upload.optional_paths.len() && upload.optional_paths[k] == path
                };
                assert(list[k] == path);
                lemma_artifacts_account(
                    m,
                    row.id,
                    upload,
                    stage,
                    list.len(),
                    k,
                    board,
                    name,
                    thumb,
                );
                lemma_accounted_grows(
                    intents::with_artifacts(m, row.id, upload, stage, list.len()).model,
                    after.model,
                    path,
                );
            },
            _ => {},
        }
    }
}

proof fn lemma_intents_account(
    m: ModelView,
    all: Seq<IntentRowView>,
    k: int,
    board: Seq<char>,
    name: Seq<char>,
    thumb: bool,
)
    requires
        0 <= k < all.len(),
        paths::is_shown_name(board),
        paths::is_shown_name(name),
        intent_names_file(all[k], file_of_board(board, name, thumb)),
    ensures
        accounted(intents::with_intents(m, all), file_of_board(board, name, thumb)),
    decreases all.len(),
{
    let before = intents::with_intents(m, all.drop_last());
    if k == all.len() - 1 {
        lemma_intent_accounts(before, all.last(), board, name, thumb);
    } else {
        assert(all.drop_last()[k] == all[k]);
        lemma_intents_account(m, all.drop_last(), k, board, name, thumb);
        lemma_intent_grows(before, all.last());
        lemma_accounted_grows(
            before,
            intents::with_intents(m, all),
            file_of_board(board, name, thumb),
        );
    }
}

/// Whether a row of the snapshot names the path's file.
pub open spec fn names_file(s: SnapshotView, path: Seq<char>) -> bool {
    ||| exists|k: int| 0 <= k < s.posts.len() && names_live_file(#[trigger] s.posts[k], path)
    ||| exists|k: int|
        0 <= k < s.hashes.len() && ((#[trigger] s.hashes[k]).file_path == path
            || s.hashes[k].thumb_path == path)
    ||| exists|k: int| 0 <= k < s.jobs.len() && job_names_file(#[trigger] s.jobs[k], path)
    ||| exists|k: int|
        0 <= k < s.intents.len() && intent_names_file(#[trigger] s.intents[k], path)
}

proof fn lemma_post_table_accounts(
    m: ModelView,
    all: Seq<PostRowView>,
    limit: usize,
    k: int,
    board: Seq<char>,
    name: Seq<char>,
    thumb: bool,
)
    requires
        0 <= k < all.len(),
        paths::is_shown_name(board),
        paths::is_shown_name(name),
        names_live_file(all[k], file_of_board(board, name, thumb)),
    ensures
        accounted(rows::posts_collected(m, all, limit), file_of_board(board, name, thumb)),
{
    let left = model::rows_left(m, limit);
    let kept = model::kept_rows(all, left);
    let base = model::counted(m, all.len(), left);
    lemma_posts_grow(base, kept);
    if left > 0 && k < left {
        assert(kept[k] == all[k]);
        lemma_posts_account(base, kept, k, board, name, thumb);
    }
}

proof fn lemma_hash_table_accounts(
    m: ModelView,
    all: Seq<HashRowView>,
    limit: usize,
    k: int,
    board: Seq<char>,
    name: Seq<char>,
    thumb: bool,
)
    requires
        0 <= k < all.len(),
        paths::is_shown_name(board),
        paths::is_shown_name(name),
        all[k].file_path == file_of_board(board, name, thumb) || all[k].thumb_path
            == file_of_board(board, name, thumb),
    ensures
        accounted(rows::hashes_collected(m, all, limit), file_of_board(board, name, thumb)),
{
    let left = model::rows_left(m, limit);
    let kept = model::kept_rows(all, left);
    let base = model::counted(m, all.len(), left);
    lemma_hashes_grow(base, kept);
    if left > 0 {
        let read = rows::with_hashes(base, kept);
        if k < left {
            assert(kept[k] == all[k]);
            lemma_hashes_account(base, kept, k, board, name, thumb);
        }
        let after = rows::hashes_collected(m, all, limit);
        assert(grows(read, after));
        lemma_accounted_grows(read, after, file_of_board(board, name, thumb));
    }
}

proof fn lemma_job_table_accounts(
    m: ModelView,
    all: Seq<JobRowView>,
    limit: usize,
    k: int,
    board: Seq<char>,
    name: Seq<char>,
    thumb: bool,
)
    requires
        0 <= k < all.len(),
        paths::is_shown_name(board),
        paths::is_shown_name(name),
        job_names_file(all[k], file_of_board(board, name, thumb)),
    ensures
        accounted(jobs::jobs_collected(m, all, limit), file_of_board(board, name, thumb)),
{
    let left = model::rows_left(m, limit);
    let kept = model::kept_rows(all, left);
    let base = model::counted(m, all.len(), left);
    lemma_jobs_grow(base, kept, kept.len());
    if left > 0 && k < left {
        assert(kept[k] == all[k]);
        lemma_jobs_account(base, kept, kept.len(), k, board, name, thumb);
    }
}

proof fn lemma_intent_table_accounts(
    m: ModelView,
    all: Seq<IntentRowView>,
    limit: usize,
    k: int,
    board: Seq<char>,
    name: Seq<char>,
    thumb: bool,
)
    requires
        0 <= k < all.len(),
        paths::is_shown_name(board),
        paths::is_shown_name(name),
        intent_names_file(all[k], file_of_board(board, name, thumb)),
    ensures
        accounted(intents::intents_collected(m, all, limit), file_of_board(board, name, thumb)),
{
    let left = model::rows_left(m, limit);
    let kept = model::kept_rows(all, left);
    let base = model::counted(m, all.len(), left);
    lemma_intents_grow(base, kept);
    if left > 0 && k < left {
        assert(kept[k] == all[k]);
        lemma_intents_account(base, kept, k, board, name, thumb);
    }
}

proof fn lemma_named_files_are_accounted(
    s: SnapshotView,
    limit: usize,
    board: Seq<char>,
    name: Seq<char>,
    thumb: bool,
)
    requires
        paths::is_shown_name(board),
        paths::is_shown_name(name),
        names_file(s, file_of_board(board, name, thumb)),
    ensures
        accounted(pass::snapshot_model(s, limit), file_of_board(board, name, thumb)),
{
    let path = file_of_board(board, name, thumb);
    let m0 = rows::boards_collected(ModelView::fresh(s.data_version), s.boards, limit);
    let m1 = rows::posts_collected(m0, s.posts, limit);
    let m2 = rows::hashes_collected(m1, s.hashes, limit);
    let m3 = jobs::jobs_collected(m2, s.jobs, limit);
    let m4 = intents::intents_collected(m3, s.intents, limit);
    assert(grows(m1, m2) && grows(m2, m3) && grows(m3, m4)) by {
        lemma_stages_grow(m1, s, limit);
        lemma_stages_grow(m2, s, limit);
        lemma_stages_grow(m3, s, limit);
    }
    if exists|k: int| 0 <= k < s.posts.len() && names_live_file(#[trigger] s.posts[k], path) {
        let k = choose|k: int|
            0 <= k < s.posts.len() && names_live_file(#[trigger] s.posts[k], path);
        lemma_post_table_accounts(m0, s.posts, limit, k, board, name, thumb);
        lemma_accounted_grows(m1, m2, path);
        lemma_accounted_grows(m2, m3, path);
        lemma_accounted_grows(m3, m4, path);
    } else if exists|k: int|
        0 <= k < s.hashes.len() && ((#[trigger] s.hashes[k]).file_path == path
            || s.hashes[k].thumb_path == path) {
        let k = choose|k: int|
            0 <= k < s.hashes.len() && ((#[trigger] s.hashes[k]).file_path == path
                || s.hashes[k].thumb_path == path);
        lemma_hash_table_accounts(m1, s.hashes, limit, k, board, name, thumb);
        lemma_accounted_grows(m2, m3, path);
        lemma_accounted_grows(m3, m4, path);
    } else if exists|k: int| 0 <= k < s.jobs.len() && job_names_file(#[trigger] s.jobs[k], path) {
        let k = choose|k: int| 0 <= k < s.jobs.len() && job_names_file(#[trigger] s.jobs[k], path);
        lemma_job_table_accounts(m2, s.jobs, limit, k, board, name, thumb);
        lemma_accounted_grows(m3, m4, path);
    } else {
        let k = choose|k: int|
            0 <= k < s.intents.len() && intent_names_file(#[trigger] s.intents[k], path);
        lemma_intent_table_accounts(m3, s.intents, limit, k, board, name, thumb);
    }
}

proof fn lemma_audits_keep_references(
    s: audit::AuditState,
    seen: Seq<ObservationView>,
    n: nat,
    limit: usize,
)
    ensures
        ({
            let after = audit::with_references(s, seen, n, limit);
            &&& after.model.records == s.model.records
            &&& after.model.global_ambiguity == s.model.global_ambiguity
            &&& after.model.incomplete == s.model.incomplete
            &&& after.model.boards == s.model.boards
            &&& after.model.scheduled_boards == s.model.scheduled_boards
            &&& after.model.case_conflict_boards == s.model.case_conflict_boards
        }),
    decreases n,
{
    if n > 0 {
        lemma_audits_keep_references(s, seen, (n - 1) as nat, limit);
    }
}

proof fn lemma_reference_is_required(records: Seq<RecordView>, path: Seq<char>, i: int)
    requires
        0 <= i < records.len(),
        records[i].path == path,
        records[i].role is Active || records[i].role is Temporary || records[i].role is Metadata,
    ensures
        model::required_on(records, path).len() > 0,
    decreases records.len(),
{
    if i < records.len() - 1 {
        assert(records.drop_last()[i] == records[i]);
        lemma_reference_is_required(records.drop_last(), path, i);
    }
}

/// A file that any row of the database names is never taken for an orphan: neither the
/// file, the audio or the thumbnail of a post, other than the pruned originals, nor what a
/// digest row, a job or an intent names, whatever else the rows hold, however many rows
/// were read, and whatever the filesystem showed.
pub proof fn law_named_files_are_no_orphans(
    s: SnapshotView,
    limit: usize,
    board: Seq<char>,
    name: Seq<char>,
    thumb: bool,
    scan_id: Seq<char>,
    started_at: i64,
    mode: ReconcileMode,
    limits: ReconcileLimits,
    seen: Seq<ObservationView>,
    deletions: Seq<Option<DeletionView>>,
    page: Result<PageView, Seq<char>>,
    entries: Seq<EntrySeen>,
    final_version: i64,
)
    requires
        paths::is_shown_name(board),
        paths::is_shown_name(name),
        names_file(s, file_of_board(board, name, thumb)),
    ensures
        ({
            let e = run::examined(
                scan_id,
                started_at,
                pass::snapshot_model(s, limit),
                mode,
                limits,
                seen,
                deletions,
                page,
                entries,
                final_version,
            );
            forall|i: int|
                0 <= i < e.orphans.len() ==> (#[trigger] e.orphans[i]).relative != file_of_board(
                    board,
                    name,
                    thumb,
                )
        }),
{
    let path = file_of_board(board, name, thumb);
    let m = pass::snapshot_model(s, limit);
    lemma_named_files_are_accounted(s, limit, board, name, thumb);
    run::law_found_orphans_are_unclaimed(
        scan_id,
        started_at,
        m,
        mode,
        limits,
        seen,
        deletions,
        page,
        entries,
        final_version,
    );
    let e = run::examined(
        scan_id,
        started_at,
        m,
        mode,
        limits,
        seen,
        deletions,
        page,
        entries,
        final_version,
    );
    let kept = limits.within();
    let shown = audit::AuditState {
        model: m,
        report: audit::with_findings(
            pass::opened(scan_id, started_at, m, kept.examples_per_pass),
            m.findings,
            kept.examples_per_pass,
        ),
        remaining: kept.hash_bytes_per_pass,
    };
    lemma_audits_keep_references(shown, seen, m.records.len(), kept.examples_per_pass);
    assert(e.model.records == m.records);
    assert forall|i: int| 0 <= i < e.orphans.len() implies (#[trigger] e.orphans[i]).relative
        != path by {
        if e.orphans[i].relative == path {
            let k = choose|k: int|
                0 <= k < m.records.len() && (#[trigger] m.records[k]).path == path
                    && !(m.records[k].role is TerminalMissing);
            if m.records[k].role is ScheduledDeletion {
                assert(model::scheduled_on(e.model.records, path));
            } else {
                lemma_reference_is_required(m.records, path, k);
            }
            assert(false);
        }
    }
}

} // verus!
