//! Pruning of post originals down to a size limit.
//!
//! Posts that share an original transition together: no shared file is removed
//! while a post outside the group still needs it.

pub mod groups;
pub mod plan;
pub mod targets;

pub use self::plan::{
    prune_to_limit,
    run_configured_prune,
    OriginalPruneFinalizeReport,
    PruneReport,
};
pub use self::targets::{finalize_original_prune_payload, persist_prune_intent};

use vstd::prelude::*;
use vstd::string::*;
use crate::paths;
use crate::paths::path_names;
use crate::text;
use crate::text::{blank, contains_char, str_eq};

verus! {

/// Durable filesystem-operation kind for original-media pruning.
pub const ORIGINAL_PRUNE_KIND: &'static str = "original_prune";

/// One validated upload-root-relative original-media path.
#[derive(Debug, Clone)]
pub struct CandidatePath {
    /// Upload-root-relative physical path.
    pub path: String,
    /// Board storage namespace that owns the path.
    pub board_short: String,
    /// Size observed while the intent was planned.
    pub size: u64,
}

/// The model of an original-media path.
#[verifier::ext_equal]
pub struct CandidatePathView {
    pub path: Seq<char>,
    pub board_short: Seq<char>,
    pub size: u64,
}

impl View for CandidatePath {
    type V = CandidatePathView;

    open spec fn view(&self) -> CandidatePathView {
        CandidatePathView { path: self.path@, board_short: self.board_short@, size: self.size }
    }
}

/// A copy of an original-media path.
pub fn copy_path(path: &CandidatePath) -> (r: CandidatePath)
    ensures
        r@ == path@,
{
    CandidatePath {
        path: path.path.clone(),
        board_short: path.board_short.clone(),
        size: path.size,
    }
}

/// Whether the path is a relative one in the board's directory that does not go
/// up, use back slashes, or lead to the board's thumbnails.
pub open spec fn original_path(path: Seq<char>, board: Seq<char>) -> bool {
    &&& !text::is_blank(path)
    &&& !paths::is_absolute(path)
    &&& !path.contains('\\')
    &&& match paths::plain_names(path) {
        Some(names) => names.len() > 0 && names[0] == board && !(names.len() > 1 && names[1]
            == "thumbs"@),
        None => false,
    }
}

/// Validates a post original as a board-owned, non-thumbnail relative path.
pub fn validate_post_original_path(path: &str, board_short: &str) -> (r: Option<String>)
    ensures
        match r {
            Some(valid) => original_path(path@, board_short@) && valid@ == path@,
            None => !original_path(path@, board_short@),
        },
{
    let a = text::chars_of(path);
    if blank(path) || contains_char(path, '\\') || (a.len() > 0 && a[0] == '/') {
        return None;
    }
    match path_names(path) {
        Some(names) => {
            let ghost all = text::views(names@);
            if names.len() == 0 {
                return None;
            }
            assert(all[0] == names@[0]@);
            if !str_eq(names[0].as_str(), board_short) {
                return None;
            }
            if names.len() > 1 {
                assert(all[1] == names@[1]@);
                if str_eq(names[1].as_str(), "thumbs") {
                    return None;
                }
            }
            Some(path.to_owned())
        },
        None => None,
    }
}

/// What inspecting an original's file gave.
#[derive(Debug, Clone, Copy, PartialEq, Eq, Structural)]
pub enum FileSize {
    /// A regular file below the upload root, with its size.
    Present(u64),
    /// No file is there.
    Missing,
    /// The path failed the safety inspection.
    Unsafe,
}

/// What looking at a path without following links gave.
#[derive(Debug, Clone, Copy, PartialEq, Eq, Structural)]
pub enum Look {
    /// Nothing is there.
    Missing,
    /// It could not be looked at.
    Unreadable,
    /// A symbolic link.
    Symlink,
    /// A regular file with its size.
    File(u64),
    /// Something else, such as a directory.
    Other,
}

impl Look {
    /// Whether something could be seen there.
    pub open spec fn seen(self) -> bool {
        !(self is Missing || self is Unreadable)
    }
}

/// Whether a symbolic link stands on the way: as far as the parts of the path could be
/// seen, one of them is a link.
pub open spec fn link_on_the_way(looks: Seq<Look>) -> bool {
    exists|i: int|
        0 <= i < looks.len() && #[trigger] looks[i] is Symlink && forall|j: int|
            0 <= j < i ==> (#[trigger] looks[j]).seen()
}

/// What inspecting an original's file gives. `looks` are the looks at the path after
/// each of its parts, `file` the one at the whole path, and `inside` says whether the
/// resolved path lies below the resolved upload root.
pub open spec fn inspected(path: Seq<char>, looks: Seq<Look>, file: Look, inside: bool) -> FileSize {
    if paths::plain_names(path) is None || link_on_the_way(looks) {
        FileSize::Unsafe
    } else {
        match file {
            Look::Missing => FileSize::Missing,
            Look::File(size) => if inside {
                FileSize::Present(size)
            } else {
                FileSize::Unsafe
            },
            _ => FileSize::Unsafe,
        }
    }
}

/// Whether a symbolic link stands on the way.
fn meets_link(looks: &Vec<Look>) -> (r: bool)
    ensures
        r == link_on_the_way(looks@),
{
    let mut i: usize = 0;
    while i < looks.len()
        invariant
            i <= looks@.len(),
            forall|j: int| 0 <= j < i ==> (#[trigger] looks@[j]).seen() && !(looks@[j] is Symlink),
        decreases looks@.len() - i,
    {
        match looks[i] {
            Look::Missing | Look::Unreadable => {
                assert(!looks@[i as int].seen());
                return false;
            },
            Look::Symlink => {
                assert(looks@[i as int] is Symlink);
                return true;
            },
            _ => {},
        }
        i = i + 1;
    }
    false
}

/// Judges what was seen of an original's file: a regular file counts only where no link
/// leads to it and it lies below the upload root.
pub fn safe_file_size(path: &str, looks: &Vec<Look>, file: Look, inside: bool) -> (r: FileSize)
    ensures
        r == inspected(path@, looks@, file, inside),
{
    if path_names(path).is_none() || meets_link(looks) {
        return FileSize::Unsafe;
    }
    match file {
        Look::Missing => FileSize::Missing,
        Look::File(size) => if inside {
            FileSize::Present(size)
        } else {
            FileSize::Unsafe
        },
        _ => FileSize::Unsafe,
    }
}

/// No file that a symbolic link leads to, and none outside the upload root, is taken for
/// an original.
pub proof fn law_links_lead_to_no_original(
    path: Seq<char>,
    looks: Seq<Look>,
    file: Look,
    inside: bool,
)
    requires
        link_on_the_way(looks) || file is Symlink || !inside,
    ensures
        !(inspected(path, looks, file, inside) is Present),
{
}

/// What became of one media path of a post.
#[derive(Debug, Clone)]
pub enum CandidatePathLoad {
    /// The path has a known size.
    Loaded(CandidatePath),
    /// The file is missing and its stored size cannot be used.
    MissingSize,
    /// The path failed validation.
    Unsafe,
}

/// The model of a loaded path.
pub enum LoadView {
    Loaded(CandidatePathView),
    MissingSize,
    Unsafe,
}

impl View for CandidatePathLoad {
    type V = LoadView;

    open spec fn view(&self) -> LoadView {
        match self {
            CandidatePathLoad::Loaded(path) => LoadView::Loaded(path@),
            CandidatePathLoad::MissingSize => LoadView::MissingSize,
            CandidatePathLoad::Unsafe => LoadView::Unsafe,
        }
    }
}

/// What becomes of a media path: its file's size counts, or the stored size
/// where the file is missing.
pub open spec fn loaded_path(
    path: Seq<char>,
    board: Seq<char>,
    file: FileSize,
    db_size: Option<i64>,
) -> LoadView {
    if !original_path(path, board) {
        LoadView::Unsafe
    } else {
        match file {
            FileSize::Present(size) => LoadView::Loaded(
                CandidatePathView { path, board_short: board, size },
            ),
            FileSize::Missing => match db_size {
                Some(size) => if size >= 0 {
                    LoadView::Loaded(
                        CandidatePathView { path, board_short: board, size: size as u64 },
                    )
                } else {
                    LoadView::MissingSize
                },
                None => LoadView::MissingSize,
            },
            FileSize::Unsafe => LoadView::Unsafe,
        }
    }
}

/// Validates one media path of a post.
pub fn candidate_path(path: &str, file: FileSize, db_size: Option<i64>, board_short: &str) -> (r:
    CandidatePathLoad)
    ensures
        r@ == loaded_path(path@, board_short@, file, db_size),
{
    if validate_post_original_path(path, board_short).is_none() {
        return CandidatePathLoad::Unsafe;
    }
    match file {
        FileSize::Present(size) => CandidatePathLoad::Loaded(
            CandidatePath { path: path.to_owned(), board_short: board_short.to_owned(), size },
        ),
        FileSize::Missing => match db_size {
            Some(size) => if size >= 0 {
                CandidatePathLoad::Loaded(
                    CandidatePath {
                        path: path.to_owned(),
                        board_short: board_short.to_owned(),
                        size: size as u64,
                    },
                )
            } else {
                CandidatePathLoad::MissingSize
            },
            None => CandidatePathLoad::MissingSize,
        },
        FileSize::Unsafe => CandidatePathLoad::Unsafe,
    }
}

/// No accepted original is a thumbnail or leaves its board's directory.
pub proof fn law_originals_stay_on_their_board(path: Seq<char>, board: Seq<char>)
    requires
        original_path(path, board),
    ensures
        paths::components(path).len() > 0,
        paths::components(path)[0] == paths::PartView::Normal(board),
        forall|i: int|
            0 <= i < paths::components(path).len() ==> (#[trigger] paths::components(
                path,
            )[i]) is Normal,
        paths::components(path).len() > 1 ==> paths::components(path)[1]
            != paths::PartView::Normal("thumbs"@),
{
    let parts = paths::components(path);
    let names = paths::plain_names(path)->Some_0;
    assert(names[0] == parts[0]->Normal_0);
    if parts.len() > 1 {
        assert(names[1] == parts[1]->Normal_0);
    }
}

/// The posts and originals of one durable pruning intent.
#[derive(Debug, Clone)]
pub struct OriginalPrunePayload {
    /// Posts that must transition together before any shared path is removed.
    pub post_ids: Vec<i64>,
    /// Unique physical originals removed by this intent.
    pub paths: Vec<CandidatePath>,
}

/// Whether no identifier occurs twice.
pub open spec fn distinct_ids(ids: Seq<i64>) -> bool {
    forall|i: int, j: int| 0 <= i < j < ids.len() ==> #[trigger] ids[i] != #[trigger] ids[j]
}

/// Whether no path occurs twice.
pub open spec fn distinct_paths(paths: Seq<CandidatePathView>) -> bool {
    forall|i: int, j: int|
        0 <= i < j < paths.len() ==> (#[trigger] paths[i]).path != (#[trigger] paths[j]).path
}

/// Whether an intent's payload can be replayed: it names posts and originals,
/// each once, and every original is valid.
pub open spec fn valid_payload(post_ids: Seq<i64>, paths: Seq<CandidatePathView>) -> bool {
    &&& post_ids.len() > 0
    &&& paths.len() > 0
    &&& distinct_ids(post_ids)
    &&& distinct_paths(paths)
    &&& forall|i: int|
        0 <= i < paths.len() ==> original_path(
            (#[trigger] paths[i]).path,
            paths[i].board_short,
        )
}

fn ids_are_distinct(ids: &Vec<i64>) -> (r: bool)
    ensures
        r == distinct_ids(ids@),
{
    let mut i: usize = 0;
    while i < ids.len()
        invariant
            i <= ids@.len(),
            forall|a: int, b: int|
                0 <= a < b < ids@.len() && a < i ==> #[trigger] ids@[a] != #[trigger] ids@[b],
        decreases ids@.len() - i,
    {
        let mut j: usize = i + 1;
        while j < ids.len()
            invariant
                i < j <= ids@.len(),
                forall|b: int| i < b < j ==> ids@[i as int] != #[trigger] ids@[b],
            decreases ids@.len() - j,
        {
            if ids[i] == ids[j] {
                return false;
            }
            j = j + 1;
        }
        i = i + 1;
    }
    true
}

fn paths_are_distinct(paths: &Vec<CandidatePath>) -> (r: bool)
    ensures
        r == distinct_paths(text::views(paths@)),
{
    let ghost all = text::views(paths@);
    let mut i: usize = 0;
    while i < paths.len()
        invariant
            i <= paths@.len(),
            all == text::views(paths@),
            forall|a: int, b: int|
                0 <= a < b < all.len() && a < i ==> (#[trigger] all[a]).path != (
                #[trigger] all[b]).path,
        decreases paths@.len() - i,
    {
        let mut j: usize = i + 1;
        while j < paths.len()
            invariant
                i < j <= paths@.len(),
                all == text::views(paths@),
                forall|b: int| i < b < j ==> all[i as int].path != (#[trigger] all[b]).path,
            decreases paths@.len() - j,
        {
            assert(all[i as int] == paths@[i as int]@);
            assert(all[j as int] == paths@[j as int]@);
            if str_eq(paths[i].path.as_str(), paths[j].path.as_str()) {
                return false;
            }
            j = j + 1;
        }
        i = i + 1;
    }
    true
}

/// Rejects malformed, duplicate, cross-root or thumbnail payload paths.
pub fn validate_prune_payload(payload: &OriginalPrunePayload) -> (r: bool)
    ensures
        r == valid_payload(payload.post_ids@, text::views(payload.paths@)),
{
    if payload.post_ids.len() == 0 || payload.paths.len() == 0 {
        return false;
    }
    if !ids_are_distinct(&payload.post_ids) || !paths_are_distinct(&payload.paths) {
        return false;
    }
    let ghost all = text::views(payload.paths@);
    let mut i: usize = 0;
    while i < payload.paths.len()
        invariant
            i <= payload.paths@.len(),
            all == text::views(payload.paths@),
            forall|j: int|
                0 <= j < i ==> original_path((#[trigger] all[j]).path, all[j].board_short),
        decreases payload.paths@.len() - i,
    {
        let path = &payload.paths[i];
        assert(all[i as int] == path@);
        if validate_post_original_path(path.path.as_str(), path.board_short.as_str()).is_none() {
            return false;
        }
        i = i + 1;
    }
    true
}

/// A visible file in a board's own directory is one of its originals, and of no other board;
/// what lies below its `thumbs`, or starts at the root, is not.
pub proof fn law_originals_are_files_of_their_board(
    board: Seq<char>,
    name: Seq<char>,
    other: Seq<char>,
)
    requires
        paths::is_shown_name(board),
        paths::is_shown_name(name),
        !board.contains('\\'),
        !name.contains('\\'),
    ensures
        original_path(board + "/"@ + name, other) <==> other == board && name != "thumbs"@,
        !original_path(board + "/"@ + "thumbs"@ + "/"@ + name, other),
        !original_path("/"@ + board + "/"@ + name, other),
{
    reveal_strlit("/");
    reveal_strlit("thumbs");
    let t = "thumbs"@;
    assert(t.len() == 6 && t[0] == 't' && t[1] == 'h' && t[2] == 'u' && t[3] == 'm' && t[4] == 'b'
        && t[5] == 's');
    assert(!t.contains('/'));
    paths::law_paths_are_made_of_their_names(board, name, name);
    paths::law_paths_are_made_of_their_names(board, t, name);
    let path = board + "/"@ + name;
    assert(path[board.len() as int] == '/');
    assert(!text::is_space('/'));
    assert forall|i: int| 0 <= i < path.len() implies path[i] != '\\' by {
        if i < board.len() {
            assert(board.contains(board[i]));
        } else if i > board.len() {
            assert(name.contains(name[i - board.len() - 1]));
        }
    }
    assert(("/"@ + board + "/"@ + name)[0] == '/');
}

/// An original's size is that of its file; where the file is missing, the one that was
/// stored, unless that is negative or was not; and an unsafe path has none.
pub proof fn law_originals_have_the_size_of_their_file(
    path: Seq<char>,
    board: Seq<char>,
    size: u64,
    stored: Option<i64>,
)
    requires
        original_path(path, board),
    ensures
        loaded_path(path, board, FileSize::Present(size), stored) == LoadView::Loaded(
            CandidatePathView { path, board_short: board, size },
        ),
        stored is Some && stored->Some_0 >= 0 ==> loaded_path(
            path,
            board,
            FileSize::Missing,
            stored,
        ) == LoadView::Loaded(
            CandidatePathView { path, board_short: board, size: stored->Some_0 as u64 },
        ),
        stored is None || stored->Some_0 < 0 ==> loaded_path(
            path,
            board,
            FileSize::Missing,
            stored,
        ) is MissingSize,
        loaded_path(path, board, FileSize::Unsafe, stored) is Unsafe,
{
}

/// A file is there to be removed exactly where its path is plain, no link lies on the way
/// that could be seen, and it is a regular file below the upload root.
pub proof fn law_files_are_present_exactly_when_safe(
    path: Seq<char>,
    looks: Seq<Look>,
    file: Look,
    inside: bool,
)
    requires
        forall|i: int| 0 <= i < looks.len() ==> !((#[trigger] looks[i]) is Missing) && !(
        looks[i] is Unreadable),
    ensures
        ({
            let clear = paths::plain_names(path) is Some && forall|i: int|
                0 <= i < looks.len() ==> !((#[trigger] looks[i]) is Symlink);
            let r = inspected(path, looks, file, inside);
            &&& r is Present <==> clear && file is File && inside
            &&& r is Present ==> r->Present_0 == file->File_0
            &&& r is Missing <==> clear && file is Missing
        }),
{
    if exists|i: int| 0 <= i < looks.len() && (#[trigger] looks[i]) is Symlink {
        let i = choose|i: int| 0 <= i < looks.len() && (#[trigger] looks[i]) is Symlink;
        assert forall|j: int| 0 <= j < i implies (#[trigger] looks[j]).seen() by {}
        assert(link_on_the_way(looks));
    }
}

/// A payload can be carried out exactly where it names posts and originals, none twice, and
/// each original is its board's.
pub proof fn law_payloads_name_each_original_once(
    post_ids: Seq<i64>,
    paths: Seq<CandidatePathView>,
)
    ensures
        valid_payload(post_ids, paths) <==> {
            &&& post_ids.len() > 0 && paths.len() > 0
            &&& post_ids.no_duplicates()
            &&& forall|i: int, j: int|
                0 <= i < paths.len() && 0 <= j < paths.len() && i != j ==> (
                #[trigger] paths[i]).path != (#[trigger] paths[j]).path
            &&& forall|i: int|
                0 <= i < paths.len() ==> original_path(
                    (#[trigger] paths[i]).path,
                    paths[i].board_short,
                )
        },
{
}

} // verus!
