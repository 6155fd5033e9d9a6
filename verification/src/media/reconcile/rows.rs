//! Reading board, post and digest rows into the snapshot.

use vstd::prelude::*;
use vstd::string::*;
use crate::numbers;
use crate::numbers::numbered;
use crate::text;
use crate::text::{
    blank, chars_of, clone_opt, concat, insert_once, split_at_char, starts_with, str_eq,
    take_bytes, to_ascii_lowercase,
};
use super::model;
use super::model::{
    count_rows, is_valid_board_short, parse_managed_path, redacted_identifier, remaining_rows,
    AuditFinding, FindingView, HashCandidateView, HashRepairCandidate, MediaState, ModelView,
    PostMediaState, PostView, RecordView, ReferenceModel, ReferenceRecord, ReferenceRole,
    ReferenceSource,
};
use super::report::{AuditClassification, MediaCategory};

verus! {

/// A row of the board table.
#[derive(Debug, Clone)]
pub struct BoardRow {
    pub id: i64,
    pub short_name: String,
}

/// The model of a board row.
pub struct BoardRowView {
    pub id: i64,
    pub short_name: Seq<char>,
}

impl View for BoardRow {
    type V = BoardRowView;

    open spec fn view(&self) -> BoardRowView {
        BoardRowView { id: self.id, short_name: self.short_name@ }
    }
}

/// The latest valid board among the rows that is spelled the same but for case.
pub open spec fn last_spelling(rows: Seq<BoardRowView>, folded: Seq<char>) -> Option<Seq<char>>
    decreases rows.len(),
{
    if rows.len() == 0 {
        None
    } else if model::valid_board(rows.last().short_name) && text::lower(rows.last().short_name)
        == folded {
        Some(rows.last().short_name)
    } else {
        last_spelling(rows.drop_last(), folded)
    }
}

/// The snapshot after one board row, given the rows before it.
pub open spec fn with_board(m: ModelView, earlier: Seq<BoardRowView>, row: BoardRowView) -> ModelView {
    if !model::valid_board(row.short_name) {
        m.ambiguous().with_finding(
            FindingView {
                classification: AuditClassification::CrossBoardMetadata,
                category: MediaCategory::Unknown,
                board: None,
                managed_id: model::redacted(row.short_name),
                owner: Some("board:"@ + numbers::int_text(row.id as int)),
            },
        )
    } else {
        let other = last_spelling(earlier, text::lower(row.short_name));
        let m1 = if other is Some && other->Some_0 != row.short_name {
            ModelView {
                case_conflict_boards: text::inserted(
                    text::inserted(m.case_conflict_boards, other->Some_0),
                    row.short_name,
                ),
                global_ambiguity: true,
                ..m
            }
        } else {
            m
        };
        ModelView {
            boards_by_id: m1.boards_by_id.insert(row.id, row.short_name),
            boards: text::inserted(m1.boards, row.short_name),
            ..m1
        }
    }
}

/// The snapshot after all the board rows.
pub open spec fn with_boards(m: ModelView, rows: Seq<BoardRowView>) -> ModelView
    decreases rows.len(),
{
    if rows.len() == 0 {
        m
    } else {
        with_board(with_boards(m, rows.drop_last()), rows.drop_last(), rows.last())
    }
}

/// The snapshot after the board table.
pub open spec fn boards_collected(m: ModelView, rows: Seq<BoardRowView>, limit: usize) -> ModelView {
    let left = model::rows_left(m, limit);
    if left == 0 {
        m.truncated()
    } else {
        with_boards(model::counted(m, rows.len(), left), model::kept_rows(rows, left))
    }
}

/// The latest valid board among the first rows that is spelled the same but for
/// case.
fn find_last_spelling(rows: &Vec<BoardRow>, count: usize, folded: &str) -> (r: Option<String>)
    requires
        count <= rows@.len(),
    ensures
        text::opt_view(r) == last_spelling(text::views(rows@).take(count as int), folded@),
{
    broadcast use text::group_views;

    let ghost all = text::views(rows@);
    let mut n: usize = count;
    while n > 0
        invariant
            n <= count <= rows@.len(),
            all == text::views(rows@),
            last_spelling(all.take(count as int), folded@) == last_spelling(
                all.take(n as int),
                folded@,
            ),
        decreases n,
    {
        let row = &rows[n - 1];
        assert(all.take(n as int).last() == row@);
        assert(all.take(n as int).drop_last() =~= all.take(n as int - 1));
        if is_valid_board_short(row.short_name.as_str()) {
            let spelled = to_ascii_lowercase(row.short_name.as_str());
            if str_eq(spelled.as_str(), folded) {
                return Some(row.short_name.clone());
            }
        }
        n = n - 1;
    }
    None
}

fn add_board(m: &mut ReferenceModel, id: i64, board: &String)
    ensures
        final(m)@ == (ModelView {
            boards_by_id: old(m)@.boards_by_id.insert(id, board@),
            boards: text::inserted(old(m)@.boards, board@),
            ..old(m)@
        }),
{
    broadcast use vstd::std_specs::btree::group_btree_axioms;

    let ghost before = m.boards_by_id@;
    m.boards_by_id.insert(id, board.clone());
    assert(m.boards_by_id@.map_values(|b: String| b@) =~= before.map_values(
        |b: String| b@,
    ).insert(id, board@));
    insert_once(&mut m.boards, board.as_str());
}

/// Reads the board rows into the snapshot.
pub fn collect_boards(m: &mut ReferenceModel, rows: Vec<BoardRow>, row_limit: usize)
    ensures
        final(m)@ == boards_collected(old(m)@, text::views(rows@), row_limit),
{
    broadcast use text::group_views;

    let mut rows = rows;
    let ghost start = m@;
    let ghost given = text::views(rows@);
    let remaining: usize = remaining_rows(m, row_limit);
    if remaining == 0 {
        return ;
    }
    count_rows(m, &mut rows, remaining);
    let ghost base = m@;
    let ghost all = text::views(rows@);
    assert(all =~= model::kept_rows(given, remaining as nat));
    let mut i: usize = 0;
    assert(all.take(0) =~= Seq::<BoardRowView>::empty());
    while i < rows.len()
        invariant
            i <= rows@.len(),
            all == text::views(rows@),
            m@ == with_boards(base, all.take(i as int)),
        decreases rows@.len() - i,
    {
        broadcast use text::group_views;

        let row = &rows[i];
        assert(all.take(i as int + 1).drop_last() =~= all.take(i as int));
        assert(all.take(i as int + 1).last() == row@);
        if !is_valid_board_short(row.short_name.as_str()) {
            m.mark_ambiguous();
            m.add_finding(
                AuditFinding {
                    classification: AuditClassification::CrossBoardMetadata,
                    category: MediaCategory::Unknown,
                    board: None,
                    managed_id: redacted_identifier(row.short_name.as_str()),
                    owner: Some(numbered("board:", row.id)),
                },
            );
        } else {
            let folded = to_ascii_lowercase(row.short_name.as_str());
            if let Some(other) = find_last_spelling(&rows, i, folded.as_str()) {
                if !str_eq(other.as_str(), row.short_name.as_str()) {
                    insert_once(&mut m.case_conflict_boards, other.as_str());
                    insert_once(&mut m.case_conflict_boards, row.short_name.as_str());
                    m.mark_ambiguous();
                }
            }
            add_board(m, row.id, &row.short_name);
        }
        i = i + 1;
    }
    assert(all.take(all.len() as int) =~= all);
}

/// The references that mark a path as belonging to another board, or the
/// ambiguity where the path is not managed at all.
pub open spec fn marked(
    m: ModelView,
    raw_path: Seq<char>,
    expected: Option<Seq<char>>,
    owner: Seq<char>,
    category: MediaCategory,
) -> ModelView {
    match model::managed_path(raw_path, None, m.boards) {
        Some(path) => m.with_record(
            RecordView {
                source: ReferenceSource::Post,
                path: path.relative,
                board: Some(path.board),
                category,
                role: ReferenceRole::Temporary,
                owner,
                expected_digest: None,
                recoverable_source: None,
            },
        ).with_finding(
            FindingView {
                classification: AuditClassification::CrossBoardMetadata,
                category,
                board: Some(path.board),
                managed_id: path.relative,
                owner: Some(owner),
            },
        ),
        None => m.ambiguous().with_finding(
            FindingView {
                classification: AuditClassification::UnsafePath,
                category,
                board: expected,
                managed_id: model::redacted(raw_path),
                owner: Some(owner),
            },
        ),
    }
}

/// Marks a path that is not where its row says it should be.
pub fn mark_cross_board_or_malformed(
    m: &mut ReferenceModel,
    raw_path: &str,
    expected_board: Option<&str>,
    owner: String,
    category: MediaCategory,
)
    ensures
        final(m)@ == marked(
            old(m)@,
            raw_path@,
            text::opt_str(expected_board),
            owner@,
            category,
        ),
{
    match parse_managed_path(raw_path, None, &m.boards) {
        Some(path) => {
            m.add_record(
                ReferenceRecord {
                    source: ReferenceSource::Post,
                    path: path.relative.clone(),
                    board: Some(path.board.clone()),
                    category,
                    role: ReferenceRole::Temporary,
                    owner: owner.clone(),
                    expected_digest: None,
                    recoverable_source: None,
                },
            );
            m.add_finding(
                AuditFinding {
                    classification: AuditClassification::CrossBoardMetadata,
                    category,
                    board: Some(path.board),
                    managed_id: path.relative,
                    owner: Some(owner),
                },
            );
        },
        None => {
            m.mark_ambiguous();
            let board = match expected_board {
                Some(board) => Some(board.to_owned()),
                None => None,
            };
            m.add_finding(
                AuditFinding {
                    classification: AuditClassification::UnsafePath,
                    category,
                    board,
                    managed_id: redacted_identifier(raw_path),
                    owner: Some(owner),
                },
            );
        },
    }
}

/// The snapshot with one more path that a post refers to.
pub open spec fn with_post_path(
    m: ModelView,
    post_id: i64,
    board: Seq<char>,
    raw_path: Seq<char>,
    category: MediaCategory,
    role: ReferenceRole,
) -> ModelView {
    let owner = "post:"@ + numbers::int_text(post_id as int);
    match model::managed_path(raw_path, Some(board), m.boards) {
        Some(path) => m.with_record(
            RecordView {
                source: ReferenceSource::Post,
                path: path.relative,
                board: Some(path.board),
                category,
                role,
                owner,
                expected_digest: None,
                recoverable_source: None,
            },
        ),
        None => marked(m, raw_path, Some(board), owner, category),
    }
}

/// Adds a path that a post refers to.
pub fn add_post_path(
    m: &mut ReferenceModel,
    post_id: i64,
    board: &str,
    raw_path: &str,
    category: MediaCategory,
    role: ReferenceRole,
)
    ensures
        final(m)@ == with_post_path(old(m)@, post_id, board@, raw_path@, category, role),
{
    let owner = numbered("post:", post_id);
    match parse_managed_path(raw_path, Some(board), &m.boards) {
        Some(path) => {
            m.add_record(
                ReferenceRecord {
                    source: ReferenceSource::Post,
                    path: path.relative,
                    board: Some(path.board),
                    category,
                    role,
                    owner,
                    expected_digest: None,
                    recoverable_source: None,
                },
            );
        },
        None => {
            mark_cross_board_or_malformed(m, raw_path, Some(board), owner, category);
        },
    }
}

/// A post row, joined with its board.
#[derive(Debug, Clone)]
pub struct PostRow {
    pub id: i64,
    pub board_id: i64,
    pub board: String,
    pub file_path: Option<String>,
    pub thumb_path: Option<String>,
    pub audio_file_path: Option<String>,
    pub mime_type: String,
    pub media_state: MediaState,
}

/// The model of a post row.
pub struct PostRowView {
    pub id: i64,
    pub board_id: i64,
    pub board: Seq<char>,
    pub file_path: Option<Seq<char>>,
    pub thumb_path: Option<Seq<char>>,
    pub audio_file_path: Option<Seq<char>>,
    pub mime_type: Seq<char>,
    pub media_state: MediaState,
}

impl View for PostRow {
    type V = PostRowView;

    open spec fn view(&self) -> PostRowView {
        PostRowView {
            id: self.id,
            board_id: self.board_id,
            board: self.board@,
            file_path: text::opt_view(self.file_path),
            thumb_path: text::opt_view(self.thumb_path),
            audio_file_path: text::opt_view(self.audio_file_path),
            mime_type: self.mime_type@,
            media_state: self.media_state,
        }
    }
}

/// The role of a post's primary original.
pub open spec fn primary_role(state: MediaState) -> ReferenceRole {
    match state {
        MediaState::Pruned => ReferenceRole::TerminalMissing,
        MediaState::ProcessingPending => ReferenceRole::Temporary,
        MediaState::PrunePending => ReferenceRole::Temporary,
        MediaState::Settled => ReferenceRole::Active,
    }
}

/// The role of a post's secondary audio original.
pub open spec fn audio_role(state: MediaState) -> ReferenceRole {
    match state {
        MediaState::Pruned => ReferenceRole::TerminalMissing,
        _ => ReferenceRole::Active,
    }
}

/// The category of a post's thumbnail: audio has a waveform.
pub open spec fn thumb_category(mime: Seq<char>) -> MediaCategory {
    if text::begins(mime, "audio/"@) {
        MediaCategory::Waveform
    } else {
        MediaCategory::Thumbnail
    }
}

/// The snapshot with one more path of a post, where the post has it.
pub open spec fn with_optional_path(
    m: ModelView,
    row: PostRowView,
    path: Option<Seq<char>>,
    category: MediaCategory,
    role: ReferenceRole,
) -> ModelView {
    match path {
        Some(path) => with_post_path(m, row.id, row.board, path, category, role),
        None => m,
    }
}

/// The snapshot after one post row.
pub open spec fn with_post(m: ModelView, row: PostRowView) -> ModelView {
    let known = m.boards_by_id.dom().contains(row.board_id) && m.boards_by_id[row.board_id]
        == row.board;
    let m1 = ModelView {
        global_ambiguity: m.global_ambiguity || !known,
        posts: m.posts.insert(
            row.id,
            PostView {
                board: row.board,
                file_path: row.file_path,
                media_state: row.media_state,
            },
        ),
        ..m
    };
    let m2 = with_optional_path(
        m1,
        row,
        row.file_path,
        MediaCategory::Original,
        primary_role(row.media_state),
    );
    let m3 = with_optional_path(
        m2,
        row,
        row.audio_file_path,
        MediaCategory::Original,
        audio_role(row.media_state),
    );
    with_optional_path(
        m3,
        row,
        row.thumb_path,
        thumb_category(row.mime_type),
        ReferenceRole::Active,
    )
}

/// The snapshot after all the post rows.
pub open spec fn with_posts(m: ModelView, rows: Seq<PostRowView>) -> ModelView
    decreases rows.len(),
{
    if rows.len() == 0 {
        m
    } else {
        with_post(with_posts(m, rows.drop_last()), rows.last())
    }
}

/// The snapshot after the post table.
pub open spec fn posts_collected(m: ModelView, rows: Seq<PostRowView>, limit: usize) -> ModelView {
    let left = model::rows_left(m, limit);
    if left == 0 {
        m.truncated()
    } else {
        with_posts(model::counted(m, rows.len(), left), model::kept_rows(rows, left))
    }
}

fn add_post(m: &mut ReferenceModel, row: &PostRow)
    ensures
        final(m)@ == (ModelView {
            posts: old(m)@.posts.insert(
                row.id,
                PostView {
                    board: row@.board,
                    file_path: row@.file_path,
                    media_state: row.media_state,
                },
            ),
            ..old(m)@
        }),
{
    broadcast use vstd::std_specs::btree::group_btree_axioms;

    let ghost before = m.posts@;
    let post = PostMediaState {
        board: row.board.clone(),
        file_path: clone_opt(&row.file_path),
        media_state: row.media_state,
    };
    let ghost view = post@;
    m.posts.insert(row.id, post);
    assert(m.posts@.map_values(|p: PostMediaState| p@) =~= before.map_values(
        |p: PostMediaState| p@,
    ).insert(row.id, view));
}

fn board_is_known(m: &ReferenceModel, id: i64, board: &str) -> (r: bool)
    ensures
        r == (m@.boards_by_id.dom().contains(id) && m@.boards_by_id[id] == board@),
{
    broadcast use vstd::std_specs::btree::group_btree_axioms;

    match m.boards_by_id.get(&id) {
        Some(known) => str_eq(known.as_str(), board),
        None => false,
    }
}

fn collect_post(m: &mut ReferenceModel, row: &PostRow)
    ensures
        final(m)@ == with_post(old(m)@, row@),
{
    if !board_is_known(m, row.board_id, row.board.as_str()) {
        m.mark_ambiguous();
    }
    add_post(m, row);
    let board = row.board.as_str();
    if let Some(path) = &row.file_path {
        let role = match row.media_state {
            MediaState::Pruned => ReferenceRole::TerminalMissing,
            MediaState::ProcessingPending | MediaState::PrunePending => ReferenceRole::Temporary,
            MediaState::Settled => ReferenceRole::Active,
        };
        add_post_path(m, row.id, board, path.as_str(), MediaCategory::Original, role);
    }
    if let Some(path) = &row.audio_file_path {
        let role = match row.media_state {
            MediaState::Pruned => ReferenceRole::TerminalMissing,
            _ => ReferenceRole::Active,
        };
        add_post_path(m, row.id, board, path.as_str(), MediaCategory::Original, role);
    }
    if let Some(path) = &row.thumb_path {
        let category = if starts_with(row.mime_type.as_str(), "audio/") {
            MediaCategory::Waveform
        } else {
            MediaCategory::Thumbnail
        };
        add_post_path(m, row.id, board, path.as_str(), category, ReferenceRole::Active);
    }
}

/// Reads the post rows into the snapshot.
pub fn collect_posts(m: &mut ReferenceModel, rows: Vec<PostRow>, row_limit: usize)
    ensures
        final(m)@ == posts_collected(old(m)@, text::views(rows@), row_limit),
{
    broadcast use text::group_views;

    let mut rows = rows;
    let ghost given = text::views(rows@);
    let remaining: usize = remaining_rows(m, row_limit);
    if remaining == 0 {
        return ;
    }
    count_rows(m, &mut rows, remaining);
    let ghost base = m@;
    let ghost all = text::views(rows@);
    assert(all =~= model::kept_rows(given, remaining as nat));
    let mut i: usize = 0;
    assert(all.take(0) =~= Seq::<PostRowView>::empty());
    while i < rows.len()
        invariant
            i <= rows@.len(),
            all == text::views(rows@),
            m@ == with_posts(base, all.take(i as int)),
        decreases rows@.len() - i,
    {
        assert(all.take(i as int + 1).drop_last() =~= all.take(i as int));
        assert(all.take(i as int + 1).last() == rows@[i as int]@);
        collect_post(m, &rows[i]);
        i = i + 1;
    }
    assert(all.take(all.len() as int) =~= all);
}

/// A row of the digest table.
#[derive(Debug, Clone)]
pub struct HashRow {
    pub sha256: String,
    pub file_path: String,
    pub thumb_path: String,
    pub mime_type: String,
}

/// The model of a digest row.
pub struct HashRowView {
    pub sha256: Seq<char>,
    pub file_path: Seq<char>,
    pub thumb_path: Seq<char>,
    pub mime_type: Seq<char>,
}

impl View for HashRow {
    type V = HashRowView;

    open spec fn view(&self) -> HashRowView {
        HashRowView {
            sha256: self.sha256@,
            file_path: self.file_path@,
            thumb_path: self.thumb_path@,
            mime_type: self.mime_type@,
        }
    }
}

/// Whether the text is a SHA-256 digest in hexadecimal.
pub open spec fn valid_digest(digest: Seq<char>) -> bool {
    digest.len() == 64 && forall|i: int|
        0 <= i < digest.len() ==> text::is_hex_digit(#[trigger] digest[i])
}

/// Whether the text is a SHA-256 digest in hexadecimal.
pub fn is_valid_digest(digest: &str) -> (r: bool)
    ensures
        r == valid_digest(digest@),
{
    let a = chars_of(digest);
    if a.len() != 64 {
        return false;
    }
    let mut i: usize = 0;
    while i < a.len()
        invariant
            i <= a@.len(),
            a@ == digest@,
            forall|j: int| 0 <= j < i ==> text::is_hex_digit(#[trigger] digest@[j]),
        decreases a@.len() - i,
    {
        let c = a[i];
        if !(('0' <= c && c <= '9') || ('a' <= c && c <= 'f') || ('A' <= c && c <= 'F')) {
            assert(!text::is_hex_digit(digest@[i as int]));
            return false;
        }
        i = i + 1;
    }
    true
}

/// The owner under which a digest row is shown.
pub open spec fn hash_owner(digest: Seq<char>) -> Seq<char> {
    "hash:"@ + text::byte_prefix(digest, 12)
}

/// The snapshot after the thumbnail path of a digest row.
pub open spec fn with_hash_thumb(
    m: ModelView,
    thumb_path: Seq<char>,
    board: Seq<char>,
    owner: Seq<char>,
) -> ModelView {
    if text::is_blank(thumb_path) {
        m
    } else {
        match model::managed_path(thumb_path, Some(board), m.boards) {
            Some(thumb) => m.with_record(
                RecordView {
                    source: ReferenceSource::Hash,
                    path: thumb.relative,
                    board: Some(thumb.board),
                    category: MediaCategory::Thumbnail,
                    role: ReferenceRole::Metadata,
                    owner,
                    expected_digest: None,
                    recoverable_source: None,
                },
            ),
            None => marked(m, thumb_path, Some(board), owner, MediaCategory::Thumbnail),
        }
    }
}

/// The snapshot after one digest row.
pub open spec fn with_hash(m: ModelView, row: HashRowView) -> ModelView {
    let owner = hash_owner(row.sha256);
    if !valid_digest(row.sha256) {
        m.ambiguous().with_finding(
            FindingView {
                classification: AuditClassification::DigestConflict,
                category: MediaCategory::Original,
                board: None,
                managed_id: model::redacted(row.file_path),
                owner: Some(owner),
            },
        )
    } else {
        match model::managed_path(row.file_path, None, m.boards) {
            None => marked(m, row.file_path, None, owner, MediaCategory::Original),
            Some(file) => {
                let m1 = m.with_record(
                    RecordView {
                        source: ReferenceSource::Hash,
                        path: file.relative,
                        board: Some(file.board),
                        category: MediaCategory::Original,
                        role: ReferenceRole::Metadata,
                        owner,
                        expected_digest: Some(row.sha256),
                        recoverable_source: None,
                    },
                );
                let m2 = with_hash_thumb(m1, row.thumb_path, file.board, owner);
                ModelView {
                    hash_candidates: m2.hash_candidates.push(
                        HashCandidateView {
                            digest: row.sha256,
                            file_path: file.relative,
                            thumb_path: row.thumb_path,
                            mime_type: row.mime_type,
                            classification: AuditClassification::Healthy,
                        },
                    ),
                    ..m2
                }
            },
        }
    }
}

/// The snapshot after all the digest rows, conflicts aside.
pub open spec fn with_hashes(m: ModelView, rows: Seq<HashRowView>) -> ModelView
    decreases rows.len(),
{
    if rows.len() == 0 {
        m
    } else {
        with_hash(with_hashes(m, rows.drop_last()), rows.last())
    }
}

/// A managed path with a digest that a row gives it.
pub struct DigestEntry {
    pub path: Seq<char>,
    pub digest: Seq<char>,
}

/// The path and digest that a row pairs, where both can be trusted.
pub open spec fn digest_entry(boards: Seq<Seq<char>>, row: HashRowView) -> Option<DigestEntry> {
    match model::managed_path(row.file_path, None, boards) {
        Some(file) => if valid_digest(row.sha256) {
            Some(DigestEntry { path: file.relative, digest: row.sha256 })
        } else {
            None
        },
        None => None,
    }
}

/// Whether the rows give the path a digest other than this one.
pub open spec fn has_other_digest(
    boards: Seq<Seq<char>>,
    rows: Seq<HashRowView>,
    path: Seq<char>,
    digest: Seq<char>,
) -> bool {
    exists|i: int|
        0 <= i < rows.len() && match digest_entry(boards, #[trigger] rows[i]) {
            Some(entry) => entry.path == path && entry.digest != digest,
            None => false,
        }
}

/// The paths to which the rows give more than one digest, in order.
pub open spec fn conflicting_paths(boards: Seq<Seq<char>>, rows: Seq<HashRowView>) -> Seq<Seq<char>>
    decreases rows.len(),
{
    if rows.len() == 0 {
        Seq::empty()
    } else {
        let before = conflicting_paths(boards, rows.drop_last());
        match digest_entry(boards, rows.last()) {
            Some(entry) => if has_other_digest(boards, rows.drop_last(), entry.path, entry.digest) {
                text::placed(before, entry.path)
            } else {
                before
            },
            None => before,
        }
    }
}

/// The finding that reports a path with more than one digest.
pub open spec fn conflict_finding(path: Seq<char>) -> FindingView {
    FindingView {
        classification: AuditClassification::ConflictingHashMetadata,
        category: MediaCategory::Original,
        board: Some(text::split(path, '/')[0]),
        managed_id: path,
        owner: Some("file_hashes:conflict"@),
    }
}

/// The snapshot after the conflicting paths have been reported.
pub open spec fn with_conflicts(m: ModelView, conflicts: Seq<Seq<char>>) -> ModelView {
    ModelView {
        global_ambiguity: m.global_ambiguity || conflicts.len() > 0,
        findings: m.findings + conflicts.map_values(|p: Seq<char>| conflict_finding(p)),
        ..m
    }
}

/// The snapshot after the digest table.
pub open spec fn hashes_collected(m: ModelView, rows: Seq<HashRowView>, limit: usize) -> ModelView {
    let left = model::rows_left(m, limit);
    if left == 0 {
        m.truncated()
    } else {
        let kept = model::kept_rows(rows, left);
        with_conflicts(
            with_hashes(model::counted(m, rows.len(), left), kept),
            conflicting_paths(m.boards, kept),
        )
    }
}

/// The paths reported as conflicting are in order, without repetition, and are
/// exactly those to which two rows give different digests.
pub proof fn law_conflicts_are_exact(boards: Seq<Seq<char>>, rows: Seq<HashRowView>)
    ensures
        text::ascending(conflicting_paths(boards, rows)),
        forall|path: Seq<char>| #[trigger]
            conflicting_paths(boards, rows).contains(path) <==> exists|i: int, j: int|
                conflict_at(boards, rows, path, i, j),
    decreases rows.len(),
{
    if rows.len() > 0 {
        let earlier = rows.drop_last();
        law_conflicts_are_exact(boards, earlier);
        let before = conflicting_paths(boards, earlier);
        let now = conflicting_paths(boards, rows);
        if digest_entry(boards, rows.last()) is Some {
            text::lemma_placed(before, digest_entry(boards, rows.last())->Some_0.path);
        }
        assert forall|path: Seq<char>| #[trigger] now.contains(path) <==> exists|i: int, j: int|
            conflict_at(boards, rows, path, i, j) by {
            if now.contains(path) {
                if before.contains(path) {
                    let (i, j) = choose|i: int, j: int| conflict_at(boards, earlier, path, i, j);
                    assert(conflict_at(boards, rows, path, i, j));
                } else {
                    let entry = digest_entry(boards, rows.last())->Some_0;
                    let i = choose|i: int|
                        0 <= i < earlier.len() && match digest_entry(boards, #[trigger] earlier[i]) {
                            Some(e) => e.path == entry.path && e.digest != entry.digest,
                            None => false,
                        };
                    assert(rows[i] == earlier[i]);
                    assert(conflict_at(boards, rows, path, i, rows.len() - 1));
                }
            }
            if exists|i: int, j: int| conflict_at(boards, rows, path, i, j) {
                let (i, j) = choose|i: int, j: int| conflict_at(boards, rows, path, i, j);
                if j < rows.len() - 1 {
                    assert(conflict_at(boards, earlier, path, i, j));
                    assert(before.contains(path));
                } else {
                    assert(earlier[i] == rows[i]);
                    let entry = digest_entry(boards, rows.last())->Some_0;
                    assert(has_other_digest(boards, earlier, entry.path, entry.digest));
                }
            }
        }
    }
}

/// Whether two rows give the path different digests.
pub open spec fn conflict_at(
    boards: Seq<Seq<char>>,
    rows: Seq<HashRowView>,
    path: Seq<char>,
    i: int,
    j: int,
) -> bool {
    &&& 0 <= i < j < rows.len()
    &&& digest_entry(boards, rows[i]) is Some
    &&& digest_entry(boards, rows[j]) is Some
    &&& digest_entry(boards, rows[i])->Some_0.path == path
    &&& digest_entry(boards, rows[j])->Some_0.path == path
    &&& digest_entry(boards, rows[i])->Some_0.digest != digest_entry(
        boards,
        rows[j],
    )->Some_0.digest
}

proof fn lemma_hash_keeps_boards(m: ModelView, row: HashRowView)
    ensures
        with_hash(m, row).boards == m.boards,
{
}

fn add_hash_candidate(m: &mut ReferenceModel, candidate: HashRepairCandidate)
    ensures
        final(m)@ == (ModelView {
            hash_candidates: old(m)@.hash_candidates.push(candidate@),
            ..old(m)@
        }),
{
    broadcast use text::group_views;

    m.hash_candidates.push(candidate);
}

fn collect_hash(m: &mut ReferenceModel, row: &HashRow)
    ensures
        final(m)@ == with_hash(old(m)@, row@),
{
    let short = take_bytes(row.sha256.as_str(), 12);
    let owner = concat("hash:", short.as_str());
    if !is_valid_digest(row.sha256.as_str()) {
        m.mark_ambiguous();
        m.add_finding(
            AuditFinding {
                classification: AuditClassification::DigestConflict,
                category: MediaCategory::Original,
                board: None,
                managed_id: redacted_identifier(row.file_path.as_str()),
                owner: Some(owner),
            },
        );
        return ;
    }
    let file = match parse_managed_path(row.file_path.as_str(), None, &m.boards) {
        Some(file) => file,
        None => {
            mark_cross_board_or_malformed(
                m,
                row.file_path.as_str(),
                None,
                owner,
                MediaCategory::Original,
            );
            return ;
        },
    };
    m.add_record(
        ReferenceRecord {
            source: ReferenceSource::Hash,
            path: file.relative.clone(),
            board: Some(file.board.clone()),
            category: MediaCategory::Original,
            role: ReferenceRole::Metadata,
            owner: owner.clone(),
            expected_digest: Some(row.sha256.clone()),
            recoverable_source: None,
        },
    );
    if !blank(row.thumb_path.as_str()) {
        match parse_managed_path(row.thumb_path.as_str(), Some(file.board.as_str()), &m.boards) {
            Some(thumb) => {
                m.add_record(
                    ReferenceRecord {
                        source: ReferenceSource::Hash,
                        path: thumb.relative,
                        board: Some(thumb.board),
                        category: MediaCategory::Thumbnail,
                        role: ReferenceRole::Metadata,
                        owner: owner.clone(),
                        expected_digest: None,
                        recoverable_source: None,
                    },
                );
            },
            None => {
                mark_cross_board_or_malformed(
                    m,
                    row.thumb_path.as_str(),
                    Some(file.board.as_str()),
                    owner,
                    MediaCategory::Thumbnail,
                );
            },
        }
    }
    add_hash_candidate(
        m,
        HashRepairCandidate {
            digest: row.sha256.clone(),
            file_path: file.relative,
            thumb_path: row.thumb_path.clone(),
            mime_type: row.mime_type.clone(),
            classification: AuditClassification::Healthy,
        },
    );
}

fn differs_earlier(rows: &Vec<HashRow>, count: usize, boards: &Vec<String>, path: &str, digest: &str) -> (r:
    bool)
    requires
        count <= rows@.len(),
    ensures
        r == has_other_digest(
            text::views(boards@),
            text::views(rows@).take(count as int),
            path@,
            digest@,
        ),
{
    let ghost known = text::views(boards@);
    let ghost some = text::views(rows@).take(count as int);
    let mut i: usize = 0;
    while i < count
        invariant
            i <= count <= rows@.len(),
            known == text::views(boards@),
            some == text::views(rows@).take(count as int),
            forall|j: int|
                0 <= j < i ==> match digest_entry(known, #[trigger] some[j]) {
                    Some(entry) => !(entry.path == path@ && entry.digest != digest@),
                    None => true,
                },
        decreases count - i,
    {
        let row = &rows[i];
        assert(some[i as int] == row@);
        if is_valid_digest(row.sha256.as_str()) {
            if let Some(file) = parse_managed_path(row.file_path.as_str(), None, boards) {
                if str_eq(file.relative.as_str(), path) && !str_eq(row.sha256.as_str(), digest) {
                    return true;
                }
            }
        }
        i = i + 1;
    }
    false
}

fn find_conflicts(rows: &Vec<HashRow>, boards: &Vec<String>) -> (r: Vec<String>)
    ensures
        text::views(r@) == conflicting_paths(text::views(boards@), text::views(rows@)),
{
    broadcast use text::group_views;

    let ghost known = text::views(boards@);
    let ghost all = text::views(rows@);
    let mut conflicts: Vec<String> = Vec::new();
    let mut i: usize = 0;
    assert(all.take(0) =~= Seq::<HashRowView>::empty());
    while i < rows.len()
        invariant
            i <= rows@.len(),
            known == text::views(boards@),
            all == text::views(rows@),
            text::views(conflicts@) == conflicting_paths(known, all.take(i as int)),
        decreases rows@.len() - i,
    {
        let row = &rows[i];
        assert(all.take(i as int + 1).drop_last() =~= all.take(i as int));
        assert(all.take(i as int + 1).last() == row@);
        if is_valid_digest(row.sha256.as_str()) {
            if let Some(file) = parse_managed_path(row.file_path.as_str(), None, boards) {
                if differs_earlier(rows, i, boards, file.relative.as_str(), row.sha256.as_str()) {
                    text::place(&mut conflicts, file.relative.as_str());
                }
            }
        }
        i = i + 1;
    }
    assert(all.take(all.len() as int) =~= all);
    conflicts
}

fn report_conflicts(m: &mut ReferenceModel, conflicts: &Vec<String>)
    ensures
        final(m)@ == with_conflicts(old(m)@, text::views(conflicts@)),
{
    let ghost start = m@;
    let ghost all = text::views(conflicts@);
    let mut i: usize = 0;
    assert(with_conflicts(start, all.take(0)) =~= start);
    while i < conflicts.len()
        invariant
            i <= conflicts@.len(),
            all == text::views(conflicts@),
            m@ == with_conflicts(start, all.take(i as int)),
        decreases conflicts@.len() - i,
    {
        let path = &conflicts[i];
        let mut pieces = split_at_char(path.as_str(), '/');
        assert(text::views(pieces@)[0] == pieces@[0]@);
        let board = pieces[0].clone();
        m.mark_ambiguous();
        m.add_finding(
            AuditFinding {
                classification: AuditClassification::ConflictingHashMetadata,
                category: MediaCategory::Original,
                board: Some(board),
                managed_id: path.clone(),
                owner: Some("file_hashes:conflict".to_owned()),
            },
        );
        assert(m@ =~= with_conflicts(start, all.take(i as int + 1)));
        i = i + 1;
    }
    assert(all.take(all.len() as int) =~= all);
}

/// Reads the digest rows into the snapshot.
pub fn collect_hashes(m: &mut ReferenceModel, rows: Vec<HashRow>, row_limit: usize)
    ensures
        final(m)@ == hashes_collected(old(m)@, text::views(rows@), row_limit),
{
    broadcast use text::group_views;

    let mut rows = rows;
    let ghost start = m@;
    let ghost given = text::views(rows@);
    let remaining: usize = remaining_rows(m, row_limit);
    if remaining == 0 {
        return ;
    }
    count_rows(m, &mut rows, remaining);
    let ghost base = m@;
    let ghost all = text::views(rows@);
    assert(all =~= model::kept_rows(given, remaining as nat));
    let mut i: usize = 0;
    assert(all.take(0) =~= Seq::<HashRowView>::empty());
    while i < rows.len()
        invariant
            i <= rows@.len(),
            all == text::views(rows@),
            m@ == with_hashes(base, all.take(i as int)),
            m@.boards == start.boards,
        decreases rows@.len() - i,
    {
        assert(all.take(i as int + 1).drop_last() =~= all.take(i as int));
        assert(all.take(i as int + 1).last() == rows@[i as int]@);
        proof {
            lemma_hash_keeps_boards(m@, rows@[i as int]@);
        }
        collect_hash(m, &rows[i]);
        i = i + 1;
    }
    assert(all.take(all.len() as int) =~= all);
    let conflicts = find_conflicts(&rows, &m.boards);
    report_conflicts(m, &conflicts);
}

/// A digest row with a valid digest refers to its file, with that digest, and to its
/// thumbnail on the same board, where it has one, as what describes them; it can be
/// repaired. One with another digest, or without a managed file, makes the snapshot
/// ambiguous and can not.
pub proof fn law_digest_rows_describe_their_files(m: ModelView, row: HashRowView)
    ensures
        ({
            let after = with_hash(m, row);
            let n = m.records.len() as int;
            let valid = row.sha256.len() == 64 && forall|i: int|
                0 <= i < 64 ==> ('0' <= #[trigger] row.sha256[i] <= '9' || 'a' <= row.sha256[i]
                    <= 'f' || 'A' <= row.sha256[i] <= 'F');
            let file = model::managed_path(row.file_path, None, m.boards);
            &&& valid && file is Some ==> {
                let thumb = model::managed_path(
                    row.thumb_path,
                    Some(file->Some_0.board),
                    m.boards,
                );
                &&& after.records.len() > n
                &&& after.records[n].path == file->Some_0.relative
                &&& after.records[n].role is Metadata
                &&& after.records[n].source is Hash
                &&& after.records[n].category is Original
                &&& after.records[n].expected_digest == Some(row.sha256)
                &&& after.records[n].owner.len() >= 5 && after.records[n].owner.take(5)
                    == "hash:"@
                &&& text::is_blank(row.thumb_path) ==> after.records.len() == n + 1
                &&& !text::is_blank(row.thumb_path) && thumb is Some ==> after.records.len() == n
                    + 2 && after.records[n + 1].path == thumb->Some_0.relative
                    && after.records[n + 1].role is Metadata && after.records[n + 1].category
                    is Thumbnail
                &&& after.hash_candidates.len() == m.hash_candidates.len() + 1
                &&& after.hash_candidates.last().digest == row.sha256
                &&& after.hash_candidates.last().file_path == file->Some_0.relative
                &&& after.hash_candidates.last().thumb_path == row.thumb_path
                &&& after.hash_candidates.last().mime_type == row.mime_type
                &&& after.hash_candidates.last().classification is Healthy
            }
            &&& !valid || file is None ==> after.global_ambiguity && after.hash_candidates
                == m.hash_candidates && after.findings.len() == m.findings.len() + 1
            &&& !valid ==> after.records == m.records
                && after.findings.last().classification is DigestConflict
        }),
{
    reveal_strlit("hash:");
    let owner = hash_owner(row.sha256);
    assert(owner.take(5) =~= "hash:"@);
    assert(valid_digest(row.sha256) <==> row.sha256.len() == 64 && forall|i: int|
        0 <= i < 64 ==> ('0' <= #[trigger] row.sha256[i] <= '9' || 'a' <= row.sha256[i] <= 'f'
            || 'A' <= row.sha256[i] <= 'F')) by {
        if valid_digest(row.sha256) {
            assert forall|i: int| 0 <= i < 64 implies ('0' <= #[trigger] row.sha256[i] <= '9'
                || 'a' <= row.sha256[i] <= 'f' || 'A' <= row.sha256[i] <= 'F') by {
                assert(text::is_hex_digit(row.sha256[i]));
            }
        }
    }
}

/// A path that a row gives on a board that is not the row's is taken for work in progress
/// there and noted; one that is not managed makes the snapshot ambiguous.
pub proof fn law_misplaced_paths_are_noted(
    m: ModelView,
    post_id: i64,
    board: Seq<char>,
    raw_path: Seq<char>,
    category: MediaCategory,
    role: ReferenceRole,
)
    requires
        model::managed_path(raw_path, Some(board), m.boards) is None,
    ensures
        ({
            let after = with_post_path(m, post_id, board, raw_path, category, role);
            let elsewhere = model::managed_path(raw_path, None, m.boards);
            &&& after.findings.len() == m.findings.len() + 1
            &&& after.findings.last().owner == Some("post:"@ + numbers::int_text(post_id as int))
            &&& elsewhere is Some ==> {
                &&& after.records.len() == m.records.len() + 1
                &&& after.records.last().path == elsewhere->Some_0.relative
                &&& after.records.last().role is Temporary
                &&& after.findings.last().classification is CrossBoardMetadata
                &&& after.global_ambiguity == m.global_ambiguity
            }
            &&& elsewhere is None ==> {
                &&& after.records == m.records
                &&& after.findings.last().classification is UnsafePath
                &&& after.global_ambiguity
            }
        }),
{
}

/// A post is known with its board, its file and its state; one whose board's row is not
/// known under the same name makes the snapshot ambiguous.
pub proof fn law_posts_are_known(m: ModelView, row: PostRowView)
    ensures
        ({
            let after = with_post(m, row);
            &&& after.posts.dom().contains(row.id)
            &&& after.posts[row.id].board == row.board
            &&& after.posts[row.id].file_path == row.file_path
            &&& after.posts[row.id].media_state == row.media_state
            &&& !(m.boards_by_id.dom().contains(row.board_id) && m.boards_by_id[row.board_id]
                == row.board) ==> after.global_ambiguity
            &&& forall|id: i64|
                id != row.id ==> (after.posts.dom().contains(id) <==> m.posts.dom().contains(id))
                    && (m.posts.dom().contains(id) ==> #[trigger] after.posts[id] == m.posts[id])
            &&& after.boards == m.boards && after.boards_by_id == m.boards_by_id
        }),
{
}

/// A board with a name of one to eight ASCII letters and digits is known under its row; one
/// that is spelled like an earlier one but for case conflicts with it, and makes the
/// snapshot ambiguous, as any other name does.
pub proof fn law_boards_are_known(m: ModelView, earlier: Seq<BoardRowView>, row: BoardRowView)
    ensures
        ({
            let after = with_board(m, earlier, row);
            let valid = 1 <= row.short_name.len() <= 8 && forall|i: int|
                0 <= i < row.short_name.len() ==> ('0' <= #[trigger] row.short_name[i] <= '9'
                    || 'a' <= row.short_name[i] <= 'z' || 'A' <= row.short_name[i] <= 'Z');
            let other = last_spelling(earlier, text::lower(row.short_name));
            &&& valid ==> after.boards.contains(row.short_name)
                && after.boards_by_id.dom().contains(row.id) && after.boards_by_id[row.id]
                == row.short_name
            &&& forall|b: Seq<char>| #[trigger] m.boards.contains(b) ==> after.boards.contains(b)
            &&& !valid ==> after.global_ambiguity && after.boards == m.boards
                && after.findings.last().classification is CrossBoardMetadata
            &&& valid && other is Some && other->Some_0 != row.short_name ==> after.global_ambiguity
                && after.case_conflict_boards.contains(row.short_name)
                && after.case_conflict_boards.contains(other->Some_0)
            &&& valid && (other is None || other->Some_0 == row.short_name)
                ==> after.global_ambiguity == m.global_ambiguity && after.case_conflict_boards
                == m.case_conflict_boards
        }),
{
    let b = row.short_name;
    assert(model::valid_board(b) <==> 1 <= b.len() <= 8 && forall|i: int|
        0 <= i < b.len() ==> ('0' <= #[trigger] b[i] <= '9' || 'a' <= b[i] <= 'z' || 'A' <= b[i]
            <= 'Z')) by {
        if model::valid_board(b) {
            assert forall|i: int| 0 <= i < b.len() implies ('0' <= #[trigger] b[i] <= '9' || 'a'
                <= b[i] <= 'z' || 'A' <= b[i] <= 'Z') by {
                assert(text::is_alphanumeric(b[i]));
            }
        }
    }
    assert forall|list: Seq<Seq<char>>, s: Seq<char>| #[trigger]
        text::inserted(list, s).contains(s) by {
        assert(list.push(s).last() == s);
    }
    assert forall|list: Seq<Seq<char>>, s: Seq<char>, x: Seq<char>|
        list.contains(x) implies #[trigger] text::inserted(list, s).contains(x) by {
        let k = choose|k: int| 0 <= k < list.len() && list[k] == x;
        assert(list.push(s)[k] == x);
    }
}

/// Two boards spelled alike but for case are found: the latest earlier one is the other.
pub proof fn law_latest_spelling_is_found(rows: Seq<BoardRowView>, name: Seq<char>, k: int)
    requires
        0 <= k < rows.len(),
        model::valid_board(rows[k].short_name),
        text::lower(rows[k].short_name) == text::lower(name),
    ensures
        ({
            let found = last_spelling(rows, text::lower(name));
            &&& found is Some
            &&& text::lower(found->Some_0) == text::lower(name)
            &&& (forall|j: int|
                k < j < rows.len() ==> text::lower((#[trigger] rows[j]).short_name) != text::lower(
                    name,
                )) ==> found->Some_0 == rows[k].short_name
        }),
    decreases rows.len(),
{
    if k < rows.len() - 1 {
        let earlier = rows.drop_last();
        assert(earlier[k] == rows[k]);
        law_latest_spelling_is_found(earlier, name, k);
        assert forall|j: int| k < j < earlier.len() implies #[trigger] earlier[j] == rows[j] by {}
        if forall|j: int|
            k < j < rows.len() ==> text::lower((#[trigger] rows[j]).short_name) != text::lower(
                name,
            ) {
            assert(text::lower(rows[rows.len() - 1].short_name) != text::lower(name));
            assert forall|j: int| k < j < earlier.len() implies text::lower(
                (#[trigger] earlier[j]).short_name,
            ) != text::lower(name) by {
                assert(earlier[j] == rows[j]);
            }
        }
    }
}

/// A path to which two rows give different digests is reported, and no other is.
pub proof fn law_paths_with_two_digests_conflict(
    boards: Seq<Seq<char>>,
    rows: Seq<HashRowView>,
    path: Seq<char>,
)
    ensures
        text::ascending(conflicting_paths(boards, rows)),
        conflicting_paths(boards, rows).contains(path) <==> exists|i: int, j: int|
            0 <= i < j < rows.len() && digests_differ(
                boards,
                #[trigger] rows[i],
                #[trigger] rows[j],
                path,
            ),
    decreases rows.len(),
{
    if rows.len() > 0 {
        let earlier = rows.drop_last();
        let last = rows.last();
        let n = earlier.len() as int;
        law_paths_with_two_digests_conflict(boards, earlier, path);
        let before = conflicting_paths(boards, earlier);
        match digest_entry(boards, last) {
            Some(entry) => {
                text::lemma_placed(before, entry.path);
            },
            None => {},
        }
        if conflicting_paths(boards, rows).contains(path) {
            if before.contains(path) {
                let (i, j) = choose|i: int, j: int|
                    0 <= i < j < earlier.len() && digests_differ(
                        boards,
                        #[trigger] earlier[i],
                        #[trigger] earlier[j],
                        path,
                    );
                assert(digests_differ(boards, rows[i], rows[j], path));
            } else {
                let entry = digest_entry(boards, last)->Some_0;
                assert(entry.path == path);
                let i = choose|i: int|
                    0 <= i < earlier.len() && match digest_entry(boards, #[trigger] earlier[i]) {
                        Some(e) => e.path == entry.path && e.digest != entry.digest,
                        None => false,
                    };
                assert(digests_differ(boards, rows[i], rows[n], path));
            }
        }
        if exists|i: int, j: int|
            0 <= i < j < rows.len() && digests_differ(
                boards,
                #[trigger] rows[i],
                #[trigger] rows[j],
                path,
            ) {
            let (i, j) = choose|i: int, j: int|
                0 <= i < j < rows.len() && digests_differ(
                    boards,
                    #[trigger] rows[i],
                    #[trigger] rows[j],
                    path,
                );
            assert(earlier[i] == rows[i]);
            if j < n {
                assert(earlier[j] == rows[j]);
                assert(before.contains(path));
            } else {
                assert(rows[j] == last);
                assert(has_other_digest(boards, earlier, path, digest_entry(boards, last)->Some_0.digest));
            }
        }
    }
}

/// Whether two rows describe the file at one managed path, and give it different digests.
pub open spec fn digests_differ(
    boards: Seq<Seq<char>>,
    a: HashRowView,
    b: HashRowView,
    path: Seq<char>,
) -> bool {
    &&& model::managed_path(a.file_path, None, boards) is Some
    &&& model::managed_path(b.file_path, None, boards) is Some
    &&& model::managed_path(a.file_path, None, boards)->Some_0.relative == path
    &&& model::managed_path(b.file_path, None, boards)->Some_0.relative == path
    &&& valid_digest(a.sha256)
    &&& valid_digest(b.sha256)
    &&& a.sha256 != b.sha256
}

} // verus!
