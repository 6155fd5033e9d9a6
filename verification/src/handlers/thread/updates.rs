//! New posts of an open thread, for a page that follows it.

use vstd::prelude::*;
use vstd::string::*;
use crate::handlers::thread::{not_found, AppError, AppErrorView};
use crate::models::{Board, Thread};
use crate::numbers;
use crate::numbers::parse_i64;
use crate::text;
use crate::text::{split_at_char, trim};

verus! {

/// What a page that follows a thread asks for.
#[derive(Debug)]
pub struct UpdatesQuery {
    /// The last post that the page shows.
    pub since: i64,
    /// The posts that the page wants to be shown anew, separated by commas.
    pub refresh: Option<String>,
}

/// The most posts that a page may want to be shown anew.
pub const MAX_REFRESHED_POSTS: usize = 64;

/// The most new posts of one answer.
pub const MAX_NEW_POSTS: i64 = 100;

/// The numbers of posts among the pieces of a text, up to the most that count.
pub open spec fn wanted_posts(pieces: Seq<Seq<char>>) -> Seq<i64>
    decreases pieces.len(),
{
    if pieces.len() == 0 {
        Seq::empty()
    } else {
        let before = wanted_posts(pieces.drop_last());
        match numbers::parsed_i64(text::trimmed(pieces.last())) {
            Some(id) => if id > 0 && before.len() < MAX_REFRESHED_POSTS {
                before.push(id)
            } else {
                before
            },
            None => before,
        }
    }
}

/// The ascending list with one more number in its place, unless it is there.
pub open spec fn with_id(list: Seq<i64>, id: i64) -> Seq<i64>
    decreases list.len(),
{
    if list.len() == 0 {
        seq![id]
    } else if list.last() == id {
        list
    } else if list.last() < id {
        list.push(id)
    } else {
        with_id(list.drop_last(), id).push(list.last())
    }
}

/// The numbers in ascending order, each once.
pub open spec fn sorted_once(ids: Seq<i64>) -> Seq<i64>
    decreases ids.len(),
{
    if ids.len() == 0 {
        Seq::empty()
    } else {
        with_id(sorted_once(ids.drop_last()), ids.last())
    }
}

/// The posts that a page wants to be shown anew.
pub open spec fn refresh_ids(raw: Option<Seq<char>>) -> Seq<i64> {
    match raw {
        Some(list) => sorted_once(wanted_posts(text::split(list, ','))),
        None => Seq::empty(),
    }
}

/// Whether numbers ascend.
pub open spec fn ascends(ids: Seq<i64>) -> bool {
    forall|i: int, j: int| 0 <= i < j < ids.len() ==> (#[trigger] ids[i]) < (#[trigger] ids[j])
}

proof fn lemma_with_id(list: Seq<i64>, id: i64)
    requires
        ascends(list),
    ensures
        ascends(with_id(list, id)),
        with_id(list, id).len() <= list.len() + 1,
        forall|k: i64| #[trigger] with_id(list, id).contains(k) <==> list.contains(k) || k == id,
    decreases list.len(),
{
    let r = with_id(list, id);
    if list.len() == 0 {
        assert(r[0] == id);
    } else if list.last() == id {
        assert(list[list.len() - 1] == id);
    } else if list.last() < id {
        assert forall|k: i64| #[trigger] r.contains(k) <==> list.contains(k) || k == id by {
            if list.contains(k) {
                assert(r[list.index_of(k)] == k);
            }
            assert(r[list.len() as int] == id);
        }
    } else {
        let rest = list.drop_last();
        assert(ascends(rest));
        lemma_with_id(rest, id);
        let inner = with_id(rest, id);
        assert forall|i: int, j: int| 0 <= i < j < r.len() implies (#[trigger] r[i]) < (
        #[trigger] r[j]) by {
            if j == r.len() - 1 {
                assert(inner.contains(inner[i]));
                if inner[i] != id {
                    let k = rest.index_of(inner[i]);
                    assert(list[k] < list[list.len() - 1]);
                }
            } else {
                assert(r[i] == inner[i] && r[j] == inner[j]);
            }
        }
        assert forall|k: i64| #[trigger] r.contains(k) <==> list.contains(k) || k == id by {
            if r.contains(k) {
                let p = r.index_of(k);
                if p < inner.len() {
                    assert(inner.contains(inner[p]));
                    if rest.contains(k) {
                        assert(list[rest.index_of(k)] == k);
                    }
                } else {
                    assert(list[list.len() - 1] == k);
                }
            }
            if list.contains(k) {
                let p = list.index_of(k);
                if p < rest.len() {
                    assert(rest[p] == k);
                    assert(inner.contains(k));
                    assert(r[inner.index_of(k)] == k);
                } else {
                    assert(r[r.len() - 1] == k);
                }
            }
            if k == id {
                assert(inner.contains(id));
                assert(r[inner.index_of(id)] == id);
            }
        }
    }
}

proof fn lemma_sorted_once(ids: Seq<i64>)
    ensures
        ascends(sorted_once(ids)),
        sorted_once(ids).len() <= ids.len(),
        forall|k: i64| #[trigger] sorted_once(ids).contains(k) <==> ids.contains(k),
    decreases ids.len(),
{
    if ids.len() > 0 {
        let rest = ids.drop_last();
        lemma_sorted_once(rest);
        lemma_with_id(sorted_once(rest), ids.last());
        assert forall|k: i64| #[trigger] sorted_once(ids).contains(k) <==> ids.contains(k) by {
            if rest.contains(k) {
                assert(ids[rest.index_of(k)] == k);
            }
            if ids.contains(k) {
                let p = ids.index_of(k);
                if p < rest.len() {
                    assert(rest[p] == k);
                    assert(rest.contains(k));
                }
            }
            assert(ids[ids.len() - 1] == ids.last());
        }
    }
}

proof fn lemma_wanted_posts(pieces: Seq<Seq<char>>)
    ensures
        wanted_posts(pieces).len() <= MAX_REFRESHED_POSTS,
        forall|i: int| 0 <= i < wanted_posts(pieces).len() ==> #[trigger] wanted_posts(pieces)[i] > 0,
    decreases pieces.len(),
{
    if pieces.len() > 0 {
        lemma_wanted_posts(pieces.drop_last());
    }
}

/// However a page asks for posts to be shown anew, at most so many positive numbers
/// count, and they are looked up in ascending order, each once.
pub proof fn law_refresh_ids_are_bounded(raw: Option<Seq<char>>)
    ensures
        refresh_ids(raw).len() <= MAX_REFRESHED_POSTS,
        ascends(refresh_ids(raw)),
        forall|i: int| 0 <= i < refresh_ids(raw).len() ==> #[trigger] refresh_ids(raw)[i] > 0,
{
    if raw is Some {
        let wanted = wanted_posts(text::split(raw->Some_0, ','));
        lemma_wanted_posts(text::split(raw->Some_0, ','));
        lemma_sorted_once(wanted);
        assert forall|i: int| 0 <= i < refresh_ids(raw).len() implies #[trigger] refresh_ids(raw)[i]
            > 0 by {
            let k = sorted_once(wanted)[i];
            assert(sorted_once(wanted).contains(k));
            assert(wanted[wanted.index_of(k)] == k);
        }
    }
}

/// Puts a number into its place in an ascending list, unless it is there.
fn put_id(list: &mut Vec<i64>, id: i64)
    ensures
        final(list)@ == with_id(old(list)@, id),
{
    let ghost all = list@;
    let mut n: usize = list.len();
    assert(all.take(n as int) =~= all);
    assert(with_id(all, id) =~= with_id(all.take(n as int), id) + all.skip(n as int));
    while n > 0
        invariant
            n <= list@.len(),
            all == list@,
            list@ == old(list)@,
            with_id(all, id) == with_id(all.take(n as int), id) + all.skip(n as int),
        decreases n,
    {
        assert(all.take(n as int).last() == all[n - 1]);
        let last: i64 = list[n - 1];
        if last == id {
            assert(all.take(n as int) + all.skip(n as int) =~= all);
            return ;
        }
        if last < id {
            list.insert(n, id);
            assert(list@ =~= all.take(n as int).push(id) + all.skip(n as int));
            return ;
        }
        assert(all.take(n as int).drop_last() =~= all.take(n as int - 1));
        assert(with_id(all.take(n as int - 1), id).push(all[n - 1]) + all.skip(n as int)
            =~= with_id(all.take(n as int - 1), id) + all.skip(n as int - 1));
        n = n - 1;
    }
    list.insert(0, id);
    assert(list@ =~= seq![id] + all.skip(0));
}

/// Reads the posts that a page wants to be shown anew.
pub fn parse_refresh_post_ids(raw: Option<&str>) -> (r: Vec<i64>)
    ensures
        r@ == refresh_ids(text::opt_str(raw)),
{
    let mut ids: Vec<i64> = Vec::new();
    match raw {
        None => {
            assert(ids@ =~= Seq::<i64>::empty());
        },
        Some(list) => {
            let pieces = split_at_char(list, ',');
            let ghost all = text::views(pieces@);
            let ghost mut wanted: Seq<i64> = Seq::empty();
            let mut count: usize = 0;
            let mut i: usize = 0;
            assert(all.take(0) =~= Seq::<Seq<char>>::empty());
            assert(ids@ =~= sorted_once(wanted));
            while i < pieces.len()
                invariant
                    i <= pieces@.len(),
                    all == text::views(pieces@),
                    all == text::split(list@, ','),
                    wanted == wanted_posts(all.take(i as int)),
                    count == wanted.len(),
                    count <= MAX_REFRESHED_POSTS,
                    ids@ == sorted_once(wanted),
                decreases pieces@.len() - i,
            {
                assert(all.take(i as int + 1).drop_last() =~= all.take(i as int));
                assert(all.take(i as int + 1).last() == pieces@[i as int]@);
                let piece = trim(pieces[i].as_str());
                match parse_i64(piece.as_str()) {
                    Some(id) => {
                        if id > 0 && count < MAX_REFRESHED_POSTS {
                            put_id(&mut ids, id);
                            count = count + 1;
                            proof {
                                assert(wanted.push(id).drop_last() =~= wanted);
                                wanted = wanted.push(id);
                            }
                        }
                    },
                    None => {},
                }
                i = i + 1;
            }
            assert(all.take(all.len() as int) =~= all);
        },
    }
    ids
}

/// How the posts of an answer are drawn.
#[derive(Debug, Clone, Copy, PartialEq, Eq)]
pub struct RenderPostOpts {
    /// Whether they show a control to delete them.
    pub show_delete: bool,
    /// Whether they show the controls of administrators.
    pub is_admin: bool,
    /// Whether they show their files.
    pub show_media: bool,
    /// Whether they show a control to edit them.
    pub allow_editing: bool,
    /// Whether they show a control for their authors to delete them.
    pub allow_self_delete: bool,
    /// Whether they show who posted them.
    pub show_poster_ids: bool,
    /// Whether long quotes are collapsed.
    pub collapse_greentext: bool,
    /// Whether the thread is sticky, locked and archived, where that is shown.
    pub thread_state: Option<(bool, bool, bool)>,
    /// The post that opened the thread.
    pub thread_op_id: Option<i64>,
    /// Whether videos start without sound.
    pub video_audio_muted: bool,
}

/// How the posts of an answer are drawn: without any control, so that the answer does
/// not depend on who asks.
pub open spec fn update_opts(
    board: &Board,
    thread: &Thread,
    refreshed: bool,
    video_audio_muted: bool,
) -> RenderPostOpts {
    RenderPostOpts {
        show_delete: false,
        is_admin: false,
        show_media: true,
        allow_editing: false,
        allow_self_delete: false,
        show_poster_ids: thread.board_id == board.id && board.show_poster_ids,
        collapse_greentext: board.collapse_greentext,
        thread_state: if refreshed {
            Some((thread.sticky, thread.locked, thread.archived))
        } else {
            None
        },
        thread_op_id: thread.op_id,
        video_audio_muted,
    }
}

/// Says how the new posts, or those shown anew, of an answer are drawn.
pub fn update_render_opts(
    board: &Board,
    thread: &Thread,
    refreshed: bool,
    video_audio_muted: bool,
) -> (r: RenderPostOpts)
    ensures
        r == update_opts(board, thread, refreshed, video_audio_muted),
{
    RenderPostOpts {
        show_delete: false,
        is_admin: false,
        show_media: true,
        allow_editing: false,
        allow_self_delete: false,
        show_poster_ids: thread.board_id == board.id && board.show_poster_ids,
        collapse_greentext: board.collapse_greentext,
        thread_state: if refreshed {
            Some((thread.sticky, thread.locked, thread.archived))
        } else {
            None
        },
        thread_op_id: thread.op_id,
        video_audio_muted,
    }
}

/// A post as it is drawn.
#[derive(Debug)]
pub struct RenderedPost {
    /// The number of the post.
    pub id: i64,
    /// What is drawn.
    pub html: String,
}

/// The model of a drawn post.
#[verifier::ext_equal]
pub struct RenderedPostView {
    /// The number of the post.
    pub id: i64,
    /// What is drawn.
    pub html: Seq<char>,
}

impl View for RenderedPost {
    type V = RenderedPostView;

    open spec fn view(&self) -> RenderedPostView {
        RenderedPostView { id: self.id, html: self.html@ }
    }
}

/// The badges for activity that the site shows.
#[derive(Debug, Clone, Copy, PartialEq, Eq, Structural)]
pub struct ActivityBadgeSettings {
    /// Whether threads show badges for new replies.
    pub thread_badges_enabled: bool,
    /// Whether the home page shows badges for new threads.
    pub homepage_thread_badges_enabled: bool,
    /// Whether the home page shows badges for new replies.
    pub homepage_reply_badges_enabled: bool,
}

/// What a page that follows a thread is told.
#[derive(Debug)]
pub struct ThreadUpdatesPayload {
    /// The new posts, drawn one after the other.
    pub html: String,
    /// The last post that the page shows afterwards.
    pub last_id: i64,
    /// How many posts are new.
    pub count: usize,
    /// The posts that are shown anew.
    pub refreshed_posts: Vec<RenderedPost>,
    /// How many replies the thread has.
    pub reply_count: i64,
    /// When the thread was last bumped.
    pub bump_time: i64,
    /// Whether the thread is locked.
    pub locked: bool,
    /// Whether the thread is sticky.
    pub sticky: bool,
    /// The version of the list of boards.
    pub boards_version: u64,
    /// The list of boards as it is drawn.
    pub nav_html: String,
}

/// The model of what a page is told.
#[verifier::ext_equal]
pub struct ThreadUpdatesPayloadView {
    /// The new posts, drawn one after the other.
    pub html: Seq<char>,
    /// The last post that the page shows afterwards.
    pub last_id: i64,
    /// How many posts are new.
    pub count: nat,
    /// The posts that are shown anew.
    pub refreshed_posts: Seq<RenderedPostView>,
    /// How many replies the thread has.
    pub reply_count: i64,
    /// When the thread was last bumped.
    pub bump_time: i64,
    /// Whether the thread is locked.
    pub locked: bool,
    /// Whether the thread is sticky.
    pub sticky: bool,
    /// The version of the list of boards.
    pub boards_version: u64,
    /// The list of boards as it is drawn.
    pub nav_html: Seq<char>,
}

impl View for ThreadUpdatesPayload {
    type V = ThreadUpdatesPayloadView;

    open spec fn view(&self) -> ThreadUpdatesPayloadView {
        ThreadUpdatesPayloadView {
            html: self.html@,
            last_id: self.last_id,
            count: self.count as nat,
            refreshed_posts: text::views(self.refreshed_posts@),
            reply_count: self.reply_count,
            bump_time: self.bump_time,
            locked: self.locked,
            sticky: self.sticky,
            boards_version: self.boards_version,
            nav_html: self.nav_html@,
        }
    }
}

/// What is answered to a page that follows a thread.
#[derive(Debug)]
pub enum UpdatesReply {
    /// The visitor may not see the board.
    Forbidden,
    /// The page is told what is new.
    Updates {
        /// What is new.
        payload: ThreadUpdatesPayload,
        /// Whether the browser remembers the replies of the thread.
        remember_thread: bool,
        /// Whether the browser remembers the threads of the board.
        remember_board: bool,
    },
    /// The request is refused.
    Refuse(AppError),
}

/// The model of the answer to a page that follows a thread.
#[verifier::ext_equal]
pub enum UpdatesReplyView {
    /// The visitor may not see the board.
    Forbidden,
    /// The page is told what is new.
    Updates {
        /// What is new.
        payload: ThreadUpdatesPayloadView,
        /// Whether the browser remembers the replies of the thread.
        remember_thread: bool,
        /// Whether the browser remembers the threads of the board.
        remember_board: bool,
    },
    /// The request is refused.
    Refuse(AppErrorView),
}

impl View for UpdatesReply {
    type V = UpdatesReplyView;

    open spec fn view(&self) -> UpdatesReplyView {
        match self {
            UpdatesReply::Forbidden => UpdatesReplyView::Forbidden,
            UpdatesReply::Updates { payload, remember_thread, remember_board } =>
                UpdatesReplyView::Updates {
                payload: payload@,
                remember_thread: *remember_thread,
                remember_board: *remember_board,
            },
            UpdatesReply::Refuse(e) => UpdatesReplyView::Refuse(e@),
        }
    }
}

/// What is answered to a visitor who may not see the board.
pub const FORBIDDEN_BODY: &'static str = "{\"error\":\"forbidden\"}";

/// The drawn posts, one after the other.
pub open spec fn drawn(posts: Seq<RenderedPostView>) -> Seq<char>
    decreases posts.len(),
{
    if posts.len() == 0 {
        Seq::empty()
    } else {
        drawn(posts.drop_last()) + posts.last().html
    }
}

/// The largest number of the posts, or the given one where there are none.
pub open spec fn last_post(posts: Seq<RenderedPostView>, since: i64) -> i64
    decreases posts.len(),
{
    if posts.len() == 0 {
        since
    } else if posts.len() == 1 {
        posts[0].id
    } else {
        let before = last_post(posts.drop_last(), since);
        if posts.last().id >= before {
            posts.last().id
        } else {
            before
        }
    }
}

/// Draws posts one after the other, and finds the largest number.
fn draw_posts(posts: &Vec<RenderedPost>, since: i64) -> (r: (String, i64))
    ensures
        r.0@ == drawn(text::views(posts@)),
        r.1 == last_post(text::views(posts@), since),
{
    let ghost all = text::views(posts@);
    let mut html = String::new();
    let mut last: i64 = since;
    let mut i: usize = 0;
    assert(all.take(0) =~= Seq::<RenderedPostView>::empty());
    assert(html@ =~= Seq::<char>::empty());
    while i < posts.len()
        invariant
            i <= posts@.len(),
            all == text::views(posts@),
            html@ == drawn(all.take(i as int)),
            last == last_post(all.take(i as int), since),
        decreases posts@.len() - i,
    {
        let post = &posts[i];
        let ghost next = all.take(i as int + 1);
        assert(next.drop_last() =~= all.take(i as int));
        assert(next.last() == post@);
        html.append(post.html.as_str());
        if i == 0 || post.id >= last {
            last = post.id;
        }
        i = i + 1;
    }
    assert(all.take(all.len() as int) =~= all);
    (html, last)
}

/// Whether the board and the thread are there, and belong together.
pub open spec fn thread_found(board: Option<&Board>, thread: Option<&Thread>) -> Result<
    (),
    AppErrorView,
> {
    match (board, thread) {
        (None, _) => Err(AppErrorView::NotFound("Board not found."@)),
        (Some(_), None) => Err(AppErrorView::NotFound("Thread not found."@)),
        (Some(board), Some(thread)) => if thread.board_id != board.id {
            Err(AppErrorView::NotFound("Thread not found in this board."@))
        } else {
            Ok(())
        },
    }
}

/// What is answered to a page that follows a thread. `posts` are the new posts, oldest
/// first, and `refreshed` those that are shown anew.
pub open spec fn updated(
    can_view: bool,
    board: Option<&Board>,
    thread: Option<&Thread>,
    since: i64,
    posts: Seq<RenderedPostView>,
    refreshed: Seq<RenderedPostView>,
    badges: ActivityBadgeSettings,
    boards_version: u64,
    nav_html: Seq<char>,
) -> UpdatesReplyView {
    if !can_view {
        UpdatesReplyView::Forbidden
    } else {
        match thread_found(board, thread) {
            Err(e) => UpdatesReplyView::Refuse(e),
            Ok(_) => UpdatesReplyView::Updates {
                payload: ThreadUpdatesPayloadView {
                    html: drawn(posts),
                    last_id: last_post(posts, since),
                    count: posts.len(),
                    refreshed_posts: refreshed,
                    reply_count: thread->Some_0.reply_count,
                    bump_time: thread->Some_0.bumped_at,
                    locked: thread->Some_0.locked,
                    sticky: thread->Some_0.sticky,
                    boards_version,
                    nav_html,
                },
                remember_thread: badges.thread_badges_enabled
                    || badges.homepage_reply_badges_enabled,
                remember_board: badges.homepage_thread_badges_enabled,
            },
        }
    }
}

/// Answers a page that follows a thread.
pub fn thread_updates(
    can_view: bool,
    board: Option<&Board>,
    thread: Option<&Thread>,
    since: i64,
    posts: &Vec<RenderedPost>,
    refreshed: Vec<RenderedPost>,
    badges: ActivityBadgeSettings,
    boards_version: u64,
    nav_html: String,
) -> (r: UpdatesReply)
    ensures
        r@ == updated(
            can_view,
            board,
            thread,
            since,
            text::views(posts@),
            text::views(refreshed@),
            badges,
            boards_version,
            nav_html@,
        ),
{
    if !can_view {
        return UpdatesReply::Forbidden;
    }
    match (board, thread) {
        (None, _) => UpdatesReply::Refuse(not_found("Board not found.")),
        (Some(_), None) => UpdatesReply::Refuse(not_found("Thread not found.")),
        (Some(board), Some(thread)) => {
            if thread.board_id != board.id {
                return UpdatesReply::Refuse(not_found("Thread not found in this board."));
            }
            let (html, last_id) = draw_posts(posts, since);
            UpdatesReply::Updates {
                payload: ThreadUpdatesPayload {
                    html,
                    last_id,
                    count: posts.len(),
                    refreshed_posts: refreshed,
                    reply_count: thread.reply_count,
                    bump_time: thread.bumped_at,
                    locked: thread.locked,
                    sticky: thread.sticky,
                    boards_version,
                    nav_html,
                },
                remember_thread: badges.thread_badges_enabled
                    || badges.homepage_reply_badges_enabled,
                remember_board: badges.homepage_thread_badges_enabled,
            }
        },
    }
}

/// The page never loses its place: every new post is at most the last one that the page
/// is told of, and where all of them come after the last one it showed, it moves on.
pub proof fn law_cursor_moves_on(posts: Seq<RenderedPostView>, since: i64)
    ensures
        forall|i: int| 0 <= i < posts.len() ==> (#[trigger] posts[i]).id <= last_post(posts, since),
        posts.len() > 0 ==> exists|i: int|
            0 <= i < posts.len() && (#[trigger] posts[i]).id == last_post(posts, since),
        posts.len() == 0 ==> last_post(posts, since) == since,
        (forall|i: int| 0 <= i < posts.len() ==> (#[trigger] posts[i]).id > since) ==> last_post(
            posts,
            since,
        ) >= since,
    decreases posts.len(),
{
    if posts.len() == 1 {
        assert(posts[0].id == last_post(posts, since));
    } else if posts.len() > 1 {
        let rest = posts.drop_last();
        law_cursor_moves_on(rest, since);
        let k = choose|i: int| 0 <= i < rest.len() && (#[trigger] rest[i]).id == last_post(rest, since);
        assert(posts[k] == rest[k]);
        assert(posts[posts.len() - 1] == posts.last());
        assert forall|i: int| 0 <= i < posts.len() implies (#[trigger] posts[i]).id <= last_post(
            posts,
            since,
        ) by {
            if i < rest.len() {
                assert(posts[i] == rest[i]);
            }
        }
    }
}

/// Who may view one board is told nothing of the threads of another: for a thread of
/// another board the answer is that there is none, whatever its posts.
pub proof fn law_updates_stay_on_their_board(
    board: &Board,
    thread: &Thread,
    since: i64,
    posts: Seq<RenderedPostView>,
    refreshed: Seq<RenderedPostView>,
    badges: ActivityBadgeSettings,
    boards_version: u64,
    nav_html: Seq<char>,
)
    requires
        thread.board_id != board.id,
    ensures
        updated(
            true,
            Some(board),
            Some(thread),
            since,
            posts,
            refreshed,
            badges,
            boards_version,
            nav_html,
        ) == UpdatesReplyView::Refuse(AppErrorView::NotFound("Thread not found in this board."@)),
{
}

/// What a page is told of posts does not depend on who asks: no control is drawn.
pub proof fn law_updates_show_no_controls(
    board: &Board,
    thread: &Thread,
    refreshed: bool,
    video_audio_muted: bool,
)
    ensures
        ({
            let opts = update_opts(board, thread, refreshed, video_audio_muted);
            &&& !opts.show_delete
            &&& !opts.is_admin
            &&& !opts.allow_editing
            &&& !opts.allow_self_delete
        }),
{
}

proof fn lemma_wanted_all(pieces: Seq<Seq<char>>, id: i64)
    requires
        pieces.len() <= 64,
    ensures
        wanted_posts(pieces).len() <= pieces.len(),
        wanted_posts(pieces).contains(id) <==> id > 0 && exists|k: int|
            0 <= k < pieces.len() && numbers::parsed_i64(text::trimmed(#[trigger] pieces[k]))
                == Some(id),
    decreases pieces.len(),
{
    if pieces.len() > 0 {
        let earlier = pieces.drop_last();
        lemma_wanted_all(earlier, id);
        let before = wanted_posts(earlier);
        let now = wanted_posts(pieces);
        if before.contains(id) {
            let p = before.index_of(id);
            assert(now[p] == id);
            let k = choose|k: int|
                0 <= k < earlier.len() && numbers::parsed_i64(text::trimmed(#[trigger] earlier[k]))
                    == Some(id);
            assert(pieces[k] == earlier[k]);
        }
        if id > 0 && numbers::parsed_i64(text::trimmed(pieces[pieces.len() - 1])) == Some(id) {
            assert(now[before.len() as int] == id);
        }
        if exists|k: int|
            0 <= k < pieces.len() && numbers::parsed_i64(text::trimmed(#[trigger] pieces[k]))
                == Some(id) {
            let k = choose|k: int|
                0 <= k < pieces.len() && numbers::parsed_i64(text::trimmed(#[trigger] pieces[k]))
                    == Some(id);
            if k < earlier.len() {
                assert(earlier[k] == pieces[k]);
            }
        }
        if now.contains(id) && !before.contains(id) {
            let p = now.index_of(id);
            if p < before.len() {
                assert(before[p] == id);
            }
            assert(numbers::parsed_i64(text::trimmed(pieces[pieces.len() - 1])) == Some(id));
        }
    }
}

/// The posts that are shown anew are exactly those whose positive numbers stand between the
/// commas, with or without white space around them, as long as no more than sixty-four are
/// asked for; never more than that many are.
pub proof fn law_every_number_asked_for_is_refreshed(list: Seq<char>, id: i64)
    ensures
        refresh_ids(Some(list)).len() <= 64,
        text::split(list, ',').len() <= 64 ==> (refresh_ids(Some(list)).contains(id) <==> id > 0
            && exists|k: int|
            0 <= k < text::split(list, ',').len() && numbers::parsed_i64(
                text::trimmed(#[trigger] text::split(list, ',')[k]),
            ) == Some(id)),
        refresh_ids(None).len() == 0,
{
    let pieces = text::split(list, ',');
    law_refresh_ids_are_bounded(Some(list));
    lemma_sorted_once(wanted_posts(pieces));
    if pieces.len() <= 64 {
        lemma_wanted_all(pieces, id);
    }
}

/// The page is told what the thread is like now and what is new in it, in order, and is
/// remembered as the badges ask; one that may not see the board is told nothing.
pub proof fn law_pages_are_told_how_the_thread_is(
    board: &Board,
    thread: &Thread,
    since: i64,
    posts: Seq<RenderedPostView>,
    more: RenderedPostView,
    refreshed: Seq<RenderedPostView>,
    badges: ActivityBadgeSettings,
    boards_version: u64,
    nav_html: Seq<char>,
)
    requires
        thread.board_id == board.id,
    ensures
        ({
            let r = updated(
                true,
                Some(board),
                Some(thread),
                since,
                posts,
                refreshed,
                badges,
                boards_version,
                nav_html,
            );
            &&& r is Updates
            &&& r->payload.count == posts.len()
            &&& r->payload.refreshed_posts == refreshed
            &&& r->payload.reply_count == thread.reply_count
            &&& r->payload.bump_time == thread.bumped_at
            &&& r->payload.locked == thread.locked && r->payload.sticky == thread.sticky
            &&& r->payload.boards_version == boards_version && r->payload.nav_html == nav_html
            &&& r->remember_thread <==> badges.thread_badges_enabled
                || badges.homepage_reply_badges_enabled
            &&& r->remember_board <==> badges.homepage_thread_badges_enabled
            &&& drawn(Seq::empty()) == Seq::<char>::empty()
            &&& drawn(posts.push(more)) == drawn(posts) + more.html
            &&& r->payload.html == drawn(posts)
            &&& updated(
                false,
                Some(board),
                Some(thread),
                since,
                posts,
                refreshed,
                badges,
                boards_version,
                nav_html,
            ) is Forbidden
        }),
{
    assert(posts.push(more).drop_last() =~= posts);
}

/// New posts are drawn with their media, as the board draws its own, without the state of
/// the thread, which only posts that are shown anew carry.
pub proof fn law_updates_are_drawn_as_the_board_draws(
    board: &Board,
    thread: &Thread,
    video_audio_muted: bool,
)
    ensures
        ({
            let new = update_opts(board, thread, false, video_audio_muted);
            let again = update_opts(board, thread, true, video_audio_muted);
            &&& new.show_media && again.show_media
            &&& new.thread_state is None
            &&& again.thread_state == Some((thread.sticky, thread.locked, thread.archived))
            &&& new.show_poster_ids <==> thread.board_id == board.id && board.show_poster_ids
            &&& again.show_poster_ids == new.show_poster_ids
            &&& new.collapse_greentext == board.collapse_greentext
            &&& new.thread_op_id == thread.op_id && again.thread_op_id == thread.op_id
            &&& new.video_audio_muted == video_audio_muted
        }),
{
}

/// A thread is found exactly where both it and its board are there and it is on that board.
pub proof fn law_threads_are_found_on_their_board(board: Option<&Board>, thread: Option<&Thread>)
    ensures
        thread_found(board, thread) is Ok <==> board is Some && thread is Some
            && thread->Some_0.board_id == board->Some_0.id,
        board is None ==> thread_found(board, thread)->Err_0 == AppErrorView::NotFound(
            "Board not found."@,
        ),
        board is Some && thread is None ==> thread_found(board, thread)->Err_0
            == AppErrorView::NotFound("Thread not found."@),
{
}

} // verus!
