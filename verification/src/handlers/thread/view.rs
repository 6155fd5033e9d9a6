//! The page of a thread.

use vstd::prelude::*;
use vstd::string::*;
use crate::digest;
use crate::digest::sha256_text;
use crate::handlers::thread;
use crate::handlers::thread::reply::{OwnedPostGrant, OwnedPostGrantView};
use crate::handlers::thread::thread_url;
use crate::numbers;
use crate::numbers::{decimal_i64, decimal_u64};
use crate::text;
use crate::text::{chars_of, concat, join, place, str_eq, text_of};

verus! {

/// What the page of a thread is asked for.
#[derive(Debug)]
pub struct ThreadPageQuery {
    /// Set to `1` after a post has been reported.
    pub reported: Option<String>,
}

impl Default for ThreadPageQuery {
    fn default() -> (r: Self)
        ensures
            r.reported is None,
    {
        ThreadPageQuery { reported: None }
    }
}

/// Whether posts are listed in the order of their numbers, each once.
pub open spec fn in_order(list: Seq<(i64, i64)>) -> bool {
    forall|i: int, j: int| 0 <= i < j < list.len() ==> (#[trigger] list[i]).0 < (#[trigger] list[j]).0
}

/// What is listed for a post.
pub open spec fn listed(list: Seq<(i64, i64)>, post_id: i64) -> Option<i64>
    decreases list.len(),
{
    if list.len() == 0 {
        None
    } else if list.last().0 == post_id {
        Some(list.last().1)
    } else {
        listed(list.drop_last(), post_id)
    }
}

/// The ordered list with a post in its place, in place of what was listed for it.
pub open spec fn with_post(list: Seq<(i64, i64)>, post_id: i64, value: i64) -> Seq<(i64, i64)>
    decreases list.len(),
{
    if list.len() == 0 {
        seq![(post_id, value)]
    } else if list.last().0 == post_id {
        list.drop_last().push((post_id, value))
    } else if list.last().0 < post_id {
        list.push((post_id, value))
    } else {
        with_post(list.drop_last(), post_id, value).push(list.last())
    }
}

proof fn lemma_with_post(list: Seq<(i64, i64)>, post_id: i64, value: i64)
    requires
        in_order(list),
    ensures
        in_order(with_post(list, post_id, value)),
        forall|i: int|
            0 <= i < with_post(list, post_id, value).len() ==> {
                let id = (#[trigger] with_post(list, post_id, value)[i]).0;
                id == post_id || (list.len() > 0 && id <= list.last().0)
            },
        forall|k: i64|
            #[trigger] listed(with_post(list, post_id, value), k) == if k == post_id {
                Some(value)
            } else {
                listed(list, k)
            },
    decreases list.len(),
{
    let r = with_post(list, post_id, value);
    if list.len() == 0 {
        assert(r.drop_last() =~= Seq::<(i64, i64)>::empty());
    } else if list.last().0 == post_id {
        assert(r.drop_last() =~= list.drop_last());
    } else if list.last().0 < post_id {
        assert(r.drop_last() =~= list);
    } else {
        let rest = list.drop_last();
        assert(in_order(rest));
        lemma_with_post(rest, post_id, value);
        let inner = with_post(rest, post_id, value);
        assert(r.drop_last() =~= inner);
        assert forall|i: int, j: int| 0 <= i < j < r.len() implies (#[trigger] r[i]).0 < (
        #[trigger] r[j]).0 by {
            if j == r.len() - 1 {
                assert(r[i] == inner[i]);
                if rest.len() > 0 {
                    assert(list[list.len() - 2].0 < list[list.len() - 1].0);
                }
            } else {
                assert(r[i] == inner[i] && r[j] == inner[j]);
            }
        }
        assert forall|i: int| 0 <= i < r.len() implies {
            let id = (#[trigger] r[i]).0;
            id == post_id || id <= list.last().0
        } by {
            if i < r.len() - 1 {
                assert(r[i] == inner[i]);
                if rest.len() > 0 {
                    assert(list[list.len() - 2].0 < list[list.len() - 1].0);
                }
            }
        }
    }
}

/// The controls that a browser has over the posts of a thread: for each post, when the
/// last grant for it expires.
pub open spec fn controls_of(
    grants: Seq<OwnedPostGrantView>,
    board_short: Seq<char>,
    thread_id: i64,
) -> Seq<(i64, i64)>
    decreases grants.len(),
{
    if grants.len() == 0 {
        Seq::empty()
    } else {
        let before = controls_of(grants.drop_last(), board_short, thread_id);
        let grant = grants.last();
        if grant.thread_id == thread_id && grant.board_short == board_short {
            with_post(before, grant.post_id, grant.expires_at)
        } else {
            before
        }
    }
}

/// Puts a post into its place in an ordered list, in place of what was listed for it.
fn put_post(list: &mut Vec<(i64, i64)>, post_id: i64, value: i64)
    ensures
        final(list)@ == with_post(old(list)@, post_id, value),
{
    let ghost all = list@;
    let mut n: usize = list.len();
    assert(all.take(n as int) =~= all);
    assert(with_post(all, post_id, value) =~= with_post(all.take(n as int), post_id, value)
        + all.skip(n as int));
    while n > 0
        invariant
            n <= list@.len(),
            all == list@,
            list@ == old(list)@,
            with_post(all, post_id, value) == with_post(all.take(n as int), post_id, value)
                + all.skip(n as int),
        decreases n,
    {
        assert(all.take(n as int).last() == all[n - 1]);
        let id: i64 = list[n - 1].0;
        if id == post_id {
            list.set(n - 1, (post_id, value));
            assert(list@ =~= all.take(n as int).drop_last().push((post_id, value)) + all.skip(
                n as int,
            ));
            return ;
        }
        if id < post_id {
            list.insert(n, (post_id, value));
            assert(list@ =~= all.take(n as int).push((post_id, value)) + all.skip(n as int));
            return ;
        }
        assert(all.take(n as int).drop_last() =~= all.take(n as int - 1));
        assert(with_post(all.take(n as int - 1), post_id, value).push(all[n - 1]) + all.skip(
            n as int,
        ) =~= with_post(all.take(n as int - 1), post_id, value) + all.skip(n as int - 1));
        n = n - 1;
    }
    list.insert(0, (post_id, value));
    assert(list@ =~= seq![(post_id, value)] + all.skip(0));
}

/// Collects the controls that a browser has over the posts of a thread.
pub fn owned_controls(grants: &Vec<OwnedPostGrant>, board_short: &str, thread_id: i64) -> (r: Vec<
    (i64, i64),
>)
    ensures
        r@ == controls_of(text::views(grants@), board_short@, thread_id),
{
    let ghost all = text::views(grants@);
    let mut controls: Vec<(i64, i64)> = Vec::new();
    let mut i: usize = 0;
    assert(all.take(0) =~= Seq::<OwnedPostGrantView>::empty());
    while i < grants.len()
        invariant
            i <= grants@.len(),
            all == text::views(grants@),
            controls@ == controls_of(all.take(i as int), board_short@, thread_id),
        decreases grants@.len() - i,
    {
        let grant = &grants[i];
        assert(all.take(i as int + 1).drop_last() =~= all.take(i as int));
        assert(all.take(i as int + 1).last() == grant@);
        if grant.thread_id == thread_id && str_eq(grant.board_short.as_str(), board_short) {
            put_post(&mut controls, grant.post_id, grant.expires_at);
        }
        i = i + 1;
    }
    assert(all.take(all.len() as int) =~= all);
    controls
}

/// The text that stands for the control over a post.
pub open spec fn control_text(control: (i64, i64)) -> Seq<char> {
    numbers::int_text(control.0 as int) + ":"@ + numbers::int_text(control.1 as int)
}

/// The texts that stand for the controls, in their order as texts.
pub open spec fn control_texts(controls: Seq<(i64, i64)>) -> Seq<Seq<char>>
    decreases controls.len(),
{
    if controls.len() == 0 {
        Seq::empty()
    } else {
        text::placed(control_texts(controls.drop_last()), control_text(controls.last()))
    }
}

/// What stands for the controls in the tag of a page.
pub open spec fn ownership_tag(controls: Seq<(i64, i64)>) -> Seq<char> {
    digest::sha256_hex(
        vstd::utf8::encode_utf8(text::joined(control_texts(controls), "|"@)),
    )
}

/// What stands for the controls in the tag of a page.
pub fn ownership_signature(controls: &Vec<(i64, i64)>) -> (r: String)
    ensures
        r@ == ownership_tag(controls@),
{
    let mut owned: Vec<String> = Vec::new();
    let mut i: usize = 0;
    assert(controls@.take(0) =~= Seq::<(i64, i64)>::empty());
    assert(text::views(owned@) =~= Seq::<Seq<char>>::empty());
    while i < controls.len()
        invariant
            i <= controls@.len(),
            text::views(owned@) == control_texts(controls@.take(i as int)),
        decreases controls@.len() - i,
    {
        let (post_id, expires_at) = controls[i];
        let mut line = decimal_i64(post_id);
        line.append(":");
        let expiry = decimal_i64(expires_at);
        line.append(expiry.as_str());
        assert(controls@.take(i as int + 1).drop_last() =~= controls@.take(i as int));
        assert(controls@.take(i as int + 1).last() == controls@[i as int]);
        place(&mut owned, line.as_str());
        i = i + 1;
    }
    assert(controls@.take(controls@.len() as int) =~= controls@);
    let whole = join(&owned, "|");
    sha256_text(whole.as_str().as_bytes())
}

/// What stands for the token of an administrator in the tag of a page.
pub open spec fn admin_tag(token: Option<Seq<char>>) -> Seq<char> {
    match token {
        Some(t) => "-a"@ + digest::sha256_hex(vstd::utf8::encode_utf8(t)).take(12),
        None => Seq::empty(),
    }
}

/// What stands for the token of an administrator in the tag of a page.
fn admin_fragment(token: Option<&str>) -> (r: String)
    ensures
        r@ == admin_tag(text::opt_str(token)),
{
    match token {
        Some(t) => {
            let digest = sha256_text(t.as_bytes());
            let a = chars_of(digest.as_str());
            assert(a@.subrange(0, 12) =~= a@.take(12));
            let short = text_of(&a, 0, 12);
            concat("-a", short.as_str())
        },
        None => {
            let none = String::new();
            assert(none@ =~= Seq::<char>::empty());
            none
        },
    }
}

/// What the page of a thread depends on.
#[derive(Debug)]
pub struct ThreadPageState {
    /// The signature of the thread and its posts.
    pub thread_sig: String,
    /// The version of the list of boards.
    pub boards_version: u64,
    /// The token of the administrator who looks at the page, if one does.
    pub admin_token: Option<String>,
    /// Whether the visitor may post to the board.
    pub can_post: bool,
    /// Whether the board collapses long quotes.
    pub collapse_greentext: bool,
    /// What stands for the theme.
    pub theme_tag: String,
    /// What stands for the preferences of the visitor.
    pub preferences_tag: String,
    /// Whether threads show badges for new replies.
    pub thread_badges: bool,
    /// Whether the home page shows badges for new threads.
    pub homepage_thread_badges: bool,
    /// Whether the home page shows badges for new replies.
    pub homepage_reply_badges: bool,
}

/// The model of what the page of a thread depends on.
#[verifier::ext_equal]
pub struct ThreadPageStateView {
    /// The signature of the thread and its posts.
    pub thread_sig: Seq<char>,
    /// The version of the list of boards.
    pub boards_version: u64,
    /// The token of the administrator who looks at the page, if one does.
    pub admin_token: Option<Seq<char>>,
    /// Whether the visitor may post to the board.
    pub can_post: bool,
    /// Whether the board collapses long quotes.
    pub collapse_greentext: bool,
    /// What stands for the theme.
    pub theme_tag: Seq<char>,
    /// What stands for the preferences of the visitor.
    pub preferences_tag: Seq<char>,
    /// Whether threads show badges for new replies.
    pub thread_badges: bool,
    /// Whether the home page shows badges for new threads.
    pub homepage_thread_badges: bool,
    /// Whether the home page shows badges for new replies.
    pub homepage_reply_badges: bool,
}

impl View for ThreadPageState {
    type V = ThreadPageStateView;

    open spec fn view(&self) -> ThreadPageStateView {
        ThreadPageStateView {
            thread_sig: self.thread_sig@,
            boards_version: self.boards_version,
            admin_token: text::opt_view(self.admin_token),
            can_post: self.can_post,
            collapse_greentext: self.collapse_greentext,
            theme_tag: self.theme_tag@,
            preferences_tag: self.preferences_tag@,
            thread_badges: self.thread_badges,
            homepage_thread_badges: self.homepage_thread_badges,
            homepage_reply_badges: self.homepage_reply_badges,
        }
    }
}

impl ThreadPageStateView {
    /// Whether looking at the page is remembered in the browser.
    pub open spec fn marks_activity(self) -> bool {
        self.thread_badges || self.homepage_thread_badges || self.homepage_reply_badges
    }

    /// The part of the tag before the right to post.
    pub open spec fn tag_head(self) -> Seq<char> {
        "\""@ + self.thread_sig + "-b"@ + numbers::nat_text(self.boards_version as nat) + admin_tag(
            self.admin_token,
        )
    }

    /// The part of the tag for the right to post.
    pub open spec fn post_tag(self) -> Seq<char> {
        if self.can_post {
            "-p1"@
        } else {
            "-p0"@
        }
    }

    /// The part of the tag for collapsed quotes.
    pub open spec fn greentext_tag(self) -> Seq<char> {
        if self.collapse_greentext {
            "-cg1"@
        } else {
            "-cg0"@
        }
    }

    /// The tag of the page, by which a browser knows its copy to be current.
    pub open spec fn etag(self, controls: Seq<(i64, i64)>) -> Seq<char> {
        self.tag_head() + self.post_tag() + self.greentext_tag() + "-t"@ + self.theme_tag + "-o"@
            + ownership_tag(controls) + "-"@ + self.preferences_tag + "\""@
    }
}

/// The tag of the page, by which a browser knows its copy to be current.
pub fn page_etag(page: &ThreadPageState, controls: &Vec<(i64, i64)>) -> (r: String)
    ensures
        r@ == page@.etag(controls@),
{
    let mut tag = concat("\"", page.thread_sig.as_str());
    tag.append("-b");
    let version = decimal_u64(page.boards_version);
    tag.append(version.as_str());
    let admin = admin_fragment(text::as_deref(&page.admin_token));
    tag.append(admin.as_str());
    assert(tag@ == page@.tag_head());
    if page.can_post {
        tag.append("-p1");
    } else {
        tag.append("-p0");
    }
    if page.collapse_greentext {
        tag.append("-cg1");
    } else {
        tag.append("-cg0");
    }
    tag.append("-t");
    tag.append(page.theme_tag.as_str());
    tag.append("-o");
    let owned = ownership_signature(controls);
    tag.append(owned.as_str());
    tag.append("-");
    tag.append(page.preferences_tag.as_str());
    tag.append("\"");
    tag
}

/// What is answered to a visitor who looks at a thread.
#[derive(Debug)]
pub enum ViewAnswer {
    /// The board is not open to the visitor, who goes to the given address once it is.
    Denied {
        /// Where the visitor goes afterwards.
        return_to: String,
    },
    /// The copy of the browser is current.
    NotModified {
        /// The tag of the page.
        etag: String,
    },
    /// The page is shown.
    Page {
        /// The tag of the page.
        etag: String,
        /// The controls that the browser has over its posts.
        controls: Vec<(i64, i64)>,
        /// What is said on top of the page.
        message: Option<&'static str>,
        /// Whether the browser remembers the replies of the thread.
        remember_thread: bool,
        /// Whether the browser remembers the threads of the board.
        remember_board: bool,
        /// Whether the page may not be kept because looking at it is remembered.
        activity: bool,
    },
}

/// The model of the answer to a visitor who looks at a thread.
#[verifier::ext_equal]
pub enum ViewAnswerView {
    /// The board is not open to the visitor.
    Denied {
        /// Where the visitor goes afterwards.
        return_to: Seq<char>,
    },
    /// The copy of the browser is current.
    NotModified {
        /// The tag of the page.
        etag: Seq<char>,
    },
    /// The page is shown.
    Page {
        /// The tag of the page.
        etag: Seq<char>,
        /// The controls that the browser has over its posts.
        controls: Seq<(i64, i64)>,
        /// What is said on top of the page.
        message: Option<Seq<char>>,
        /// Whether the browser remembers the replies of the thread.
        remember_thread: bool,
        /// Whether the browser remembers the threads of the board.
        remember_board: bool,
        /// Whether the page may not be kept because looking at it is remembered.
        activity: bool,
    },
}

impl View for ViewAnswer {
    type V = ViewAnswerView;

    open spec fn view(&self) -> ViewAnswerView {
        match self {
            ViewAnswer::Denied { return_to } => ViewAnswerView::Denied { return_to: return_to@ },
            ViewAnswer::NotModified { etag } => ViewAnswerView::NotModified { etag: etag@ },
            ViewAnswer::Page {
                etag,
                controls,
                message,
                remember_thread,
                remember_board,
                activity,
            } => ViewAnswerView::Page {
                etag: etag@,
                controls: controls@,
                message: text::opt_str(*message),
                remember_thread: *remember_thread,
                remember_board: *remember_board,
                activity: *activity,
            },
        }
    }
}

/// What is said after a post has been reported.
pub const REPORT_SUBMITTED: &'static str = "Report submitted. Thank you.";

/// What is answered to a visitor who looks at a thread of a board that is open to them
/// or not, with the grants and the tag that the browser holds.
pub open spec fn viewed(
    board_short: Seq<char>,
    thread_id: i64,
    denied: bool,
    page: ThreadPageStateView,
    grants: Seq<OwnedPostGrantView>,
    client_etag: Option<Seq<char>>,
    reported: Option<Seq<char>>,
) -> ViewAnswerView {
    let controls = controls_of(grants, board_short, thread_id);
    let etag = page.etag(controls);
    if denied {
        ViewAnswerView::Denied { return_to: thread::thread_address(board_short, thread_id) }
    } else if client_etag == Some(etag) && !page.marks_activity() {
        ViewAnswerView::NotModified { etag }
    } else {
        ViewAnswerView::Page {
            etag,
            controls,
            message: if reported == Some("1"@) {
                Some(REPORT_SUBMITTED@)
            } else {
                None
            },
            remember_thread: page.thread_badges || page.homepage_reply_badges,
            remember_board: page.homepage_thread_badges,
            activity: page.marks_activity(),
        }
    }
}

/// What is answered before the page is looked up, if the board is not open to the
/// visitor.
pub fn turn_view_away(board_short: &str, thread_id: i64, denied: bool) -> (r: Option<ViewAnswer>)
    ensures
        text::opt_view(r) == if denied {
            Some(
                ViewAnswerView::Denied {
                    return_to: thread::thread_address(board_short@, thread_id),
                },
            )
        } else {
            None
        },
{
    if denied {
        Some(ViewAnswer::Denied { return_to: thread_url(board_short, thread_id) })
    } else {
        None
    }
}

/// Answers a visitor who looks at a thread.
pub fn view_thread(
    board_short: &str,
    thread_id: i64,
    denied: bool,
    page: &ThreadPageState,
    grants: &Vec<OwnedPostGrant>,
    client_etag: Option<&str>,
    reported: Option<&str>,
) -> (r: ViewAnswer)
    ensures
        r@ == viewed(
            board_short@,
            thread_id,
            denied,
            page@,
            text::views(grants@),
            text::opt_str(client_etag),
            text::opt_str(reported),
        ),
{
    if let Some(answer) = turn_view_away(board_short, thread_id, denied) {
        return answer;
    }
    let controls = owned_controls(grants, board_short, thread_id);
    let etag = page_etag(page, &controls);
    let activity = page.thread_badges || page.homepage_thread_badges || page.homepage_reply_badges;
    let current = match client_etag {
        Some(tag) => str_eq(tag, etag.as_str()),
        None => false,
    };
    if current && !activity {
        return ViewAnswer::NotModified { etag };
    }
    let message = match reported {
        Some(value) => if str_eq(value, "1") {
            Some(REPORT_SUBMITTED)
        } else {
            None
        },
        None => None,
    };
    ViewAnswer::Page {
        etag,
        controls,
        message,
        remember_thread: page.thread_badges || page.homepage_reply_badges,
        remember_board: page.homepage_thread_badges,
        activity,
    }
}

/// The expiry that the last grant for a post names.
pub open spec fn last_grant(
    grants: Seq<OwnedPostGrantView>,
    board_short: Seq<char>,
    thread_id: i64,
    post_id: i64,
) -> Option<i64>
    decreases grants.len(),
{
    if grants.len() == 0 {
        None
    } else {
        let grant = grants.last();
        if grant.thread_id == thread_id && grant.board_short == board_short && grant.post_id
            == post_id {
            Some(grant.expires_at)
        } else {
            last_grant(grants.drop_last(), board_short, thread_id, post_id)
        }
    }
}

/// A browser controls exactly the posts of the thread that it holds a grant for, each
/// as long as the last grant for it says; they are listed by their numbers.
pub proof fn law_controls_follow_the_last_grant(
    grants: Seq<OwnedPostGrantView>,
    board_short: Seq<char>,
    thread_id: i64,
)
    ensures
        in_order(controls_of(grants, board_short, thread_id)),
        forall|post_id: i64|
            #[trigger] listed(controls_of(grants, board_short, thread_id), post_id) == last_grant(
                grants,
                board_short,
                thread_id,
                post_id,
            ),
    decreases grants.len(),
{
    if grants.len() > 0 {
        law_controls_follow_the_last_grant(grants.drop_last(), board_short, thread_id);
        let before = controls_of(grants.drop_last(), board_short, thread_id);
        let grant = grants.last();
        if grant.thread_id == thread_id && grant.board_short == board_short {
            lemma_with_post(before, grant.post_id, grant.expires_at);
        }
    }
}

/// A browser is told that its copy is current only where the tag is the same and nothing
/// about the visit is remembered, and never for a board that is not open.
pub proof fn law_not_modified_means_same_page(
    board_short: Seq<char>,
    thread_id: i64,
    denied: bool,
    page: ThreadPageStateView,
    grants: Seq<OwnedPostGrantView>,
    client_etag: Option<Seq<char>>,
    reported: Option<Seq<char>>,
)
    ensures
        viewed(
            board_short,
            thread_id,
            denied,
            page,
            grants,
            client_etag,
            reported,
        ) is NotModified <==> {
            &&& !denied
            &&& client_etag == Some(page.etag(controls_of(grants, board_short, thread_id)))
            &&& !page.thread_badges
            &&& !page.homepage_thread_badges
            &&& !page.homepage_reply_badges
        },
{
}

/// A copy made with the right to post is not current without it, nor one made with
/// collapsed quotes where they are open.
pub proof fn law_etag_tells_rights_apart(
    page: ThreadPageStateView,
    other: ThreadPageStateView,
    controls: Seq<(i64, i64)>,
)
    requires
        other.thread_sig == page.thread_sig,
        other.boards_version == page.boards_version,
        other.admin_token == page.admin_token,
        other.can_post != page.can_post || other.collapse_greentext != page.collapse_greentext,
    ensures
        page.etag(controls) != other.etag(controls),
{
    reveal_strlit("-p1");
    reveal_strlit("-p0");
    reveal_strlit("-cg1");
    reveal_strlit("-cg0");
    let n = page.tag_head().len() as int;
    let a = page.etag(controls);
    let b = other.etag(controls);
    assert(a[n + 2] == page.post_tag()[2]);
    assert(b[n + 2] == other.post_tag()[2]);
    assert(a[n + 6] == page.greentext_tag()[3]);
    assert(b[n + 6] == other.greentext_tag()[3]);
}

proof fn lemma_same_around(a: Seq<char>, x: Seq<char>, y: Seq<char>, b: Seq<char>)
    requires
        a + x + b == a + y + b,
    ensures
        x == y,
{
    let s = a + x + b;
    let t = a + y + b;
    assert(s.len() == t.len());
    assert(x.len() == y.len());
    assert forall|i: int| 0 <= i < x.len() implies x[i] == y[i] by {
        assert(s[a.len() + i] == x[i]);
        assert(t[a.len() + i] == y[i]);
    }
    assert(x =~= y);
}

proof fn lemma_etag_thread(page: ThreadPageStateView, controls: Seq<(i64, i64)>, thread_sig: Seq<char>)
    requires
        thread_sig != page.thread_sig,
    ensures
        (ThreadPageStateView { thread_sig, ..page }).etag(controls) != page.etag(controls),
{
    let head = "\""@;
    let rest = "-b"@ + numbers::nat_text(page.boards_version as nat) + admin_tag(page.admin_token)
        + page.post_tag() + page.greentext_tag() + "-t"@ + page.theme_tag + "-o"@ + ownership_tag(
        controls,
    ) + "-"@ + page.preferences_tag + "\""@;
    let other = ThreadPageStateView { thread_sig, ..page };
    assert(page.etag(controls) =~= head + page.thread_sig + rest);
    assert(other.etag(controls) =~= head + thread_sig + rest);
    if other.etag(controls) == page.etag(controls) {
        lemma_same_around(head, thread_sig, page.thread_sig, rest);
    }
}

proof fn lemma_etag_boards(page: ThreadPageStateView, controls: Seq<(i64, i64)>, boards_version: u64)
    requires
        boards_version != page.boards_version,
    ensures
        (ThreadPageStateView { boards_version, ..page }).etag(controls) != page.etag(controls),
{
    let head = "\""@ + page.thread_sig + "-b"@;
    let rest = admin_tag(page.admin_token) + page.post_tag() + page.greentext_tag() + "-t"@
        + page.theme_tag + "-o"@ + ownership_tag(controls) + "-"@ + page.preferences_tag + "\""@;
    let other = ThreadPageStateView { boards_version, ..page };
    let mine = numbers::nat_text(page.boards_version as nat);
    let theirs = numbers::nat_text(boards_version as nat);
    assert(page.etag(controls) =~= head + mine + rest);
    assert(other.etag(controls) =~= head + theirs + rest);
    if other.etag(controls) == page.etag(controls) {
        lemma_same_around(head, theirs, mine, rest);
        numbers::lemma_nat_text(boards_version as nat);
        numbers::lemma_nat_text(page.boards_version as nat);
    }
}

proof fn lemma_etag_theme(page: ThreadPageStateView, controls: Seq<(i64, i64)>, theme_tag: Seq<char>)
    requires
        theme_tag != page.theme_tag,
    ensures
        (ThreadPageStateView { theme_tag, ..page }).etag(controls) != page.etag(controls),
{
    let head = page.tag_head() + page.post_tag() + page.greentext_tag() + "-t"@;
    let rest = "-o"@ + ownership_tag(controls) + "-"@ + page.preferences_tag + "\""@;
    let other = ThreadPageStateView { theme_tag, ..page };
    assert(page.etag(controls) =~= head + page.theme_tag + rest);
    assert(other.etag(controls) =~= head + theme_tag + rest);
    if other.etag(controls) == page.etag(controls) {
        lemma_same_around(head, theme_tag, page.theme_tag, rest);
    }
}

proof fn lemma_etag_preferences(page: ThreadPageStateView, controls: Seq<(i64, i64)>, preferences_tag: Seq<char>)
    requires
        preferences_tag != page.preferences_tag,
    ensures
        (ThreadPageStateView { preferences_tag, ..page }).etag(controls) != page.etag(controls),
{
    let head = page.tag_head() + page.post_tag() + page.greentext_tag() + "-t"@ + page.theme_tag
        + "-o"@ + ownership_tag(controls) + "-"@;
    let other = ThreadPageStateView { preferences_tag, ..page };
    assert(page.etag(controls) =~= head + page.preferences_tag + "\""@);
    assert(other.etag(controls) =~= head + preferences_tag + "\""@);
    if other.etag(controls) == page.etag(controls) {
        lemma_same_around(head, preferences_tag, page.preferences_tag, "\""@);
    }
}

proof fn lemma_etag_admin(page: ThreadPageStateView, controls: Seq<(i64, i64)>, token: Seq<char>)
    requires
        page.admin_token is None,
    ensures
        (ThreadPageStateView { admin_token: Some(token), ..page }).etag(controls) != page.etag(controls),
{
    reveal_strlit("-a");
    let head = "\""@ + page.thread_sig + "-b"@ + numbers::nat_text(page.boards_version as nat);
    let rest = page.post_tag() + page.greentext_tag() + "-t"@ + page.theme_tag + "-o"@
        + ownership_tag(controls) + "-"@ + page.preferences_tag + "\""@;
    let other = ThreadPageStateView { admin_token: Some(token), ..page };
    assert(page.etag(controls) =~= head + admin_tag(None) + rest);
    assert(other.etag(controls) =~= head + admin_tag(Some(token)) + rest);
    if other.etag(controls) == page.etag(controls) {
        lemma_same_around(head, admin_tag(Some(token)), admin_tag(None), rest);
        assert(admin_tag(Some(token)).len() >= 2);
    }
}

/// The tag of a page tells apart pages that differ in the thread, in the list of boards, in
/// the theme, in the preferences or in whether an administrator looks at them, where all
/// else is the same.
pub proof fn law_etag_tells_pages_apart(
    page: ThreadPageStateView,
    controls: Seq<(i64, i64)>,
    thread_sig: Seq<char>,
    boards_version: u64,
    theme_tag: Seq<char>,
    preferences_tag: Seq<char>,
    token: Seq<char>,
)
    ensures
        thread_sig != page.thread_sig ==> (ThreadPageStateView { thread_sig, ..page }).etag(controls)
            != page.etag(controls),
        boards_version != page.boards_version ==> (ThreadPageStateView {
            boards_version,
            ..page
        }).etag(controls) != page.etag(controls),
        theme_tag != page.theme_tag ==> (ThreadPageStateView { theme_tag, ..page }).etag(controls)
            != page.etag(controls),
        preferences_tag != page.preferences_tag ==> (ThreadPageStateView {
            preferences_tag,
            ..page
        }).etag(controls) != page.etag(controls),
        page.admin_token is None ==> (ThreadPageStateView {
            admin_token: Some(token),
            ..page
        }).etag(controls) != page.etag(controls),
        page.etag(controls).len() >= 2 && page.etag(controls)[0] == '"'
            && page.etag(controls).last() == '"',
{
    reveal_strlit("\"");
    if thread_sig != page.thread_sig {
        lemma_etag_thread(page, controls, thread_sig);
    }
    if boards_version != page.boards_version {
        lemma_etag_boards(page, controls, boards_version);
    }
    if theme_tag != page.theme_tag {
        lemma_etag_theme(page, controls, theme_tag);
    }
    if preferences_tag != page.preferences_tag {
        lemma_etag_preferences(page, controls, preferences_tag);
    }
    if page.admin_token is None {
        lemma_etag_admin(page, controls, token);
    }
}

/// A visitor to whom the board is not open is sent to the thread afterwards; any other is
/// shown the page with its tag and the controls of the thread's own grants, thanked where a
/// report was made, and remembered as the badges ask.
pub proof fn law_pages_show_what_the_visitor_may(
    board_short: Seq<char>,
    thread_id: i64,
    page: ThreadPageStateView,
    grants: Seq<OwnedPostGrantView>,
    client_etag: Option<Seq<char>>,
    reported: Option<Seq<char>>,
)
    ensures
        ({
            let r = viewed(board_short, thread_id, false, page, grants, client_etag, reported);
            let away = viewed(board_short, thread_id, true, page, grants, client_etag, reported);
            &&& away == (ViewAnswerView::Denied {
                return_to: thread::thread_address(board_short, thread_id),
            })
            &&& !(r is Denied)
            &&& r is Page ==> r->Page_etag == page.etag(r->controls)
            &&& r is Page ==> (forall|post_id: i64|
                #[trigger] listed(r->controls, post_id) == last_grant(
                    grants,
                    board_short,
                    thread_id,
                    post_id,
                ))
            &&& r is Page ==> (r->message is Some <==> reported == Some("1"@))
            &&& r is Page && r->message is Some ==> r->message->Some_0
                == "Report submitted. Thank you."@
            &&& r is Page ==> (r->remember_thread <==> page.thread_badges
                || page.homepage_reply_badges)
            &&& r is Page ==> (r->remember_board <==> page.homepage_thread_badges)
            &&& r is Page ==> (r->activity <==> page.thread_badges || page.homepage_reply_badges
                || page.homepage_thread_badges)
            &&& r is NotModified ==> Some(r->NotModified_etag) == client_etag
        }),
{
    law_controls_follow_the_last_grant(grants, board_short, thread_id);
}

/// A grant is over a post of the thread exactly where it is the last one that names that
/// post, the thread and the board.
pub proof fn law_last_grants_are_found(
    grants: Seq<OwnedPostGrantView>,
    board_short: Seq<char>,
    thread_id: i64,
    post_id: i64,
    k: int,
)
    requires
        0 <= k < grants.len(),
        grants[k].board_short == board_short,
        grants[k].thread_id == thread_id,
        grants[k].post_id == post_id,
        forall|j: int|
            k < j < grants.len() ==> !((#[trigger] grants[j]).board_short == board_short
                && grants[j].thread_id == thread_id && grants[j].post_id == post_id),
    ensures
        last_grant(grants, board_short, thread_id, post_id) == Some(grants[k].expires_at),
        listed(controls_of(grants, board_short, thread_id), post_id) == Some(grants[k].expires_at),
    decreases grants.len(),
{
    law_controls_follow_the_last_grant(grants, board_short, thread_id);
    if k < grants.len() - 1 {
        let earlier = grants.drop_last();
        assert(!(grants[grants.len() - 1].board_short == board_short
            && grants[grants.len() - 1].thread_id == thread_id && grants[grants.len() - 1].post_id
            == post_id));
        assert forall|j: int| k < j < earlier.len() implies !((#[trigger] earlier[j]).board_short
            == board_short && earlier[j].thread_id == thread_id && earlier[j].post_id
            == post_id) by {
            assert(earlier[j] == grants[j]);
        }
        law_last_grants_are_found(earlier, board_short, thread_id, post_id, k);
    }
}

/// The controls of a page are only the thread's own: a post that no grant of the thread names
/// has none.
pub proof fn law_other_grants_give_no_control(
    grants: Seq<OwnedPostGrantView>,
    board_short: Seq<char>,
    thread_id: i64,
    post_id: i64,
)
    requires
        forall|j: int|
            0 <= j < grants.len() ==> !((#[trigger] grants[j]).board_short == board_short
                && grants[j].thread_id == thread_id && grants[j].post_id == post_id),
    ensures
        listed(controls_of(grants, board_short, thread_id), post_id) is None,
    decreases grants.len(),
{
    law_controls_follow_the_last_grant(grants, board_short, thread_id);
    if grants.len() > 0 {
        let earlier = grants.drop_last();
        assert(!(grants[grants.len() - 1].board_short == board_short
            && grants[grants.len() - 1].thread_id == thread_id && grants[grants.len() - 1].post_id
            == post_id));
        assert forall|j: int| 0 <= j < earlier.len() implies !((#[trigger] earlier[j]).board_short
            == board_short && earlier[j].thread_id == thread_id && earlier[j].post_id
            == post_id) by {
            assert(earlier[j] == grants[j]);
        }
        law_other_grants_give_no_control(earlier, board_short, thread_id, post_id);
        law_controls_follow_the_last_grant(earlier, board_short, thread_id);
    }
}

} // verus!
