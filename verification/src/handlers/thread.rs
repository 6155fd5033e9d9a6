//! The pages and actions of a thread.
//!
//! A handler reads the request and the database, asks one of these functions what
//! is to be answered, and answers it.

use vstd::prelude::*;
use vstd::string::*;
use crate::numbers;
use crate::numbers::decimal_i64;
use crate::text;
use crate::text::{concat, eq_ignore_ascii_case};

pub mod own_posts;
pub mod reply;
pub mod updates;
pub mod view;
pub mod vote;

pub use self::own_posts::{
    delete_own_post,
    delete_post_get,
    edit_post_get,
    edit_post_post,
    DeletePostForm,
    EditForm,
};
pub use self::reply::post_reply;
pub use self::updates::{thread_updates, UpdatesQuery};
pub use self::view::{view_thread, ThreadPageQuery};
pub use self::vote::{vote_handler, VoteForm};

verus! {

/// How long the author of a post may edit or delete it, in seconds.
pub const SELF_DELETE_WINDOW_SECS: i64 = 60;

/// The status of a request that could not be processed.
pub const UNPROCESSABLE_ENTITY: u16 = 422;

/// The status of an answer that a script reads.
pub const OK: u16 = 200;

/// The status of an answer that leads a script elsewhere.
pub const NO_CONTENT: u16 = 204;

/// The status of an answer that leads a browser elsewhere.
pub const SEE_OTHER: u16 = 303;

/// The header in which a script is told where to go.
pub const REDIRECT_HEADER: &'static str = "x-rustchan-redirect";

/// The header in which a script is told the status of what went wrong.
pub const ERROR_STATUS_HEADER: &'static str = "x-rustchan-error-status";

/// The status of a request that is not allowed.
pub const FORBIDDEN: u16 = 403;

/// The status of a request for what is not there.
pub const NOT_FOUND: u16 = 404;

/// Why a request is not carried out.
#[derive(Debug)]
pub enum AppError {
    /// The request is wrong.
    BadRequest(String),
    /// The request is not allowed.
    Forbidden(String),
    /// What the request asks for is not there.
    NotFound(String),
    /// Anything else; the handler holds the details.
    Other,
}

/// The model of an error.
#[verifier::ext_equal]
pub enum AppErrorView {
    /// The request is wrong.
    BadRequest(Seq<char>),
    /// The request is not allowed.
    Forbidden(Seq<char>),
    /// What the request asks for is not there.
    NotFound(Seq<char>),
    /// Anything else.
    Other,
}

impl View for AppError {
    type V = AppErrorView;

    open spec fn view(&self) -> AppErrorView {
        match self {
            AppError::BadRequest(m) => AppErrorView::BadRequest(m@),
            AppError::Forbidden(m) => AppErrorView::Forbidden(m@),
            AppError::NotFound(m) => AppErrorView::NotFound(m@),
            AppError::Other => AppErrorView::Other,
        }
    }
}

/// An error with the given message.
pub(crate) fn bad_request(message: &str) -> (r: AppError)
    ensures
        r@ == AppErrorView::BadRequest(message@),
{
    AppError::BadRequest(message.to_owned())
}

/// An error with the given message.
pub(crate) fn forbidden(message: &str) -> (r: AppError)
    ensures
        r@ == AppErrorView::Forbidden(message@),
{
    AppError::Forbidden(message.to_owned())
}

/// An error with the given message.
pub(crate) fn not_found(message: &str) -> (r: AppError)
    ensures
        r@ == AppErrorView::NotFound(message@),
{
    AppError::NotFound(message.to_owned())
}

/// The error for a board that is not there.
pub open spec fn board_missing(board_short: Seq<char>) -> AppErrorView {
    AppErrorView::NotFound("Board /"@ + board_short + "/ not found"@)
}

/// The error for a board that is not there.
pub(crate) fn missing_board(board_short: &str) -> (r: AppError)
    ensures
        r@ == board_missing(board_short@),
{
    let mut message = concat("Board /", board_short);
    message.append("/ not found");
    AppError::NotFound(message)
}

/// Whether a request was made by a script, by the header in which scripts say so.
pub open spec fn says_script(header: Option<Seq<char>>) -> bool {
    match header {
        Some(value) => text::lower(value) == text::lower("XMLHttpRequest"@),
        None => false,
    }
}

/// Whether a request was made by a script, by the header in which scripts say so.
pub fn is_xml_http_request(requested_with: Option<&str>) -> (r: bool)
    ensures
        r == says_script(text::opt_str(requested_with)),
{
    match requested_with {
        Some(value) => eq_ignore_ascii_case(value, "XMLHttpRequest"),
        None => false,
    }
}

/// The address of a thread.
pub open spec fn thread_address(board_short: Seq<char>, thread_id: i64) -> Seq<char> {
    "/"@ + board_short + "/thread/"@ + numbers::int_text(thread_id as int)
}

/// The address of a thread.
pub fn thread_url(board_short: &str, thread_id: i64) -> (r: String)
    ensures
        r@ == thread_address(board_short@, thread_id),
{
    let mut url = concat("/", board_short);
    url.append("/thread/");
    let id = decimal_i64(thread_id);
    url.append(id.as_str());
    url
}

/// The address of a post in its thread.
pub open spec fn post_address(board_short: Seq<char>, thread_id: i64, post_id: i64) -> Seq<char> {
    thread_address(board_short, thread_id) + "#p"@ + numbers::int_text(post_id as int)
}

/// The address of a post in its thread.
pub fn post_url(board_short: &str, thread_id: i64, post_id: i64) -> (r: String)
    ensures
        r@ == post_address(board_short@, thread_id, post_id),
{
    let mut url = thread_url(board_short, thread_id);
    url.append("#p");
    let id = decimal_i64(post_id);
    url.append(id.as_str());
    url
}

/// The address of a poll in its thread.
pub open spec fn poll_address(board_short: Seq<char>, thread_id: i64) -> Seq<char> {
    thread_address(board_short, thread_id) + "#poll"@
}

/// The address of a poll in its thread.
pub fn poll_url(board_short: &str, thread_id: i64) -> (r: String)
    ensures
        r@ == poll_address(board_short@, thread_id),
{
    let mut url = thread_url(board_short, thread_id);
    url.append("#poll");
    url
}

/// The address of the catalog of a board.
pub open spec fn catalog_address(board_short: Seq<char>) -> Seq<char> {
    "/"@ + board_short + "/catalog"@
}

/// The address of the catalog of a board.
pub fn catalog_url(board_short: &str) -> (r: String)
    ensures
        r@ == catalog_address(board_short@),
{
    let mut url = concat("/", board_short);
    url.append("/catalog");
    url
}

/// The status of an answer that leads the visitor elsewhere.
pub open spec fn led_on(xhr: bool) -> u16 {
    if xhr {
        NO_CONTENT
    } else {
        SEE_OTHER
    }
}

/// The status of an answer that leads the visitor elsewhere: a browser follows it, a
/// script is told in a header where to go.
pub fn redirect_status(xhr: bool) -> (r: u16)
    ensures
        r == led_on(xhr),
{
    if xhr {
        NO_CONTENT
    } else {
        SEE_OTHER
    }
}

/// A request says that a script made it exactly where its header is `XMLHttpRequest` in
/// letters of any case; a script is answered without content, and a page is led on.
pub proof fn law_scripts_say_so(header: Option<Seq<char>>)
    ensures
        says_script(header) <==> header is Some && text::lower(header->Some_0)
            == "xmlhttprequest"@,
        led_on(true) == 204,
        led_on(false) == 303,
{
    reveal_strlit("XMLHttpRequest");
    reveal_strlit("xmlhttprequest");
    assert(text::lower("XMLHttpRequest"@) =~= "xmlhttprequest"@);
}

/// Threads and posts of a board have addresses of their own, below the board's, and the
/// addresses of a thread's posts and poll are the thread's with a fragment.
pub proof fn law_addresses_tell_apart(board: Seq<char>, a: i64, b: i64, x: i64, y: i64)
    ensures
        thread_address(board, a) == thread_address(board, b) ==> a == b,
        post_address(board, a, x) == post_address(board, a, y) ==> x == y,
        text::begins(thread_address(board, a), "/"@ + board + "/thread/"@),
        text::begins(post_address(board, a, x), thread_address(board, a) + "#p"@),
        text::begins(poll_address(board, a), thread_address(board, a) + "#"@),
        poll_address(board, a) != thread_address(board, a),
        text::begins(catalog_address(board), "/"@ + board + "/"@),
        catalog_address(board) != thread_address(board, a),
        numbers::parsed_i64(
            thread_address(board, a).skip(("/"@ + board + "/thread/"@).len() as int),
        ) == Some(a),
        numbers::parsed_i64(
            post_address(board, a, x).skip((thread_address(board, a) + "#p"@).len() as int),
        ) == Some(x),
{
    reveal_strlit("/");
    reveal_strlit("#");
    reveal_strlit("#p");
    reveal_strlit("#poll");
    reveal_strlit("/thread/");
    reveal_strlit("/catalog");
    numbers::law_decimal_round_trip(a);
    numbers::law_decimal_round_trip(b);
    numbers::law_decimal_round_trip(x);
    numbers::law_decimal_round_trip(y);
    let head = "/"@ + board + "/thread/"@;
    let n = head.len() as int;
    assert(thread_address(board, a).skip(n) =~= numbers::int_text(a as int));
    assert(thread_address(board, b).skip(n) =~= numbers::int_text(b as int));
    assert(thread_address(board, a).take(n) =~= head);
    let post = thread_address(board, a) + "#p"@;
    let m = post.len() as int;
    assert(post_address(board, a, x).skip(m) =~= numbers::int_text(x as int));
    assert(post_address(board, a, y).skip(m) =~= numbers::int_text(y as int));
    assert(post_address(board, a, x).take(m) =~= post);
    let mark = thread_address(board, a) + "#"@;
    assert(poll_address(board, a).take(mark.len() as int) =~= mark);
    assert(poll_address(board, a).len() == thread_address(board, a).len() + 5);
    let own = "/"@ + board + "/"@;
    assert(catalog_address(board).take(own.len() as int) =~= own);
    let k = board.len() as int + 2;
    assert(catalog_address(board)[k] == 'c');
    assert(thread_address(board, a)[k] == 't');
}

} // verus!
