//! What the author of a post may do to it: edit it or delete it, for a short time,
//! from the browser that made it.

use vstd::prelude::*;
use vstd::string::*;
use crate::handlers::thread;
use crate::handlers::thread::{
    catalog_url,
    forbidden,
    missing_board,
    not_found,
    post_url,
    redirect_status,
    thread_url,
    AppError,
    AppErrorView,
    FORBIDDEN,
    NOT_FOUND,
    OK,
    SELF_DELETE_WINDOW_SECS,
    UNPROCESSABLE_ENTITY,
};
use crate::models::{Board, Post, Thread};
use crate::numbers;
use crate::text;

verus! {

/// The form that submits an edit.
#[derive(Debug)]
pub struct EditForm {
    /// The token that proves where the form came from.
    pub csrf: Option<String>,
    /// The new body of the post.
    pub body: String,
}

/// The form that submits a deletion.
#[derive(Debug)]
pub struct DeletePostForm {
    /// The token that proves where the form came from.
    pub csrf: Option<String>,
}

/// What an author may do to a post.
#[derive(Debug, Clone, Copy, PartialEq, Eq, Structural)]
pub enum SelfAction {
    /// Edit it.
    Edit,
    /// Delete it.
    Delete,
}

impl SelfAction {
    /// What is said where the board does not allow the action.
    pub open spec fn disabled_text(self) -> Seq<char> {
        match self {
            SelfAction::Edit => "Users cannot edit their own posts on this board."@,
            SelfAction::Delete => "Users cannot delete their own posts on this board."@,
        }
    }

    /// What is said where the board does not allow the action.
    pub fn disabled_message(self) -> (r: &'static str)
        ensures
            r@ == self.disabled_text(),
    {
        match self {
            SelfAction::Edit => "Users cannot edit their own posts on this board.",
            SelfAction::Delete => "Users cannot delete their own posts on this board.",
        }
    }

    /// What is said once the time for the action is over.
    pub open spec fn closed_text(self) -> Seq<char> {
        match self {
            SelfAction::Edit => "The 60-second edit window for this post has closed."@,
            SelfAction::Delete => "The 60-second self-delete window for this post has closed."@,
        }
    }

    /// What is said once the time for the action is over.
    pub fn closed_message(self) -> (r: &'static str)
        ensures
            r@ == self.closed_text(),
    {
        match self {
            SelfAction::Edit => "The 60-second edit window for this post has closed.",
            SelfAction::Delete => "The 60-second self-delete window for this post has closed.",
        }
    }

    /// What is said to a browser that does not hold the grant for the post.
    pub open spec fn lost_text(self) -> Seq<char> {
        match self {
            SelfAction::Edit =>
                "Edit permission for this post is no longer available in this browser."@,
            SelfAction::Delete =>
                "Delete permission for this post is no longer available in this browser."@,
        }
    }

    /// What is said to a browser that does not hold the grant for the post.
    pub fn lost_message(self) -> (r: &'static str)
        ensures
            r@ == self.lost_text(),
    {
        match self {
            SelfAction::Edit =>
                "Edit permission for this post is no longer available in this browser.",
            SelfAction::Delete =>
                "Delete permission for this post is no longer available in this browser.",
        }
    }
}

/// What is said of a thread that takes no actions of authors any more.
pub const THREAD_CLOSED: &'static str =
    "Self-actions are not available after a thread is locked or archived.";

/// What is said to the author of an opening post that has replies.
pub const THREAD_HAS_REPLIES: &'static str =
    "You can only self-delete a thread starter before anyone replies.";

/// Whether the time for actions of the author is over.
pub open spec fn is_closed(created_at: i64, now: i64) -> bool {
    now - created_at > SELF_DELETE_WINDOW_SECS
}

/// Whether the time for actions of the author is over.
pub fn window_closed(created_at: i64, now: i64) -> (r: bool)
    ensures
        r == is_closed(created_at, now),
{
    now as i128 - created_at as i128 > SELF_DELETE_WINDOW_SECS as i128
}

/// What is known of a post whose author wants to act on it.
#[derive(Debug, Clone, Copy, PartialEq, Eq, Structural)]
pub struct SelfActionPostContext {
    /// The thread of the post.
    pub thread_id: i64,
    /// When the post was made.
    pub created_at: i64,
    /// Whether the board lets authors edit.
    pub allow_editing: bool,
    /// Whether the board lets authors delete.
    pub allow_self_delete: bool,
    /// Whether the visitor may post to the board.
    pub can_post: bool,
    /// Whether the thread takes actions of authors: it is neither locked nor archived.
    pub thread_allows_self_actions: bool,
}

impl SelfActionPostContext {
    /// Whether the board allows the action.
    pub open spec fn allows(self, action: SelfAction) -> bool {
        match action {
            SelfAction::Edit => self.allow_editing,
            SelfAction::Delete => self.allow_self_delete,
        }
    }
}

/// The post with its board and its thread, where they are there and belong together.
pub open spec fn located(
    board_short: Seq<char>,
    board: Option<&Board>,
    post: Option<&Post>,
    thread: Option<&Thread>,
    can_post: bool,
    thread_allows_self_actions: bool,
) -> Result<SelfActionPostContext, AppErrorView> {
    match (board, post) {
        (None, _) => Err(thread::board_missing(board_short)),
        (Some(_), None) => Err(AppErrorView::NotFound("Post not found."@)),
        (Some(board), Some(post)) => if post.board_id != board.id {
            Err(AppErrorView::NotFound("Post not found in this board."@))
        } else {
            match thread {
                None => Err(AppErrorView::NotFound("Thread not found."@)),
                Some(thread) => if thread.board_id != board.id {
                    Err(AppErrorView::NotFound("Thread not found in this board."@))
                } else {
                    Ok(
                        SelfActionPostContext {
                            thread_id: thread.id,
                            created_at: post.created_at,
                            allow_editing: board.allow_editing,
                            allow_self_delete: board.allow_self_delete,
                            can_post,
                            thread_allows_self_actions,
                        },
                    )
                },
            }
        },
    }
}

/// The model of a fallible look-up.
pub open spec fn context_view(r: Result<SelfActionPostContext, AppError>) -> Result<
    SelfActionPostContext,
    AppErrorView,
> {
    match r {
        Ok(context) => Ok(context),
        Err(e) => Err(e@),
    }
}

/// Looks at the rows of a post, its board and its thread, and refuses where one is
/// missing or they do not belong together.
pub fn load_self_action_post_context(
    board_short: &str,
    board: Option<&Board>,
    post: Option<&Post>,
    thread: Option<&Thread>,
    can_post: bool,
    thread_allows_self_actions: bool,
) -> (r: Result<SelfActionPostContext, AppError>)
    ensures
        context_view(r) == located(
            board_short@,
            board,
            post,
            thread,
            can_post,
            thread_allows_self_actions,
        ),
{
    match (board, post) {
        (None, _) => Err(missing_board(board_short)),
        (Some(_), None) => Err(not_found("Post not found.")),
        (Some(board), Some(post)) => {
            if post.board_id != board.id {
                return Err(not_found("Post not found in this board."));
            }
            match thread {
                None => Err(not_found("Thread not found.")),
                Some(thread) => {
                    if thread.board_id != board.id {
                        return Err(not_found("Thread not found in this board."));
                    }
                    Ok(
                        SelfActionPostContext {
                            thread_id: thread.id,
                            created_at: post.created_at,
                            allow_editing: board.allow_editing,
                            allow_self_delete: board.allow_self_delete,
                            can_post,
                            thread_allows_self_actions,
                        },
                    )
                },
            }
        },
    }
}

/// What is shown to a visitor who asks for the form of an action.
#[derive(Debug)]
pub enum PageDecision {
    /// The page that unlocks the board, and then leads to the given address.
    Unlock {
        /// Where the visitor goes afterwards.
        return_to: String,
    },
    /// The form of the action.
    Form,
    /// Nothing: the request is refused.
    Refuse(AppError),
}

/// The model of a page decision.
#[verifier::ext_equal]
pub enum PageDecisionView {
    /// The page that unlocks the board.
    Unlock {
        /// Where the visitor goes afterwards.
        return_to: Seq<char>,
    },
    /// The form of the action.
    Form,
    /// Nothing: the request is refused.
    Refuse(AppErrorView),
}

impl View for PageDecision {
    type V = PageDecisionView;

    open spec fn view(&self) -> PageDecisionView {
        match self {
            PageDecision::Unlock { return_to } => PageDecisionView::Unlock {
                return_to: return_to@,
            },
            PageDecision::Form => PageDecisionView::Form,
            PageDecision::Refuse(e) => PageDecisionView::Refuse(e@),
        }
    }
}

/// What is shown to a visitor who asks for the form of an action. `grant` is when the
/// grant of the browser for the post expires, where it holds one.
pub open spec fn page_for(
    action: SelfAction,
    board_short: Seq<char>,
    context: SelfActionPostContext,
    grant: Option<i64>,
    now: i64,
) -> PageDecisionView {
    if !context.can_post {
        PageDecisionView::Unlock {
            return_to: thread::thread_address(board_short, context.thread_id),
        }
    } else if !context.allows(action) {
        PageDecisionView::Refuse(AppErrorView::Forbidden(action.disabled_text()))
    } else if !context.thread_allows_self_actions {
        PageDecisionView::Refuse(AppErrorView::Forbidden(THREAD_CLOSED@))
    } else if is_closed(context.created_at, now) {
        PageDecisionView::Refuse(AppErrorView::Forbidden(action.closed_text()))
    } else if grant is None || grant->Some_0 <= now {
        PageDecisionView::Refuse(AppErrorView::Forbidden(action.lost_text()))
    } else {
        PageDecisionView::Form
    }
}

/// Decides what is shown to a visitor who asks for the form of an action.
pub fn self_action_page(
    action: SelfAction,
    board_short: &str,
    context: SelfActionPostContext,
    grant: Option<i64>,
    now: i64,
) -> (r: PageDecision)
    ensures
        r@ == page_for(action, board_short@, context, grant, now),
{
    if !context.can_post {
        return PageDecision::Unlock { return_to: thread_url(board_short, context.thread_id) };
    }
    let allowed = match action {
        SelfAction::Edit => context.allow_editing,
        SelfAction::Delete => context.allow_self_delete,
    };
    if !allowed {
        return PageDecision::Refuse(forbidden(action.disabled_message()));
    }
    if !context.thread_allows_self_actions {
        return PageDecision::Refuse(forbidden(THREAD_CLOSED));
    }
    if window_closed(context.created_at, now) {
        return PageDecision::Refuse(forbidden(action.closed_message()));
    }
    match grant {
        None => PageDecision::Refuse(forbidden(action.lost_message())),
        Some(expires_at) => if expires_at <= now {
            PageDecision::Refuse(forbidden(action.lost_message()))
        } else {
            PageDecision::Form
        },
    }
}

/// What is shown to a visitor who asks for the form of an action on a post.
pub open spec fn page_of_post(
    action: SelfAction,
    board_short: Seq<char>,
    located: Result<SelfActionPostContext, AppErrorView>,
    grant: Option<i64>,
    now: i64,
) -> PageDecisionView {
    match located {
        Ok(context) => page_for(action, board_short, context, grant, now),
        Err(e) => PageDecisionView::Refuse(e),
    }
}

/// Decides what is shown to a visitor who wants to edit a post.
pub fn edit_post_get(
    board_short: &str,
    board: Option<&Board>,
    post: Option<&Post>,
    thread: Option<&Thread>,
    can_post: bool,
    thread_allows_self_actions: bool,
    grant: Option<i64>,
    now: i64,
) -> (r: PageDecision)
    ensures
        r@ == page_of_post(
            SelfAction::Edit,
            board_short@,
            located(board_short@, board, post, thread, can_post, thread_allows_self_actions),
            grant,
            now,
        ),
{
    match load_self_action_post_context(
        board_short,
        board,
        post,
        thread,
        can_post,
        thread_allows_self_actions,
    ) {
        Ok(context) => self_action_page(SelfAction::Edit, board_short, context, grant, now),
        Err(e) => PageDecision::Refuse(e),
    }
}

/// Decides what is shown to a visitor who wants to delete a post.
pub fn delete_post_get(
    board_short: &str,
    board: Option<&Board>,
    post: Option<&Post>,
    thread: Option<&Thread>,
    can_post: bool,
    thread_allows_self_actions: bool,
    grant: Option<i64>,
    now: i64,
) -> (r: PageDecision)
    ensures
        r@ == page_of_post(
            SelfAction::Delete,
            board_short@,
            located(board_short@, board, post, thread, can_post, thread_allows_self_actions),
            grant,
            now,
        ),
{
    match load_self_action_post_context(
        board_short,
        board,
        post,
        thread,
        can_post,
        thread_allows_self_actions,
    ) {
        Ok(context) => self_action_page(SelfAction::Delete, board_short, context, grant, now),
        Err(e) => PageDecision::Refuse(e),
    }
}

/// What is answered to a visitor who submits an action.
#[derive(Debug)]
pub enum ActionReply {
    /// The token of the form is refused.
    CsrfRefused,
    /// The visitor is led to the page that unlocks the board, and then to the given
    /// address.
    Unlock {
        /// Where the visitor goes afterwards.
        return_to: String,
        /// Whether a script made the request.
        xhr: bool,
    },
    /// The post was edited: the visitor is led to it.
    Edited {
        /// The status of the answer.
        status: u16,
        /// Where the visitor is led.
        url: String,
        /// Whether a script made the request.
        xhr: bool,
    },
    /// The post was deleted: its grant is forgotten and the visitor is led on.
    Deleted {
        /// Where the visitor is led.
        url: String,
    },
    /// A script is told what is wrong.
    Problem {
        /// The status of the answer.
        status: u16,
        /// The status of what went wrong, which stands in a header.
        error_status: u16,
        /// What is wrong.
        message: String,
    },
    /// The form is shown again with what the visitor had written, and says what is
    /// wrong.
    FormAgain {
        /// The status of the answer.
        status: u16,
        /// What the visitor had written.
        body: String,
        /// What is wrong.
        message: String,
    },
    /// The request is refused.
    Refuse(AppError),
}

/// The model of the answer to an action.
#[verifier::ext_equal]
pub enum ActionReplyView {
    /// The token of the form is refused.
    CsrfRefused,
    /// The visitor is led to the page that unlocks the board.
    Unlock {
        /// Where the visitor goes afterwards.
        return_to: Seq<char>,
        /// Whether a script made the request.
        xhr: bool,
    },
    /// The post was edited.
    Edited {
        /// The status of the answer.
        status: u16,
        /// Where the visitor is led.
        url: Seq<char>,
        /// Whether a script made the request.
        xhr: bool,
    },
    /// The post was deleted.
    Deleted {
        /// Where the visitor is led.
        url: Seq<char>,
    },
    /// A script is told what is wrong.
    Problem {
        /// The status of the answer.
        status: u16,
        /// The status of what went wrong, which stands in a header.
        error_status: u16,
        /// What is wrong.
        message: Seq<char>,
    },
    /// The form is shown again.
    FormAgain {
        /// The status of the answer.
        status: u16,
        /// What the visitor had written.
        body: Seq<char>,
        /// What is wrong.
        message: Seq<char>,
    },
    /// The request is refused.
    Refuse(AppErrorView),
}

impl View for ActionReply {
    type V = ActionReplyView;

    open spec fn view(&self) -> ActionReplyView {
        match self {
            ActionReply::CsrfRefused => ActionReplyView::CsrfRefused,
            ActionReply::Unlock { return_to, xhr } => ActionReplyView::Unlock {
                return_to: return_to@,
                xhr: *xhr,
            },
            ActionReply::Edited { status, url, xhr } => ActionReplyView::Edited {
                status: *status,
                url: url@,
                xhr: *xhr,
            },
            ActionReply::Deleted { url } => ActionReplyView::Deleted { url: url@ },
            ActionReply::Problem { status, error_status, message } => ActionReplyView::Problem {
                status: *status,
                error_status: *error_status,
                message: message@,
            },
            ActionReply::FormAgain { status, body, message } => ActionReplyView::FormAgain {
                status: *status,
                body: body@,
                message: message@,
            },
            ActionReply::Refuse(e) => ActionReplyView::Refuse(e@),
        }
    }
}

/// Whether an edit may be made, before its text is looked at.
pub open spec fn edit_admitted(
    board_short: Seq<char>,
    board: Option<&Board>,
    post: Option<&Post>,
    now: i64,
) -> Result<(), AppErrorView> {
    match (board, post) {
        (None, _) => Err(thread::board_missing(board_short)),
        (Some(_), None) => Err(AppErrorView::NotFound("Post not found."@)),
        (Some(board), Some(post)) => if post.board_id != board.id {
            Err(AppErrorView::NotFound("Post not found in this board."@))
        } else if !board.allow_editing {
            Err(AppErrorView::Forbidden(SelfAction::Edit.disabled_text()))
        } else if is_closed(post.created_at, now) {
            Err(AppErrorView::Forbidden(SelfAction::Edit.closed_text()))
        } else {
            Ok(())
        },
    }
}

/// The model of a check.
pub open spec fn check_view(r: Result<(), AppError>) -> Result<(), AppErrorView> {
    match r {
        Ok(_) => Ok(()),
        Err(e) => Err(e@),
    }
}

/// Decides whether an edit may be made, before its text is looked at.
pub fn admit_edit(board_short: &str, board: Option<&Board>, post: Option<&Post>, now: i64) -> (r:
    Result<(), AppError>)
    ensures
        check_view(r) == edit_admitted(board_short@, board, post, now),
{
    match (board, post) {
        (None, _) => Err(missing_board(board_short)),
        (Some(_), None) => Err(not_found("Post not found.")),
        (Some(board), Some(post)) => {
            if post.board_id != board.id {
                Err(not_found("Post not found in this board."))
            } else if !board.allow_editing {
                Err(forbidden(SelfAction::Edit.disabled_message()))
            } else if window_closed(post.created_at, now) {
                Err(forbidden(SelfAction::Edit.closed_message()))
            } else {
                Ok(())
            }
        },
    }
}

/// What an edit comes to: where the visitor is led, or why it was not made. `body` is
/// what is wrong with the new text, if anything, and `written` whether the database
/// took the edit.
pub open spec fn edit_outcome(
    board_short: Seq<char>,
    board: Option<&Board>,
    post: Option<&Post>,
    post_id: i64,
    now: i64,
    body: Option<Seq<char>>,
    written: bool,
) -> Result<Seq<char>, AppErrorView> {
    match edit_admitted(board_short, board, post, now) {
        Err(e) => Err(e),
        Ok(_) => if body is Some {
            Err(AppErrorView::BadRequest(body->Some_0))
        } else if !written {
            Err(AppErrorView::Forbidden(SelfAction::Edit.lost_text()))
        } else {
            Ok(
                thread::post_address(
                    board->Some_0.short_name@,
                    post->Some_0.thread_id,
                    post_id,
                ),
            )
        },
    }
}

/// The model of a fallible address.
pub open spec fn url_view(r: Result<String, AppError>) -> Result<Seq<char>, AppErrorView> {
    match r {
        Ok(url) => Ok(url@),
        Err(e) => Err(e@),
    }
}

/// Says what an edit comes to.
pub fn settle_edit(
    board_short: &str,
    board: Option<&Board>,
    post: Option<&Post>,
    post_id: i64,
    now: i64,
    body_problem: Option<&str>,
    written: bool,
) -> (r: Result<String, AppError>)
    ensures
        url_view(r) == edit_outcome(
            board_short@,
            board,
            post,
            post_id,
            now,
            text::opt_str(body_problem),
            written,
        ),
{
    match admit_edit(board_short, board, post, now) {
        Err(e) => Err(e),
        Ok(_) => {
            match body_problem {
                Some(message) => {
                    return Err(AppError::BadRequest(message.to_owned()));
                },
                None => {},
            }
            if !written {
                return Err(forbidden(SelfAction::Edit.lost_message()));
            }
            match (board, post) {
                (Some(board), Some(post)) => Ok(
                    post_url(board.short_name.as_str(), post.thread_id, post_id),
                ),
                _ => Err(AppError::Other),
            }
        },
    }
}

/// The answer to an edit that came to the given outcome. `body` is what the visitor
/// had written.
pub open spec fn edit_reply(
    xhr: bool,
    body: Seq<char>,
    outcome: Result<Seq<char>, AppErrorView>,
) -> ActionReplyView {
    match outcome {
        Ok(url) => ActionReplyView::Edited { status: thread::led_on(xhr), url, xhr },
        Err(AppErrorView::BadRequest(message)) => if xhr {
            ActionReplyView::Problem { status: OK, error_status: UNPROCESSABLE_ENTITY, message }
        } else {
            ActionReplyView::FormAgain { status: UNPROCESSABLE_ENTITY, body, message }
        },
        Err(AppErrorView::Forbidden(message)) => if xhr {
            ActionReplyView::Problem { status: OK, error_status: FORBIDDEN, message }
        } else {
            ActionReplyView::Refuse(AppErrorView::Forbidden(message))
        },
        Err(AppErrorView::NotFound(message)) => if xhr {
            ActionReplyView::Problem { status: OK, error_status: NOT_FOUND, message }
        } else {
            ActionReplyView::Refuse(AppErrorView::NotFound(message))
        },
        Err(AppErrorView::Other) => ActionReplyView::Refuse(AppErrorView::Other),
    }
}

/// Answers an edit that came to the given outcome.
pub fn answer_edit(xhr: bool, body: &str, outcome: Result<String, AppError>) -> (r: ActionReply)
    ensures
        r@ == edit_reply(xhr, body@, url_view(outcome)),
{
    match outcome {
        Ok(url) => ActionReply::Edited { status: redirect_status(xhr), url, xhr },
        Err(AppError::BadRequest(message)) => if xhr {
            ActionReply::Problem { status: OK, error_status: UNPROCESSABLE_ENTITY, message }
        } else {
            ActionReply::FormAgain {
                status: UNPROCESSABLE_ENTITY,
                body: body.to_owned(),
                message,
            }
        },
        Err(AppError::Forbidden(message)) => if xhr {
            ActionReply::Problem { status: OK, error_status: FORBIDDEN, message }
        } else {
            ActionReply::Refuse(AppError::Forbidden(message))
        },
        Err(AppError::NotFound(message)) => if xhr {
            ActionReply::Problem { status: OK, error_status: NOT_FOUND, message }
        } else {
            ActionReply::Refuse(AppError::NotFound(message))
        },
        Err(AppError::Other) => ActionReply::Refuse(AppError::Other),
    }
}

/// What is answered before the database is asked, if the request ends there: the token
/// must be accepted, the browser must hold the grant, and the board must be unlocked.
/// `grant` is the thread that the grant names.
pub open spec fn turned_away(
    action: SelfAction,
    board_short: Seq<char>,
    xhr: bool,
    csrf_accepted: bool,
    grant: Option<i64>,
    can_post: bool,
) -> Option<ActionReplyView> {
    if !csrf_accepted {
        Some(ActionReplyView::CsrfRefused)
    } else if grant is None {
        Some(ActionReplyView::Refuse(AppErrorView::Forbidden(action.lost_text())))
    } else if !can_post {
        Some(
            ActionReplyView::Unlock {
                return_to: thread::thread_address(board_short, grant->Some_0),
                xhr,
            },
        )
    } else {
        None
    }
}

/// Answers a request that ends before the database is asked.
pub fn turn_away(
    action: SelfAction,
    board_short: &str,
    xhr: bool,
    csrf_accepted: bool,
    grant: Option<i64>,
    can_post: bool,
) -> (r: Option<ActionReply>)
    ensures
        text::opt_view(r) == turned_away(
            action,
            board_short@,
            xhr,
            csrf_accepted,
            grant,
            can_post,
        ),
{
    if !csrf_accepted {
        return Some(ActionReply::CsrfRefused);
    }
    match grant {
        None => Some(ActionReply::Refuse(forbidden(action.lost_message()))),
        Some(thread_id) => if !can_post {
            Some(ActionReply::Unlock { return_to: thread_url(board_short, thread_id), xhr })
        } else {
            None
        },
    }
}

/// What is answered to a visitor who submits an edit.
pub open spec fn edited(
    board_short: Seq<char>,
    xhr: bool,
    csrf_accepted: bool,
    grant: Option<i64>,
    can_post: bool,
    body: Seq<char>,
    outcome: Result<Seq<char>, AppErrorView>,
) -> ActionReplyView {
    match turned_away(SelfAction::Edit, board_short, xhr, csrf_accepted, grant, can_post) {
        Some(reply) => reply,
        None => edit_reply(xhr, body, outcome),
    }
}

/// Answers a visitor who submits an edit.
pub fn edit_post_post(
    board_short: &str,
    post_id: i64,
    xhr: bool,
    csrf_accepted: bool,
    grant: Option<i64>,
    can_post: bool,
    board: Option<&Board>,
    post: Option<&Post>,
    now: i64,
    body: &str,
    body_problem: Option<&str>,
    written: bool,
) -> (r: ActionReply)
    ensures
        r@ == edited(
            board_short@,
            xhr,
            csrf_accepted,
            grant,
            can_post,
            body@,
            edit_outcome(
                board_short@,
                board,
                post,
                post_id,
                now,
                text::opt_str(body_problem),
                written,
            ),
        ),
{
    match turn_away(SelfAction::Edit, board_short, xhr, csrf_accepted, grant, can_post) {
        Some(reply) => reply,
        None => {
            let outcome = settle_edit(
                board_short,
                board,
                post,
                post_id,
                now,
                body_problem,
                written,
            );
            answer_edit(xhr, body, outcome)
        },
    }
}

/// What the database says of a deletion by the author.
#[derive(Debug, Clone, Copy, PartialEq, Eq, Structural)]
pub enum SelfDeleteOutcome {
    /// The post was a reply and is gone.
    DeletedReply,
    /// The post opened a thread, and the thread is gone.
    DeletedThread,
    /// There is no such post.
    NotFound,
    /// The grant does not match the post.
    WrongToken,
    /// The time for deletions is over.
    WindowClosed,
    /// The thread is locked or archived.
    ThreadClosed,
    /// The post opened a thread that has replies.
    ThreadHasReplies,
}

/// Whether a deletion may be made, before the database tries it.
pub open spec fn delete_admitted(
    board_short: Seq<char>,
    board: Option<&Board>,
    post: Option<&Post>,
) -> Result<(), AppErrorView> {
    match (post, board) {
        (None, _) => Err(AppErrorView::NotFound("Post not found."@)),
        (Some(_), None) => Err(thread::board_missing(board_short)),
        (Some(post), Some(board)) => if post.board_id != board.id {
            Err(AppErrorView::NotFound("Post not found in this board."@))
        } else if !board.allow_self_delete {
            Err(AppErrorView::Forbidden(SelfAction::Delete.disabled_text()))
        } else {
            Ok(())
        },
    }
}

/// Decides whether a deletion may be made, before the database tries it.
pub fn admit_delete(board_short: &str, board: Option<&Board>, post: Option<&Post>) -> (r: Result<
    (),
    AppError,
>)
    ensures
        check_view(r) == delete_admitted(board_short@, board, post),
{
    match (post, board) {
        (None, _) => Err(not_found("Post not found.")),
        (Some(_), None) => Err(missing_board(board_short)),
        (Some(post), Some(board)) => {
            if post.board_id != board.id {
                Err(not_found("Post not found in this board."))
            } else if !board.allow_self_delete {
                Err(forbidden(SelfAction::Delete.disabled_message()))
            } else {
                Ok(())
            }
        },
    }
}

/// The answer to a deletion that the database tried.
pub open spec fn delete_reply(
    board_short: Seq<char>,
    thread_id: i64,
    outcome: SelfDeleteOutcome,
) -> ActionReplyView {
    match outcome {
        SelfDeleteOutcome::DeletedReply => ActionReplyView::Deleted {
            url: thread::thread_address(board_short, thread_id),
        },
        SelfDeleteOutcome::DeletedThread => ActionReplyView::Deleted {
            url: thread::catalog_address(board_short),
        },
        SelfDeleteOutcome::NotFound => ActionReplyView::Refuse(
            AppErrorView::NotFound("Post not found."@),
        ),
        SelfDeleteOutcome::WrongToken => ActionReplyView::Refuse(
            AppErrorView::Forbidden(SelfAction::Delete.lost_text()),
        ),
        SelfDeleteOutcome::WindowClosed => ActionReplyView::Refuse(
            AppErrorView::Forbidden(SelfAction::Delete.closed_text()),
        ),
        SelfDeleteOutcome::ThreadClosed => ActionReplyView::Refuse(
            AppErrorView::Forbidden(THREAD_CLOSED@),
        ),
        SelfDeleteOutcome::ThreadHasReplies => ActionReplyView::Refuse(
            AppErrorView::Forbidden(THREAD_HAS_REPLIES@),
        ),
    }
}

/// Answers a deletion that the database tried.
pub fn answer_delete(board_short: &str, thread_id: i64, outcome: SelfDeleteOutcome) -> (r:
    ActionReply)
    ensures
        r@ == delete_reply(board_short@, thread_id, outcome),
{
    match outcome {
        SelfDeleteOutcome::DeletedReply => ActionReply::Deleted {
            url: thread_url(board_short, thread_id),
        },
        SelfDeleteOutcome::DeletedThread => ActionReply::Deleted { url: catalog_url(board_short) },
        SelfDeleteOutcome::NotFound => ActionReply::Refuse(not_found("Post not found.")),
        SelfDeleteOutcome::WrongToken => ActionReply::Refuse(
            forbidden(SelfAction::Delete.lost_message()),
        ),
        SelfDeleteOutcome::WindowClosed => ActionReply::Refuse(
            forbidden(SelfAction::Delete.closed_message()),
        ),
        SelfDeleteOutcome::ThreadClosed => ActionReply::Refuse(forbidden(THREAD_CLOSED)),
        SelfDeleteOutcome::ThreadHasReplies => ActionReply::Refuse(forbidden(THREAD_HAS_REPLIES)),
    }
}

/// What is answered to a visitor who submits a deletion.
pub open spec fn deleted(
    board_short: Seq<char>,
    csrf_accepted: bool,
    grant: Option<i64>,
    can_post: bool,
    board: Option<&Board>,
    post: Option<&Post>,
    outcome: SelfDeleteOutcome,
) -> ActionReplyView {
    match turned_away(SelfAction::Delete, board_short, false, csrf_accepted, grant, can_post) {
        Some(reply) => reply,
        None => match delete_admitted(board_short, board, post) {
            Err(e) => ActionReplyView::Refuse(e),
            Ok(_) => delete_reply(board_short, post->Some_0.thread_id, outcome),
        },
    }
}

/// Answers a visitor who submits a deletion.
pub fn delete_own_post(
    board_short: &str,
    csrf_accepted: bool,
    grant: Option<i64>,
    can_post: bool,
    board: Option<&Board>,
    post: Option<&Post>,
    outcome: SelfDeleteOutcome,
) -> (r: ActionReply)
    ensures
        r@ == deleted(board_short@, csrf_accepted, grant, can_post, board, post, outcome),
{
    match turn_away(SelfAction::Delete, board_short, false, csrf_accepted, grant, can_post) {
        Some(reply) => reply,
        None => match admit_delete(board_short, board, post) {
            Err(e) => ActionReply::Refuse(e),
            Ok(_) => match post {
                Some(post) => answer_delete(board_short, post.thread_id, outcome),
                None => ActionReply::Refuse(AppError::Other),
            },
        },
    }
}

/// The form of an action is shown only to a visitor who may post, on a board that
/// allows the action, in a thread that takes it, within the time for it, and in a
/// browser whose grant has not expired; and to every such visitor.
pub proof fn law_form_is_shown_exactly_when_allowed(
    action: SelfAction,
    board_short: Seq<char>,
    context: SelfActionPostContext,
    grant: Option<i64>,
    now: i64,
)
    ensures
        page_for(action, board_short, context, grant, now) is Form <==> {
            &&& context.can_post
            &&& context.allows(action)
            &&& context.thread_allows_self_actions
            &&& now <= context.created_at + SELF_DELETE_WINDOW_SECS
            &&& grant is Some
            &&& grant->Some_0 > now
        },
{
}

/// The settings for editing and for deleting are independent: neither decides about
/// the other action.
pub proof fn law_toggles_are_independent(
    board_short: Seq<char>,
    context: SelfActionPostContext,
    other: bool,
    grant: Option<i64>,
    now: i64,
)
    ensures
        page_for(
            SelfAction::Edit,
            board_short,
            SelfActionPostContext { allow_self_delete: other, ..context },
            grant,
            now,
        ) == page_for(SelfAction::Edit, board_short, context, grant, now),
        page_for(
            SelfAction::Delete,
            board_short,
            SelfActionPostContext { allow_editing: other, ..context },
            grant,
            now,
        ) == page_for(SelfAction::Delete, board_short, context, grant, now),
{
}

/// Editing and deleting share one window: on a board that allows both, the two forms
/// are shown at the same times.
pub proof fn law_window_is_shared(
    board_short: Seq<char>,
    context: SelfActionPostContext,
    grant: Option<i64>,
    now: i64,
)
    requires
        context.allow_editing,
        context.allow_self_delete,
    ensures
        page_for(SelfAction::Edit, board_short, context, grant, now) is Form <==> page_for(
            SelfAction::Delete,
            board_short,
            context,
            grant,
            now,
        ) is Form,
{
}

/// Where the edit form is shown, an edit submitted at the same time is not refused for
/// the board, the post or the time.
pub proof fn law_shown_edit_forms_are_admitted(
    board_short: Seq<char>,
    board: Option<&Board>,
    post: Option<&Post>,
    thread: Option<&Thread>,
    can_post: bool,
    thread_allows_self_actions: bool,
    grant: Option<i64>,
    now: i64,
)
    requires
        page_of_post(
            SelfAction::Edit,
            board_short,
            located(board_short, board, post, thread, can_post, thread_allows_self_actions),
            grant,
            now,
        ) is Form,
    ensures
        edit_admitted(board_short, board, post, now) is Ok,
{
}

/// Without an accepted token, a grant and the right to post, nothing is edited or
/// deleted, whatever the database would say.
pub proof fn law_actions_need_token_grant_and_access(
    board_short: Seq<char>,
    xhr: bool,
    csrf_accepted: bool,
    grant: Option<i64>,
    can_post: bool,
    body: Seq<char>,
    edit: Result<Seq<char>, AppErrorView>,
    board: Option<&Board>,
    post: Option<&Post>,
    outcome: SelfDeleteOutcome,
)
    requires
        !csrf_accepted || grant is None || !can_post,
    ensures
        !(edited(board_short, xhr, csrf_accepted, grant, can_post, body, edit) is Edited),
        !(deleted(board_short, csrf_accepted, grant, can_post, board, post, outcome) is Deleted),
{
}

/// A script and a browser get the same edit made or refused; only the shape of the
/// answer differs, and a browser that must correct its text gets it back.
pub proof fn law_scripts_get_the_same_outcome(
    body: Seq<char>,
    outcome: Result<Seq<char>, AppErrorView>,
)
    ensures
        edit_reply(true, body, outcome) is Edited <==> edit_reply(false, body, outcome) is Edited,
        edit_reply(true, body, outcome) is Edited <==> outcome is Ok,
        !(edit_reply(true, body, outcome) is FormAgain),
        !(edit_reply(false, body, outcome) is Problem),
        edit_reply(false, body, outcome) is FormAgain ==> edit_reply(
            false,
            body,
            outcome,
        )->FormAgain_body == body,
{
}

/// A submitted edit is made exactly where everything that it takes is there: an accepted
/// token, a grant, the right to post, the board and the post on it, a board that lets its
/// authors edit, not more than sixty seconds since the post was made, a text without
/// problems, and a database that took it.
pub proof fn law_edits_are_made_exactly_when_allowed(
    board_short: Seq<char>,
    post_id: i64,
    xhr: bool,
    csrf_accepted: bool,
    grant: Option<i64>,
    can_post: bool,
    board: Option<&Board>,
    post: Option<&Post>,
    now: i64,
    body: Seq<char>,
    body_problem: Option<Seq<char>>,
    written: bool,
)
    ensures
        edited(
            board_short,
            xhr,
            csrf_accepted,
            grant,
            can_post,
            body,
            edit_outcome(board_short, board, post, post_id, now, body_problem, written),
        ) is Edited <==> {
            &&& csrf_accepted
            &&& grant is Some
            &&& can_post
            &&& board is Some
            &&& post is Some
            &&& post->Some_0.board_id == board->Some_0.id
            &&& board->Some_0.allow_editing
            &&& now - post->Some_0.created_at <= 60
            &&& body_problem is None
            &&& written
        },
{
}

/// What an author reads after an edit, for each way in which it can go: the first thing
/// that is missing decides. A browser is led to the post or refused; a script always
/// reads an answer with status 200 that names the status of what went wrong, or is led to
/// the post.
pub proof fn law_refused_edits_say_why(
    board_short: Seq<char>,
    post_id: i64,
    csrf_accepted: bool,
    grant: Option<i64>,
    can_post: bool,
    board: Option<&Board>,
    post: Option<&Post>,
    now: i64,
    body: Seq<char>,
    body_problem: Option<Seq<char>>,
    written: bool,
)
    ensures
        ({
            let outcome = edit_outcome(
                board_short,
                board,
                post,
                post_id,
                now,
                body_problem,
                written,
            );
            let page = edited(board_short, false, csrf_accepted, grant, can_post, body, outcome);
            let script = edited(board_short, true, csrf_accepted, grant, can_post, body, outcome);
            let admitted = csrf_accepted && grant is Some && can_post;
            let there = admitted && board is Some && post is Some && post->Some_0.board_id
                == board->Some_0.id;
            let refused = |status: u16, message: Seq<char>|
                {
                    &&& page == ActionReplyView::Refuse(
                        if status == 403 {
                            AppErrorView::Forbidden(message)
                        } else {
                            AppErrorView::NotFound(message)
                        },
                    )
                    &&& script == ActionReplyView::Problem {
                        status: 200,
                        error_status: status,
                        message,
                    }
                };
            &&& !csrf_accepted ==> page is CsrfRefused && script is CsrfRefused
            &&& csrf_accepted && grant is None ==> page == script && page
                == ActionReplyView::Refuse(
                AppErrorView::Forbidden(
                    "Edit permission for this post is no longer available in this browser."@,
                ),
            )
            &&& csrf_accepted && grant is Some && !can_post ==> page == (ActionReplyView::Unlock {
                return_to: "/"@ + board_short + "/thread/"@ + numbers::int_text(
                    grant->Some_0 as int,
                ),
                xhr: false,
            })
            &&& admitted && board is Some && post is None ==> refused(404, "Post not found."@)
            &&& admitted && board is Some && post is Some && post->Some_0.board_id
                != board->Some_0.id ==> refused(404, "Post not found in this board."@)
            &&& there && !board->Some_0.allow_editing ==> refused(
                403,
                "Users cannot edit their own posts on this board."@,
            )
            &&& there && board->Some_0.allow_editing && now - post->Some_0.created_at > 60
                ==> refused(403, "The 60-second edit window for this post has closed."@)
            &&& there && board->Some_0.allow_editing && now - post->Some_0.created_at <= 60
                && body_problem is Some ==> {
                &&& page == ActionReplyView::FormAgain {
                    status: 422,
                    body,
                    message: body_problem->Some_0,
                }
                &&& script == ActionReplyView::Problem {
                    status: 200,
                    error_status: 422,
                    message: body_problem->Some_0,
                }
            }
            &&& there && board->Some_0.allow_editing && now - post->Some_0.created_at <= 60
                && body_problem is None && !written ==> refused(
                403,
                "Edit permission for this post is no longer available in this browser."@,
            )
            &&& there && board->Some_0.allow_editing && now - post->Some_0.created_at <= 60
                && body_problem is None && written ==> {
                let url = "/"@ + board->Some_0.short_name@ + "/thread/"@ + numbers::int_text(
                    post->Some_0.thread_id as int,
                ) + "#p"@ + numbers::int_text(post_id as int);
                &&& page == ActionReplyView::Edited { status: 303, url, xhr: false }
                &&& script == ActionReplyView::Edited { status: 204, url, xhr: true }
            }
        }),
{
}

/// A submitted deletion is made exactly where everything that it takes is there: an
/// accepted token, a grant, the right to post, the board and the post on it, a board that
/// lets its authors delete, and a database that removed the post.
pub proof fn law_deletions_are_made_exactly_when_allowed(
    board_short: Seq<char>,
    csrf_accepted: bool,
    grant: Option<i64>,
    can_post: bool,
    board: Option<&Board>,
    post: Option<&Post>,
    outcome: SelfDeleteOutcome,
)
    ensures
        ({
            let reply = deleted(
                board_short,
                csrf_accepted,
                grant,
                can_post,
                board,
                post,
                outcome,
            );
            let asked = csrf_accepted && grant is Some && can_post && board is Some && post is Some
                && post->Some_0.board_id == board->Some_0.id;
            let admitted = asked && board->Some_0.allow_self_delete;
            let forbidden = |message: Seq<char>|
                reply == ActionReplyView::Refuse(AppErrorView::Forbidden(message));
            &&& reply is Deleted <==> admitted && (outcome is DeletedReply
                || outcome is DeletedThread)
            &&& admitted && outcome is DeletedReply ==> reply->Deleted_url == "/"@ + board_short
                + "/thread/"@ + numbers::int_text(post->Some_0.thread_id as int)
            &&& admitted && outcome is DeletedThread ==> reply->Deleted_url == "/"@ + board_short
                + "/catalog"@
            &&& !csrf_accepted ==> reply is CsrfRefused
            &&& asked && !board->Some_0.allow_self_delete ==> forbidden(
                "Users cannot delete their own posts on this board."@,
            )
            &&& admitted && outcome is NotFound ==> reply == ActionReplyView::Refuse(
                AppErrorView::NotFound("Post not found."@),
            )
            &&& admitted && outcome is WrongToken ==> forbidden(
                "Delete permission for this post is no longer available in this browser."@,
            )
            &&& admitted && outcome is WindowClosed ==> forbidden(
                "The 60-second self-delete window for this post has closed."@,
            )
            &&& admitted && outcome is ThreadClosed ==> forbidden(
                "Self-actions are not available after a thread is locked or archived."@,
            )
            &&& admitted && outcome is ThreadHasReplies ==> forbidden(
                "You can only self-delete a thread starter before anyone replies."@,
            )
            &&& csrf_accepted && grant is Some && can_post && post is None ==> reply
                == ActionReplyView::Refuse(AppErrorView::NotFound("Post not found."@))
            &&& csrf_accepted && grant is None ==> forbidden(
                "Delete permission for this post is no longer available in this browser."@,
            )
        }),
{
}

/// The form of an edit or a deletion is shown exactly where the board, the post on it and
/// its thread on it are there, the visitor may post, the board allows the action, the
/// thread takes it, not more than sixty seconds have passed since the post was made, and
/// the browser holds a grant that has not expired.
pub proof fn law_own_post_forms_are_shown_exactly_when_allowed(
    board_short: Seq<char>,
    board: Option<&Board>,
    post: Option<&Post>,
    thread: Option<&Thread>,
    can_post: bool,
    thread_allows_self_actions: bool,
    grant: Option<i64>,
    now: i64,
)
    ensures
        ({
            let found = located(
                board_short,
                board,
                post,
                thread,
                can_post,
                thread_allows_self_actions,
            );
            let there = board is Some && post is Some && thread is Some && post->Some_0.board_id
                == board->Some_0.id && thread->Some_0.board_id == board->Some_0.id;
            let open = there && can_post && thread_allows_self_actions && now
                - post->Some_0.created_at <= 60 && grant is Some && grant->Some_0 > now;
            let edit = page_of_post(SelfAction::Edit, board_short, found, grant, now);
            let delete = page_of_post(SelfAction::Delete, board_short, found, grant, now);
            &&& edit is Form <==> open && board->Some_0.allow_editing
            &&& delete is Form <==> open && board->Some_0.allow_self_delete
            &&& there && !can_post ==> edit == (PageDecisionView::Unlock {
                return_to: "/"@ + board_short + "/thread/"@ + numbers::int_text(
                    thread->Some_0.id as int,
                ),
            }) && delete == edit
            &&& there && can_post && !board->Some_0.allow_editing ==> edit
                == PageDecisionView::Refuse(
                AppErrorView::Forbidden("Users cannot edit their own posts on this board."@),
            )
            &&& there && can_post && !board->Some_0.allow_self_delete ==> delete
                == PageDecisionView::Refuse(
                AppErrorView::Forbidden("Users cannot delete their own posts on this board."@),
            )
            &&& !there ==> edit is Refuse && edit->Refuse_0 is NotFound && delete == edit
        }),
{
}

} // verus!
