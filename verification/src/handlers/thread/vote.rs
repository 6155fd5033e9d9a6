//! Votes in polls.

use vstd::prelude::*;
use vstd::string::*;
use crate::handlers::thread;
use crate::handlers::thread::{bad_request, not_found, poll_url, AppError, AppErrorView};

verus! {

/// The form that submits a vote.
#[derive(Debug)]
pub struct VoteForm {
    /// The token that proves where the form came from.
    pub csrf: Option<String>,
    /// The choice voted for.
    pub option_id: i64,
}

/// Where the choice of a vote belongs.
#[derive(Debug)]
pub struct PollContext {
    /// The poll of the choice.
    pub poll_id: i64,
    /// The thread of the poll.
    pub thread_id: i64,
    /// The short name of the board of the thread.
    pub board_short: String,
}

/// The model of a choice's context.
#[verifier::ext_equal]
pub struct PollContextView {
    /// The poll of the choice.
    pub poll_id: i64,
    /// The thread of the poll.
    pub thread_id: i64,
    /// The short name of the board of the thread.
    pub board_short: Seq<char>,
}

impl View for PollContext {
    type V = PollContextView;

    open spec fn view(&self) -> PollContextView {
        PollContextView {
            poll_id: self.poll_id,
            thread_id: self.thread_id,
            board_short: self.board_short@,
        }
    }
}

/// The model of an optional context.
pub open spec fn poll_view(context: Option<&PollContext>) -> Option<PollContextView> {
    match context {
        Some(c) => Some(c@),
        None => None,
    }
}

/// What is answered to a vote, or done about it next.
#[derive(Debug)]
pub enum VoteReply {
    /// The token of the form is refused.
    CsrfRefused,
    /// The visitor is led to the page that unlocks the board, and then to the given
    /// address.
    Unlock {
        /// Where the visitor goes afterwards.
        return_to: String,
    },
    /// The vote is recorded in the poll, and the visitor led to the given address.
    Cast {
        /// The poll that the vote is recorded in.
        poll_id: i64,
        /// Where the visitor is led.
        url: String,
    },
    /// The request is refused.
    Refuse(AppError),
}

/// The model of the answer to a vote.
#[verifier::ext_equal]
pub enum VoteReplyView {
    /// The token of the form is refused.
    CsrfRefused,
    /// The visitor is led to the page that unlocks the board.
    Unlock {
        /// Where the visitor goes afterwards.
        return_to: Seq<char>,
    },
    /// The vote is recorded.
    Cast {
        /// The poll that the vote is recorded in.
        poll_id: i64,
        /// Where the visitor is led.
        url: Seq<char>,
    },
    /// The request is refused.
    Refuse(AppErrorView),
}

impl View for VoteReply {
    type V = VoteReplyView;

    open spec fn view(&self) -> VoteReplyView {
        match self {
            VoteReply::CsrfRefused => VoteReplyView::CsrfRefused,
            VoteReply::Unlock { return_to } => VoteReplyView::Unlock { return_to: return_to@ },
            VoteReply::Cast { poll_id, url } => VoteReplyView::Cast { poll_id: *poll_id, url: url@ },
            VoteReply::Refuse(e) => VoteReplyView::Refuse(e@),
        }
    }
}

/// What is said of a choice that no poll has.
pub const INVALID_OPTION: &'static str = "Invalid poll option.";

/// What is said of a choice that is not there.
pub const OPTION_MISSING: &'static str = "Poll option not found.";

/// What is said of a poll that takes no votes any more.
pub const POLL_CLOSED: &'static str = "This poll has closed.";

/// What a vote comes to once the board is known to be open to the visitor. `context`
/// is read again, `expires_at` is when the poll closes, and `belongs` how many choices
/// of the poll have the given number.
pub open spec fn vote_outcome(
    context: Option<PollContextView>,
    expires_at: i64,
    now: i64,
    belongs: i64,
) -> VoteReplyView {
    match context {
        None => VoteReplyView::Refuse(AppErrorView::NotFound(OPTION_MISSING@)),
        Some(c) => if expires_at <= now {
            VoteReplyView::Refuse(AppErrorView::BadRequest(POLL_CLOSED@))
        } else if belongs == 0 {
            VoteReplyView::Refuse(AppErrorView::BadRequest(INVALID_OPTION@))
        } else {
            VoteReplyView::Cast {
                poll_id: c.poll_id,
                url: thread::poll_address(c.board_short, c.thread_id),
            }
        },
    }
}

/// Says what a vote comes to once the board is known to be open to the visitor.
pub fn settle_vote(context: Option<&PollContext>, expires_at: i64, now: i64, belongs: i64) -> (r:
    VoteReply)
    ensures
        r@ == vote_outcome(poll_view(context), expires_at, now, belongs),
{
    match context {
        None => VoteReply::Refuse(not_found(OPTION_MISSING)),
        Some(c) => if expires_at <= now {
            VoteReply::Refuse(bad_request(POLL_CLOSED))
        } else if belongs == 0 {
            VoteReply::Refuse(bad_request(INVALID_OPTION))
        } else {
            VoteReply::Cast {
                poll_id: c.poll_id,
                url: poll_url(c.board_short.as_str(), c.thread_id),
            }
        },
    }
}

/// What is answered before the poll is looked at, if the request ends there.
pub open spec fn vote_turned_away(
    csrf_accepted: bool,
    option_id: i64,
    context: Option<PollContextView>,
    can_post: bool,
) -> Option<VoteReplyView> {
    if !csrf_accepted {
        Some(VoteReplyView::CsrfRefused)
    } else if option_id <= 0 {
        Some(VoteReplyView::Refuse(AppErrorView::BadRequest(INVALID_OPTION@)))
    } else {
        match context {
            None => Some(VoteReplyView::Refuse(AppErrorView::NotFound(OPTION_MISSING@))),
            Some(c) => if !can_post {
                Some(
                    VoteReplyView::Unlock {
                        return_to: thread::poll_address(c.board_short, c.thread_id),
                    },
                )
            } else {
                None
            },
        }
    }
}

/// The model of an optional answer.
pub open spec fn reply_view(r: Option<VoteReply>) -> Option<VoteReplyView> {
    match r {
        Some(reply) => Some(reply@),
        None => None,
    }
}

/// Answers a vote that ends before the poll is looked at.
pub fn turn_vote_away(
    csrf_accepted: bool,
    option_id: i64,
    context: Option<&PollContext>,
    can_post: bool,
) -> (r: Option<VoteReply>)
    ensures
        reply_view(r) == vote_turned_away(csrf_accepted, option_id, poll_view(context), can_post),
{
    if !csrf_accepted {
        return Some(VoteReply::CsrfRefused);
    }
    if option_id <= 0 {
        return Some(VoteReply::Refuse(bad_request(INVALID_OPTION)));
    }
    match context {
        None => Some(VoteReply::Refuse(not_found(OPTION_MISSING))),
        Some(c) => if !can_post {
            Some(VoteReply::Unlock { return_to: poll_url(c.board_short.as_str(), c.thread_id) })
        } else {
            None
        },
    }
}

/// What is answered to a vote. `context` is where the choice belonged when the request
/// came, and `context_now` where it belongs when the vote is recorded.
pub open spec fn voted(
    csrf_accepted: bool,
    option_id: i64,
    context: Option<PollContextView>,
    can_post: bool,
    context_now: Option<PollContextView>,
    expires_at: i64,
    now: i64,
    belongs: i64,
) -> VoteReplyView {
    match vote_turned_away(csrf_accepted, option_id, context, can_post) {
        Some(reply) => reply,
        None => vote_outcome(context_now, expires_at, now, belongs),
    }
}

/// Answers a vote.
pub fn vote_handler(
    csrf_accepted: bool,
    option_id: i64,
    context: Option<&PollContext>,
    can_post: bool,
    context_now: Option<&PollContext>,
    expires_at: i64,
    now: i64,
    belongs: i64,
) -> (r: VoteReply)
    ensures
        r@ == voted(
            csrf_accepted,
            option_id,
            poll_view(context),
            can_post,
            poll_view(context_now),
            expires_at,
            now,
            belongs,
        ),
{
    match turn_vote_away(csrf_accepted, option_id, context, can_post) {
        Some(reply) => reply,
        None => settle_vote(context_now, expires_at, now, belongs),
    }
}

/// A vote is recorded only with an accepted token, for a choice of a poll that is still
/// open, by a visitor who may post to its board; and every such vote is.
pub proof fn law_votes_are_cast_exactly_in_open_polls(
    csrf_accepted: bool,
    option_id: i64,
    context: Option<PollContextView>,
    can_post: bool,
    context_now: Option<PollContextView>,
    expires_at: i64,
    now: i64,
    belongs: i64,
)
    ensures
        voted(
            csrf_accepted,
            option_id,
            context,
            can_post,
            context_now,
            expires_at,
            now,
            belongs,
        ) is Cast <==> {
            &&& csrf_accepted
            &&& option_id > 0
            &&& context is Some
            &&& can_post
            &&& context_now is Some
            &&& now < expires_at
            &&& belongs != 0
        },
{
}

/// A vote that is cast is recorded in the poll that the choice belongs to now, and the
/// visitor is led to that poll; a vote that is not is answered by the first thing that
/// stands against it.
pub proof fn law_votes_are_answered_by_what_stands_against_them(
    csrf_accepted: bool,
    option_id: i64,
    context: Option<PollContextView>,
    can_post: bool,
    context_now: Option<PollContextView>,
    expires_at: i64,
    now: i64,
    belongs: i64,
)
    ensures
        ({
            let r = voted(
                csrf_accepted,
                option_id,
                context,
                can_post,
                context_now,
                expires_at,
                now,
                belongs,
            );
            &&& r is Cast ==> r->poll_id == context_now->Some_0.poll_id && r->url
                == thread::thread_address(
                context_now->Some_0.board_short,
                context_now->Some_0.thread_id,
            ) + "#poll"@
            &&& !csrf_accepted ==> r is CsrfRefused
            &&& csrf_accepted && option_id <= 0 ==> r == VoteReplyView::Refuse(
                AppErrorView::BadRequest("Invalid poll option."@),
            )
            &&& csrf_accepted && option_id > 0 && context is None ==> r == VoteReplyView::Refuse(
                AppErrorView::NotFound("Poll option not found."@),
            )
            &&& csrf_accepted && option_id > 0 && context is Some && !can_post ==> r == (
            VoteReplyView::Unlock {
                return_to: thread::thread_address(
                    context->Some_0.board_short,
                    context->Some_0.thread_id,
                ) + "#poll"@,
            })
            &&& csrf_accepted && option_id > 0 && context is Some && can_post && context_now is None
                ==> r == VoteReplyView::Refuse(AppErrorView::NotFound("Poll option not found."@))
            &&& csrf_accepted && option_id > 0 && context is Some && can_post && context_now is Some
                && expires_at <= now ==> r == VoteReplyView::Refuse(
                AppErrorView::BadRequest("This poll has closed."@),
            )
            &&& csrf_accepted && option_id > 0 && context is Some && can_post && context_now is Some
                && now < expires_at && belongs == 0 ==> r == VoteReplyView::Refuse(
                AppErrorView::BadRequest("Invalid poll option."@),
            )
        }),
{
}

} // verus!
