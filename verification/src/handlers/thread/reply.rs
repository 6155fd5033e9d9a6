//! Replies to a thread.

use vstd::prelude::*;
use vstd::string::*;
use crate::handlers::thread;
use crate::handlers::thread::{
    bad_request,
    forbidden,
    redirect_status,
    AppError,
    AppErrorView,
    OK,
    SELF_DELETE_WINDOW_SECS,
    UNPROCESSABLE_ENTITY,
};
use crate::text;

verus! {

/// What a browser keeps of a post that it made.
#[derive(Debug)]
pub struct OwnedPostGrant {
    /// The short name of the board of the post.
    pub board_short: String,
    /// The thread of the post.
    pub thread_id: i64,
    /// The post.
    pub post_id: i64,
    /// The token that the post is edited and deleted with.
    pub deletion_token: String,
    /// When the grant expires.
    pub expires_at: i64,
}

/// The model of a grant.
#[verifier::ext_equal]
pub struct OwnedPostGrantView {
    /// The short name of the board of the post.
    pub board_short: Seq<char>,
    /// The thread of the post.
    pub thread_id: i64,
    /// The post.
    pub post_id: i64,
    /// The token that the post is edited and deleted with.
    pub deletion_token: Seq<char>,
    /// When the grant expires.
    pub expires_at: i64,
}

impl View for OwnedPostGrant {
    type V = OwnedPostGrantView;

    open spec fn view(&self) -> OwnedPostGrantView {
        OwnedPostGrantView {
            board_short: self.board_short@,
            thread_id: self.thread_id,
            post_id: self.post_id,
            deletion_token: self.deletion_token@,
            expires_at: self.expires_at,
        }
    }
}

/// What the visitor had written, to be shown again in the form.
#[derive(Debug)]
pub struct PostFormState {
    /// The name.
    pub name: String,
    /// The subject; a reply has none.
    pub subject: String,
    /// The body.
    pub body: String,
    /// Whether the reply leaves the thread where it is.
    pub sage: bool,
}

/// The model of what is shown again.
#[verifier::ext_equal]
pub struct PostFormStateView {
    /// The name.
    pub name: Seq<char>,
    /// The subject.
    pub subject: Seq<char>,
    /// The body.
    pub body: Seq<char>,
    /// Whether the reply leaves the thread where it is.
    pub sage: bool,
}

impl View for PostFormState {
    type V = PostFormStateView;

    open spec fn view(&self) -> PostFormStateView {
        PostFormStateView {
            name: self.name@,
            subject: self.subject@,
            body: self.body@,
            sage: self.sage,
        }
    }
}

/// What the visitor has written in the form of a reply.
#[derive(Debug)]
pub struct ReplyForm {
    /// The name.
    pub name: String,
    /// The body.
    pub body: String,
    /// Whether the reply leaves the thread where it is.
    pub sage: bool,
}

/// The model of the form of a reply.
#[verifier::ext_equal]
pub struct ReplyFormView {
    /// The name.
    pub name: Seq<char>,
    /// The body.
    pub body: Seq<char>,
    /// Whether the reply leaves the thread where it is.
    pub sage: bool,
}

impl View for ReplyForm {
    type V = ReplyFormView;

    open spec fn view(&self) -> ReplyFormView {
        ReplyFormView { name: self.name@, body: self.body@, sage: self.sage }
    }
}

/// What is kept of a reply to be shown again: all that was written, and no subject.
pub open spec fn kept(form: ReplyFormView) -> PostFormStateView {
    PostFormStateView {
        name: form.name,
        subject: Seq::empty(),
        body: form.body,
        sage: form.sage,
    }
}

/// Keeps what the visitor had written in a reply.
pub fn kept_reply(form: &ReplyForm) -> (r: PostFormState)
    ensures
        r@ == kept(form@),
{
    let r = PostFormState {
        name: form.name.clone(),
        subject: String::new(),
        body: form.body.clone(),
        sage: form.sage,
    };
    assert(r@ =~= kept(form@));
    r
}

/// A reply that was stored.
#[derive(Debug)]
pub struct SubmittedPost {
    /// The short name of the board of the post.
    pub board_short: String,
    /// The thread of the post.
    pub thread_id: i64,
    /// The post.
    pub post_id: i64,
    /// The token that the post is edited and deleted with.
    pub deletion_token: String,
    /// When the post was made.
    pub created_at: i64,
    /// Where the visitor is led.
    pub redirect_url: String,
}

/// The model of a stored reply.
#[verifier::ext_equal]
pub struct SubmittedPostView {
    /// The short name of the board of the post.
    pub board_short: Seq<char>,
    /// The thread of the post.
    pub thread_id: i64,
    /// The post.
    pub post_id: i64,
    /// The token that the post is edited and deleted with.
    pub deletion_token: Seq<char>,
    /// When the post was made.
    pub created_at: i64,
    /// Where the visitor is led.
    pub redirect_url: Seq<char>,
}

impl View for SubmittedPost {
    type V = SubmittedPostView;

    open spec fn view(&self) -> SubmittedPostView {
        SubmittedPostView {
            board_short: self.board_short@,
            thread_id: self.thread_id,
            post_id: self.post_id,
            deletion_token: self.deletion_token@,
            created_at: self.created_at,
            redirect_url: self.redirect_url@,
        }
    }
}

/// What the reading of the submitted form comes to.
#[derive(Debug)]
pub enum FormReading {
    /// The upload took too long.
    TimedOut,
    /// The form could not be read.
    Failed(AppError),
    /// The form was read, and its token accepted or not.
    Read {
        /// Whether the token was accepted.
        csrf_verified: bool,
        /// What the visitor has written.
        form: ReplyForm,
    },
}

/// The model of a form reading.
#[verifier::ext_equal]
pub enum FormReadingView {
    /// The upload took too long.
    TimedOut,
    /// The form could not be read.
    Failed(AppErrorView),
    /// The form was read.
    Read {
        /// Whether the token was accepted.
        csrf_verified: bool,
        /// What the visitor has written.
        form: ReplyFormView,
    },
}

impl View for FormReading {
    type V = FormReadingView;

    open spec fn view(&self) -> FormReadingView {
        match self {
            FormReading::TimedOut => FormReadingView::TimedOut,
            FormReading::Failed(e) => FormReadingView::Failed(e@),
            FormReading::Read { csrf_verified, form } => FormReadingView::Read {
                csrf_verified: *csrf_verified,
                form: form@,
            },
        }
    }
}

/// What is answered to a reply.
#[derive(Debug)]
pub enum ReplyAnswer {
    /// The visitor is led to the page that unlocks the board, and then to the given
    /// address.
    Unlock {
        /// Where the visitor goes afterwards.
        return_to: String,
    },
    /// The reply was stored: the browser is given a grant and led on.
    Posted {
        /// The grant.
        grant: OwnedPostGrant,
        /// The status of the answer.
        status: u16,
        /// Where the visitor is led.
        url: String,
        /// Whether a script made the request.
        xhr: bool,
    },
    /// A script is told what is wrong.
    Problem {
        /// The status of the answer.
        status: u16,
        /// The status of what went wrong, which stands in a header.
        error_status: u16,
        /// What is wrong.
        message: String,
    },
    /// The thread is shown again with what is wrong and what the visitor had written.
    ThreadAgain {
        /// The status of the answer.
        status: u16,
        /// What is wrong.
        message: String,
        /// What the visitor had written.
        form: PostFormState,
    },
    /// A script is told of an error that is not about the reply itself.
    ScriptError(AppError),
    /// The request is refused.
    Refuse(AppError),
}

/// The model of the answer to a reply.
#[verifier::ext_equal]
pub enum ReplyAnswerView {
    /// The visitor is led to the page that unlocks the board.
    Unlock {
        /// Where the visitor goes afterwards.
        return_to: Seq<char>,
    },
    /// The reply was stored.
    Posted {
        /// The grant.
        grant: OwnedPostGrantView,
        /// The status of the answer.
        status: u16,
        /// Where the visitor is led.
        url: Seq<char>,
        /// Whether a script made the request.
        xhr: bool,
    },
    /// A script is told what is wrong.
    Problem {
        /// The status of the answer.
        status: u16,
        /// The status of what went wrong, which stands in a header.
        error_status: u16,
        /// What is wrong.
        message: Seq<char>,
    },
    /// The thread is shown again.
    ThreadAgain {
        /// The status of the answer.
        status: u16,
        /// What is wrong.
        message: Seq<char>,
        /// What the visitor had written.
        form: PostFormStateView,
    },
    /// A script is told of an error that is not about the reply itself.
    ScriptError(AppErrorView),
    /// The request is refused.
    Refuse(AppErrorView),
}

impl View for ReplyAnswer {
    type V = ReplyAnswerView;

    open spec fn view(&self) -> ReplyAnswerView {
        match self {
            ReplyAnswer::Unlock { return_to } => ReplyAnswerView::Unlock { return_to: return_to@ },
            ReplyAnswer::Posted { grant, status, url, xhr } => ReplyAnswerView::Posted {
                grant: grant@,
                status: *status,
                url: url@,
                xhr: *xhr,
            },
            ReplyAnswer::Problem { status, error_status, message } => ReplyAnswerView::Problem {
                status: *status,
                error_status: *error_status,
                message: message@,
            },
            ReplyAnswer::ThreadAgain { status, message, form } => ReplyAnswerView::ThreadAgain {
                status: *status,
                message: message@,
                form: form@,
            },
            ReplyAnswer::ScriptError(e) => ReplyAnswerView::ScriptError(e@),
            ReplyAnswer::Refuse(e) => ReplyAnswerView::Refuse(e@),
        }
    }
}

/// What is said of an upload that took too long.
pub const UPLOAD_TIMED_OUT: &'static str = "Upload timed out. Please try again.";

/// What is said of a token that is not accepted.
pub const CSRF_MISMATCH: &'static str = "CSRF token mismatch.";

/// What is answered before the reply is stored, if the request ends there: the board
/// must be open to the visitor, and the form read with an accepted token. `denied` is
/// where a visitor goes after unlocking a board that is not open. Otherwise the form
/// that was read.
pub open spec fn reply_admitted(denied: Option<Seq<char>>, form: FormReadingView) -> Result<
    ReplyFormView,
    ReplyAnswerView,
> {
    match denied {
        Some(return_to) => Err(ReplyAnswerView::Unlock { return_to }),
        None => match form {
            FormReadingView::TimedOut => Err(
                ReplyAnswerView::Refuse(AppErrorView::BadRequest(UPLOAD_TIMED_OUT@)),
            ),
            FormReadingView::Failed(e) => Err(ReplyAnswerView::Refuse(e)),
            FormReadingView::Read { csrf_verified, form } => if csrf_verified {
                Ok(form)
            } else {
                Err(ReplyAnswerView::Refuse(AppErrorView::Forbidden(CSRF_MISMATCH@)))
            },
        },
    }
}

/// The grant for a stored reply.
pub open spec fn grant_for(post: SubmittedPostView) -> OwnedPostGrantView {
    OwnedPostGrantView {
        board_short: post.board_short,
        thread_id: post.thread_id,
        post_id: post.post_id,
        deletion_token: post.deletion_token,
        expires_at: (post.created_at + SELF_DELETE_WINDOW_SECS) as i64,
    }
}

/// The answer to a reply that was stored or refused. A script gets a plain answer with
/// the status of what went wrong in a header; a browser is shown the thread with what
/// had been written.
pub open spec fn reply_answer(
    xhr: bool,
    form: ReplyFormView,
    submitted: Result<SubmittedPostView, AppErrorView>,
) -> ReplyAnswerView {
    match submitted {
        Ok(post) => ReplyAnswerView::Posted {
            grant: grant_for(post),
            status: thread::led_on(xhr),
            url: post.redirect_url,
            xhr,
        },
        Err(AppErrorView::BadRequest(message)) => if xhr {
            ReplyAnswerView::Problem { status: OK, error_status: UNPROCESSABLE_ENTITY, message }
        } else {
            ReplyAnswerView::ThreadAgain { status: UNPROCESSABLE_ENTITY, message, form: kept(form) }
        },
        Err(e) => if xhr {
            ReplyAnswerView::ScriptError(e)
        } else {
            ReplyAnswerView::Refuse(e)
        },
    }
}

/// The model of a fallible submission.
pub open spec fn submission_view(r: Result<SubmittedPost, AppError>) -> Result<
    SubmittedPostView,
    AppErrorView,
> {
    match r {
        Ok(post) => Ok(post@),
        Err(e) => Err(e@),
    }
}

/// Whether the expiry of a grant can be written as a number.
pub open spec fn grant_fits(submitted: Result<SubmittedPost, AppError>) -> bool {
    submitted matches Ok(post) ==> post.created_at + SELF_DELETE_WINDOW_SECS <= i64::MAX
}

/// Answers a reply that was stored or refused.
pub fn answer_reply(
    xhr: bool,
    form: &ReplyForm,
    submitted: Result<SubmittedPost, AppError>,
) -> (r: ReplyAnswer)
    requires
        grant_fits(submitted),
    ensures
        r@ == reply_answer(xhr, form@, submission_view(submitted)),
{
    match submitted {
        Ok(post) => ReplyAnswer::Posted {
            grant: OwnedPostGrant {
                board_short: post.board_short,
                thread_id: post.thread_id,
                post_id: post.post_id,
                deletion_token: post.deletion_token,
                expires_at: post.created_at + SELF_DELETE_WINDOW_SECS,
            },
            status: redirect_status(xhr),
            url: post.redirect_url,
            xhr,
        },
        Err(AppError::BadRequest(message)) => if xhr {
            ReplyAnswer::Problem { status: OK, error_status: UNPROCESSABLE_ENTITY, message }
        } else {
            ReplyAnswer::ThreadAgain {
                status: UNPROCESSABLE_ENTITY,
                message,
                form: kept_reply(form),
            }
        },
        Err(e) => if xhr {
            ReplyAnswer::ScriptError(e)
        } else {
            ReplyAnswer::Refuse(e)
        },
    }
}

/// The model of an admission.
pub open spec fn admission_view(r: Result<ReplyForm, ReplyAnswer>) -> Result<
    ReplyFormView,
    ReplyAnswerView,
> {
    match r {
        Ok(form) => Ok(form@),
        Err(answer) => Err(answer@),
    }
}

/// Hands out the form of a reply that may be stored, or answers a request that ends
/// before that.
pub fn admit_reply(denied: Option<String>, form: FormReading) -> (r: Result<ReplyForm, ReplyAnswer>)
    ensures
        admission_view(r) == reply_admitted(text::opt_view(denied), form@),
{
    match denied {
        Some(return_to) => Err(ReplyAnswer::Unlock { return_to }),
        None => match form {
            FormReading::TimedOut => Err(ReplyAnswer::Refuse(bad_request(UPLOAD_TIMED_OUT))),
            FormReading::Failed(e) => Err(ReplyAnswer::Refuse(e)),
            FormReading::Read { csrf_verified, form } => if csrf_verified {
                Ok(form)
            } else {
                Err(ReplyAnswer::Refuse(forbidden(CSRF_MISMATCH)))
            },
        },
    }
}

/// What is answered to a reply.
pub open spec fn replied(
    xhr: bool,
    denied: Option<Seq<char>>,
    form: FormReadingView,
    submitted: Result<SubmittedPostView, AppErrorView>,
) -> ReplyAnswerView {
    match reply_admitted(denied, form) {
        Err(answer) => answer,
        Ok(form) => reply_answer(xhr, form, submitted),
    }
}

/// Answers a reply.
pub fn post_reply(
    xhr: bool,
    denied: Option<String>,
    form: FormReading,
    submitted: Result<SubmittedPost, AppError>,
) -> (r: ReplyAnswer)
    requires
        grant_fits(submitted),
    ensures
        r@ == replied(xhr, text::opt_view(denied), form@, submission_view(submitted)),
{
    match admit_reply(denied, form) {
        Err(answer) => answer,
        Ok(form) => answer_reply(xhr, &form, submitted),
    }
}

/// A reply whose text is refused is not lost: a browser is shown the thread with what
/// is wrong and with the name, the body and the sage mark that had been submitted; a
/// script gets a plain answer with the status in a header. Nobody is led elsewhere.
pub proof fn law_refused_replies_are_kept(
    xhr: bool,
    form: ReplyFormView,
    message: Seq<char>,
)
    ensures
        replied(
            xhr,
            None,
            FormReadingView::Read { csrf_verified: true, form },
            Err(AppErrorView::BadRequest(message)),
        ) == if xhr {
            ReplyAnswerView::Problem { status: 200, error_status: 422, message }
        } else {
            ReplyAnswerView::ThreadAgain {
                status: 422,
                message,
                form: PostFormStateView {
                    name: form.name,
                    subject: Seq::empty(),
                    body: form.body,
                    sage: form.sage,
                },
            }
        },
{
}

/// A reply is answered as posted exactly where the board was open, the form was read
/// with an accepted token, and the reply was stored; the browser then holds a grant
/// that lasts as long as authors may act on their posts.
pub proof fn law_posted_replies_are_granted(
    xhr: bool,
    denied: Option<Seq<char>>,
    form: FormReadingView,
    submitted: Result<SubmittedPostView, AppErrorView>,
)
    ensures
        replied(xhr, denied, form, submitted) is Posted <==> {
            &&& denied is None
            &&& form is Read
            &&& form->csrf_verified
            &&& submitted is Ok
        },
        replied(xhr, denied, form, submitted) matches ReplyAnswerView::Posted {
            grant,
            status,
            url,
            xhr: script,
        } ==> {
            &&& script == xhr
            &&& status == if xhr {
                204u16
            } else {
                303u16
            }
            &&& url == submitted->Ok_0.redirect_url
            &&& grant.post_id == submitted->Ok_0.post_id
            &&& submitted->Ok_0.created_at + SELF_DELETE_WINDOW_SECS <= i64::MAX
                ==> grant.expires_at == submitted->Ok_0.created_at + SELF_DELETE_WINDOW_SECS
        },
{
}

/// A reply that was stored is granted to the browser for a minute after it was made, with
/// the post's own token, and the visitor is led to it; one that is wrong is told with what
/// the visitor had written, or to a script in an answer of its own; anything else is passed
/// on.
pub proof fn law_replies_are_answered_by_what_came_of_them(
    xhr: bool,
    form: ReplyFormView,
    post: SubmittedPostView,
    error: AppErrorView,
)
    requires
        post.created_at + 60 <= i64::MAX,
    ensures
        ({
            let posted = reply_answer(xhr, form, Ok(post));
            let wrong = reply_answer(xhr, form, Err(error));
            &&& posted is Posted
            &&& posted->grant.board_short == post.board_short
            &&& posted->grant.thread_id == post.thread_id
            &&& posted->grant.post_id == post.post_id
            &&& posted->grant.deletion_token == post.deletion_token
            &&& posted->grant.expires_at == post.created_at + 60
            &&& posted->Posted_status == if xhr {
                204u16
            } else {
                303u16
            }
            &&& posted->url == post.redirect_url && posted->xhr == xhr
            &&& error is BadRequest && xhr ==> wrong is Problem && wrong->Problem_status == 200
                && wrong->error_status == 422 && wrong->Problem_message == error->BadRequest_0
            &&& error is BadRequest && !xhr ==> wrong is ThreadAgain && wrong->ThreadAgain_status
                == 422 && wrong->ThreadAgain_message == error->BadRequest_0
                && wrong->ThreadAgain_form.name == form.name && wrong->ThreadAgain_form.body
                == form.body && wrong->ThreadAgain_form.sage == form.sage
                && wrong->ThreadAgain_form.subject.len() == 0
            &&& !(error is BadRequest) && xhr ==> wrong == ReplyAnswerView::ScriptError(error)
            &&& !(error is BadRequest) && !xhr ==> wrong == ReplyAnswerView::Refuse(error)
        }),
{
}

/// A reply is taken exactly where the board is open to the visitor, the form could be read
/// in time, and its token was accepted; where the board is not open nothing else counts.
pub proof fn law_replies_are_taken_exactly_when_admitted(
    denied: Option<Seq<char>>,
    form: FormReadingView,
)
    ensures
        ({
            let r = reply_admitted(denied, form);
            &&& r is Ok <==> denied is None && form is Read && form->csrf_verified
            &&& r is Ok ==> r->Ok_0 == form->form
            &&& denied is Some ==> r->Err_0 == (ReplyAnswerView::Unlock {
                return_to: denied->Some_0,
            })
            &&& denied is None && form is TimedOut ==> r->Err_0 == ReplyAnswerView::Refuse(
                AppErrorView::BadRequest("Upload timed out. Please try again."@),
            )
            &&& denied is None && form is Failed ==> r->Err_0 == ReplyAnswerView::Refuse(
                form->Failed_0,
            )
            &&& denied is None && form is Read && !form->csrf_verified ==> r->Err_0
                == ReplyAnswerView::Refuse(AppErrorView::Forbidden("CSRF token mismatch."@))
        }),
{
}

} // verus!
