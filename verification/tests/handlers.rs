use rustchan::handlers::thread::own_posts::{
    admit_delete, admit_edit, answer_delete, answer_edit, delete_own_post, delete_post_get,
    edit_post_get, edit_post_post, load_self_action_post_context, window_closed, ActionReply,
    PageDecision, SelfAction, SelfDeleteOutcome, THREAD_CLOSED, THREAD_HAS_REPLIES,
};
use rustchan::handlers::thread::reply::{
    kept_reply, post_reply, FormReading, OwnedPostGrant, ReplyAnswer, ReplyForm, SubmittedPost,
    CSRF_MISMATCH,
    UPLOAD_TIMED_OUT,
};
use rustchan::handlers::thread::updates::{
    parse_refresh_post_ids, thread_updates, update_render_opts, ActivityBadgeSettings,
    RenderedPost, UpdatesReply,
};
use rustchan::handlers::thread::view::{
    owned_controls, ownership_signature, page_etag, view_thread, ThreadPageQuery, ThreadPageState,
    ViewAnswer, REPORT_SUBMITTED,
};
use rustchan::handlers::thread::vote::{
    vote_handler, PollContext, VoteReply, INVALID_OPTION, OPTION_MISSING, POLL_CLOSED,
};
use rustchan::handlers::thread::{
    catalog_url, is_xml_http_request, poll_url, post_url, thread_url, AppError,
    SELF_DELETE_WINDOW_SECS,
};
use rustchan::models::{Board, BoardAccessMode, BoardBannerMode, Post, Thread};

const NOW: i64 = 1_000_000;

fn board() -> Board {
    Board {
        id: 1,
        display_order: 0,
        short_name: "b".to_owned(),
        name: "Board".to_owned(),
        description: String::new(),
        nsfw: false,
        max_threads: 100,
        max_archived_threads: 100,
        bump_limit: 300,
        allow_images: true,
        allow_video: true,
        allow_audio: true,
        max_image_size: 0,
        max_video_size: 0,
        max_audio_size: 0,
        max_pdf_size: 0,
        allow_pdf: false,
        allow_any_files: false,
        allow_tripcodes: true,
        allow_editing: true,
        allow_self_delete: true,
        edit_window_secs: 0,
        allow_archive: true,
        allow_video_embeds: false,
        allow_captcha: false,
        show_poster_ids: false,
        collapse_greentext: false,
        post_cooldown_secs: 0,
        default_theme: String::new(),
        banner_mode: BoardBannerMode::Inherit,
        access_mode: BoardAccessMode::Public,
        access_password_hash: String::new(),
        created_at: 0,
    }
}

fn thread() -> Thread {
    Thread {
        id: 7,
        board_id: 1,
        subject: None,
        created_at: NOW,
        bumped_at: NOW + 5,
        locked: false,
        sticky: true,
        archived: false,
        reply_count: 3,
        image_count: 0,
        op_body: None,
        op_file: None,
        op_thumb: None,
        op_name: None,
        op_tripcode: None,
        op_id: Some(70),
    }
}

fn post() -> Post {
    Post {
        id: 71,
        thread_id: 7,
        board_id: 1,
        name: "anon".to_owned(),
        tripcode: None,
        subject: None,
        body: "hello".to_owned(),
        body_html: "hello".to_owned(),
        ip_hash: None,
        file_path: None,
        file_name: None,
        file_size: None,
        thumb_path: None,
        mime_type: None,
        media_type: None,
        audio_file_path: None,
        audio_file_name: None,
        audio_file_size: None,
        audio_mime_type: None,
        created_at: NOW,
        deletion_token: "token".to_owned(),
        is_op: false,
        edited_at: None,
        media_processing_state: None,
        media_processing_error: None,
    }
}

fn grant(post_id: i64, expires_at: i64) -> OwnedPostGrant {
    OwnedPostGrant {
        board_short: "b".to_owned(),
        thread_id: 7,
        post_id,
        deletion_token: "token".to_owned(),
        expires_at,
    }
}

fn edit_page(board: &Board, open: bool, grant: Option<i64>, now: i64) -> PageDecision {
    edit_post_get("b", Some(board), Some(&post()), Some(&thread()), true, open, grant, now)
}

fn delete_page(board: &Board, open: bool, grant: Option<i64>, now: i64) -> PageDecision {
    delete_post_get("b", Some(board), Some(&post()), Some(&thread()), true, open, grant, now)
}

fn refusal(page: &PageDecision) -> &str {
    match page {
        PageDecision::Refuse(AppError::Forbidden(message)) => message,
        PageDecision::Refuse(AppError::NotFound(message)) => message,
        other => panic!("not refused: {other:?}"),
    }
}

#[test]
fn addresses_name_their_place() {
    assert_eq!(thread_url("b", 7), "/b/thread/7");
    assert_eq!(post_url("b", 7, 71), "/b/thread/7#p71");
    assert_eq!(poll_url("b", 7), "/b/thread/7#poll");
    assert_eq!(catalog_url("b"), "/b/catalog");
    assert!(is_xml_http_request(Some("xmlhttprequest")));
    assert!(!is_xml_http_request(Some("fetch")));
    assert!(!is_xml_http_request(None));
}

#[test]
fn edit_get_renders_usable_form_for_owned_post() {
    assert!(matches!(
        edit_page(&board(), true, Some(NOW + 60), NOW + 60 - 1),
        PageDecision::Form
    ));
}

#[test]
fn edit_get_fails_without_owned_cookie() {
    assert_eq!(
        refusal(&edit_page(&board(), true, None, NOW)),
        SelfAction::Edit.lost_message()
    );
    assert_eq!(
        refusal(&edit_page(&board(), true, Some(NOW), NOW)),
        SelfAction::Edit.lost_message()
    );
}

#[test]
fn edit_get_fails_after_expiry() {
    assert!(!window_closed(NOW, NOW + SELF_DELETE_WINDOW_SECS));
    assert_eq!(
        refusal(&edit_page(&board(), true, Some(NOW + 600), NOW + 61)),
        SelfAction::Edit.closed_message()
    );
}

#[test]
fn edit_get_fails_when_board_editing_is_disabled() {
    let mut b = board();
    b.allow_editing = false;
    assert_eq!(
        refusal(&edit_page(&b, true, Some(NOW + 60), NOW)),
        SelfAction::Edit.disabled_message()
    );
}

#[test]
fn edit_get_fails_when_thread_is_locked() {
    assert_eq!(
        refusal(&edit_page(&board(), false, Some(NOW + 60), NOW)),
        THREAD_CLOSED
    );
}

#[test]
fn edit_and_delete_toggles_are_independent() {
    let mut b = board();
    b.allow_editing = false;
    assert!(matches!(
        delete_page(&b, true, Some(NOW + 60), NOW),
        PageDecision::Form
    ));
    let mut b = board();
    b.allow_self_delete = false;
    assert!(matches!(
        edit_page(&b, true, Some(NOW + 60), NOW),
        PageDecision::Form
    ));
    assert_eq!(
        refusal(&delete_page(&b, true, Some(NOW + 60), NOW)),
        SelfAction::Delete.disabled_message()
    );
}

#[test]
fn delete_get_renders_usable_confirmation_form_for_owned_post() {
    assert!(matches!(
        delete_page(&board(), true, Some(NOW + 60), NOW),
        PageDecision::Form
    ));
}

#[test]
fn delete_get_fails_without_owned_cookie() {
    assert_eq!(
        refusal(&delete_page(&board(), true, None, NOW)),
        SelfAction::Delete.lost_message()
    );
}

#[test]
fn delete_get_fails_after_expiry() {
    assert_eq!(
        refusal(&delete_page(&board(), true, Some(NOW + 600), NOW + 61)),
        SelfAction::Delete.closed_message()
    );
}

#[test]
fn delete_get_fails_when_thread_is_locked() {
    assert_eq!(
        refusal(&delete_page(&board(), false, Some(NOW + 60), NOW)),
        THREAD_CLOSED
    );
}

#[test]
fn forms_of_a_locked_board_lead_to_its_unlock_page() {
    let page = edit_post_get(
        "b", Some(&board()), Some(&post()), Some(&thread()), false, true, Some(NOW + 60), NOW,
    );
    assert!(matches!(page, PageDecision::Unlock { return_to } if return_to == "/b/thread/7"));
}

#[test]
fn rows_must_belong_together() {
    let message = |board: Option<&Board>, post: Option<&Post>, thread: Option<&Thread>| {
        match load_self_action_post_context("b", board, post, thread, true, true) {
            Err(AppError::NotFound(message)) => message,
            other => panic!("found: {other:?}"),
        }
    };
    let (b, p, t) = (board(), post(), thread());
    let mut other_post = post();
    other_post.board_id = 2;
    let mut other_thread = thread();
    other_thread.board_id = 2;
    assert_eq!(message(None, Some(&p), Some(&t)), "Board /b/ not found");
    assert_eq!(message(Some(&b), None, Some(&t)), "Post not found.");
    assert_eq!(
        message(Some(&b), Some(&other_post), Some(&t)),
        "Post not found in this board."
    );
    assert_eq!(message(Some(&b), Some(&p), None), "Thread not found.");
    assert_eq!(
        message(Some(&b), Some(&p), Some(&other_thread)),
        "Thread not found in this board."
    );
    let context = load_self_action_post_context("b", Some(&b), Some(&p), Some(&t), true, false)
        .expect("together");
    assert_eq!(context.thread_id, 7);
    assert_eq!(context.created_at, NOW);
    assert!(!context.thread_allows_self_actions);
}

fn edit(xhr: bool, csrf: bool, grant: Option<i64>, now: i64, problem: Option<&str>, written: bool) -> ActionReply {
    edit_post_post(
        "b", 71, xhr, csrf, grant, true, Some(&board()), Some(&post()), now, "new text", problem,
        written,
    )
}

#[test]
fn edit_succeeds_with_owned_cookie_inside_grace_window() {
    assert!(matches!(
        edit(false, true, Some(7), NOW + 30, None, true),
        ActionReply::Edited { status: 303, url, xhr: false } if url == "/b/thread/7#p71"
    ));
}

#[test]
fn edit_fails_without_owned_cookie() {
    assert!(matches!(
        edit(false, true, None, NOW, None, true),
        ActionReply::Refuse(AppError::Forbidden(message)) if message == SelfAction::Edit.lost_message()
    ));
    assert!(matches!(
        edit(false, false, Some(7), NOW, None, true),
        ActionReply::CsrfRefused
    ));
}

#[test]
fn edit_fails_after_grace_window() {
    assert!(matches!(
        edit(false, true, Some(7), NOW + 61, None, true),
        ActionReply::Refuse(AppError::Forbidden(message)) if message == SelfAction::Edit.closed_message()
    ));
    assert!(matches!(
        edit(true, true, Some(7), NOW + 61, None, true),
        ActionReply::Problem { status: 200, error_status: 403, message } if message == SelfAction::Edit.closed_message()
    ));
}

#[test]
fn edits_are_refused_for_their_text() {
    assert!(matches!(
        edit(false, true, Some(7), NOW, Some("Post body is empty."), true),
        ActionReply::FormAgain { status: 422, body, message }
            if message == "Post body is empty." && body == "new text"
    ));
    assert!(matches!(
        edit(true, true, Some(7), NOW, Some("Post body is empty."), true),
        ActionReply::Problem { status: 200, error_status: 422, message } if message == "Post body is empty."
    ));
    assert!(matches!(
        edit(false, true, Some(7), NOW, None, false),
        ActionReply::Refuse(AppError::Forbidden(message)) if message == SelfAction::Edit.lost_message()
    ));
    assert!(matches!(
        answer_edit(true, "", Err(AppError::NotFound("Post not found.".to_owned()))),
        ActionReply::Problem { status: 200, error_status: 404, .. }
    ));
    assert!(matches!(
        answer_edit(true, "", Err(AppError::Other)),
        ActionReply::Refuse(AppError::Other)
    ));
    assert!(admit_edit("b", Some(&board()), Some(&post()), NOW).is_ok());
}

#[test]
fn delete_op_succeeds_with_owned_cookie_inside_grace_window() {
    let reply = delete_own_post(
        "b", true, Some(7), true, Some(&board()), Some(&post()), SelfDeleteOutcome::DeletedThread,
    );
    assert!(matches!(reply, ActionReply::Deleted { url } if url == "/b/catalog"));
}

#[test]
fn delete_fails_without_owned_cookie() {
    let reply = delete_own_post(
        "b", true, None, true, Some(&board()), Some(&post()), SelfDeleteOutcome::DeletedReply,
    );
    assert!(matches!(
        reply,
        ActionReply::Refuse(AppError::Forbidden(message)) if message == SelfAction::Delete.lost_message()
    ));
}

#[test]
fn deletions_say_what_stopped_them() {
    let refused = |outcome: SelfDeleteOutcome| match answer_delete("b", 7, outcome) {
        ActionReply::Refuse(AppError::Forbidden(message)) => message,
        ActionReply::Refuse(AppError::NotFound(message)) => message,
        other => panic!("not refused: {other:?}"),
    };
    assert!(matches!(
        answer_delete("b", 7, SelfDeleteOutcome::DeletedReply),
        ActionReply::Deleted { url } if url == "/b/thread/7"
    ));
    assert_eq!(refused(SelfDeleteOutcome::NotFound), "Post not found.");
    assert_eq!(
        refused(SelfDeleteOutcome::WrongToken),
        SelfAction::Delete.lost_message()
    );
    assert_eq!(
        refused(SelfDeleteOutcome::WindowClosed),
        SelfAction::Delete.closed_message()
    );
    assert_eq!(refused(SelfDeleteOutcome::ThreadClosed), THREAD_CLOSED);
    assert_eq!(refused(SelfDeleteOutcome::ThreadHasReplies), THREAD_HAS_REPLIES);
    assert!(admit_delete("b", Some(&board()), Some(&post())).is_ok());
    assert!(admit_delete("b", None, Some(&post())).is_err());
}

fn poll() -> PollContext {
    PollContext {
        poll_id: 3,
        thread_id: 7,
        board_short: "b".to_owned(),
    }
}

#[test]
fn votes_are_cast_in_open_polls() {
    let p = poll();
    assert!(matches!(
        vote_handler(true, 9, Some(&p), true, Some(&p), NOW + 1, NOW, 1),
        VoteReply::Cast { poll_id: 3, url } if url == "/b/thread/7#poll"
    ));
    assert!(matches!(
        vote_handler(true, 9, Some(&p), true, Some(&p), NOW, NOW, 1),
        VoteReply::Refuse(AppError::BadRequest(message)) if message == POLL_CLOSED
    ));
    assert!(matches!(
        vote_handler(true, 9, Some(&p), true, Some(&p), NOW + 1, NOW, 0),
        VoteReply::Refuse(AppError::BadRequest(message)) if message == INVALID_OPTION
    ));
    assert!(matches!(
        vote_handler(true, 0, Some(&p), true, Some(&p), NOW + 1, NOW, 1),
        VoteReply::Refuse(AppError::BadRequest(message)) if message == INVALID_OPTION
    ));
    assert!(matches!(
        vote_handler(true, 9, None, true, None, NOW + 1, NOW, 1),
        VoteReply::Refuse(AppError::NotFound(message)) if message == OPTION_MISSING
    ));
    assert!(matches!(
        vote_handler(true, 9, Some(&p), true, None, NOW + 1, NOW, 1),
        VoteReply::Refuse(AppError::NotFound(message)) if message == OPTION_MISSING
    ));
    assert!(matches!(
        vote_handler(true, 9, Some(&p), false, Some(&p), NOW + 1, NOW, 1),
        VoteReply::Unlock { return_to } if return_to == "/b/thread/7#poll"
    ));
    assert!(matches!(
        vote_handler(false, 9, Some(&p), true, Some(&p), NOW + 1, NOW, 1),
        VoteReply::CsrfRefused
    ));
}

fn read(csrf_verified: bool) -> FormReading {
    FormReading::Read {
        csrf_verified,
        form: ReplyForm { name: "anon".to_owned(), body: "text".to_owned(), sage: true },
    }
}

fn submitted() -> Result<SubmittedPost, AppError> {
    Ok(SubmittedPost {
        board_short: "b".to_owned(),
        thread_id: 7,
        post_id: 72,
        deletion_token: "token".to_owned(),
        created_at: NOW,
        redirect_url: "/b/thread/7#p72".to_owned(),
    })
}

#[test]
fn xhr_reply_returns_explicit_redirect_header() {
    match post_reply(true, None, read(true), submitted()) {
        ReplyAnswer::Posted { grant, status, url, xhr } => {
            assert!(xhr);
            assert_eq!(status, 204);
            assert_eq!(url, "/b/thread/7#p72");
            assert_eq!(grant.post_id, 72);
            assert_eq!(grant.deletion_token, "token");
            assert_eq!(grant.expires_at, NOW + 60);
        }
        other => panic!("not posted: {other:?}"),
    }
}

#[test]
fn xhr_reply_validation_failure_returns_json_error() {
    let bad = || Err(AppError::BadRequest("Post body is empty.".to_owned()));
    assert!(matches!(
        post_reply(true, None, read(true), bad()),
        ReplyAnswer::Problem { status: 200, error_status: 422, message } if message == "Post body is empty."
    ));
    assert!(matches!(
        post_reply(false, None, read(true), bad()),
        ReplyAnswer::ThreadAgain { status: 422, message, form }
            if message == "Post body is empty." && form.body == "text"
    ));
}

#[test]
fn replies_are_refused_before_they_are_stored() {
    assert!(matches!(
        post_reply(false, Some("/b/thread/7".to_owned()), FormReading::TimedOut, submitted()),
        ReplyAnswer::Unlock { return_to } if return_to == "/b/thread/7"
    ));
    assert!(matches!(
        post_reply(false, None, FormReading::TimedOut, submitted()),
        ReplyAnswer::Refuse(AppError::BadRequest(message)) if message == UPLOAD_TIMED_OUT
    ));
    assert!(matches!(
        post_reply(false, None, FormReading::Failed(AppError::Other), submitted()),
        ReplyAnswer::Refuse(AppError::Other)
    ));
    assert!(matches!(
        post_reply(false, None, read(false), submitted()),
        ReplyAnswer::Refuse(AppError::Forbidden(message)) if message == CSRF_MISMATCH
    ));
    assert!(matches!(
        post_reply(true, None, read(true), Err(AppError::Other)),
        ReplyAnswer::ScriptError(AppError::Other)
    ));
    let form = ReplyForm { name: "anon".to_owned(), body: "text".to_owned(), sage: true };
    let kept = kept_reply(&form);
    assert_eq!(kept.name, "anon");
    assert_eq!(kept.subject, "");
    assert_eq!(kept.body, "text");
    assert!(kept.sage);
}

fn page() -> ThreadPageState {
    ThreadPageState {
        thread_sig: "sig".to_owned(),
        boards_version: 4,
        admin_token: None,
        can_post: true,
        collapse_greentext: false,
        theme_tag: "dark".to_owned(),
        preferences_tag: "prefs".to_owned(),
        thread_badges: false,
        homepage_thread_badges: false,
        homepage_reply_badges: false,
    }
}

#[test]
fn controls_follow_the_last_grant() {
    let mut other_thread = grant(80, 900);
    other_thread.thread_id = 8;
    let mut other_board = grant(81, 900);
    other_board.board_short = "c".to_owned();
    let grants = vec![grant(72, 100), grant(71, 200), other_thread, other_board, grant(72, 300)];
    assert_eq!(owned_controls(&grants, "b", 7), vec![(71, 200), (72, 300)]);
}

#[test]
fn the_tag_of_a_page_tells_rights_apart() {
    let none = vec![];
    let own = vec![(71, 200)];
    let empty = "e3b0c44298fc1c149afbf4c8996fb92427ae41e4649b934ca495991b7852b855";
    assert_eq!(ownership_signature(&none), empty);
    assert_eq!(
        page_etag(&page(), &none),
        format!("\"sig-b4-p1-cg0-tdark-o{empty}-prefs\"")
    );
    assert_ne!(page_etag(&page(), &none), page_etag(&page(), &own));
    let mut admin = page();
    admin.admin_token = Some("abc".to_owned());
    assert_eq!(
        page_etag(&admin, &none),
        format!("\"sig-b4-aba7816bf8f01-p1-cg0-tdark-o{empty}-prefs\"")
    );
    let mut reader = page();
    reader.can_post = false;
    assert_ne!(page_etag(&reader, &none), page_etag(&page(), &none));
}

#[test]
fn an_unchanged_page_is_not_sent_again() {
    let etag = page_etag(&page(), &vec![]);
    assert!(matches!(
        view_thread("b", 7, false, &page(), &vec![], Some(&etag), None),
        ViewAnswer::NotModified { .. }
    ));
    let mut badges = page();
    badges.thread_badges = true;
    assert!(matches!(
        view_thread("b", 7, false, &badges, &vec![], Some(&etag), None),
        ViewAnswer::Page { remember_thread: true, remember_board: false, activity: true, .. }
    ));
    assert!(matches!(
        view_thread("b", 7, false, &page(), &vec![grant(71, 200)], Some(&etag), Some("1")),
        ViewAnswer::Page { message: Some(REPORT_SUBMITTED), .. }
    ));
    assert!(matches!(
        view_thread("b", 7, true, &page(), &vec![], Some(&etag), None),
        ViewAnswer::Denied { return_to } if return_to == "/b/thread/7"
    ));
    assert!(ThreadPageQuery::default().reported.is_none());
}

#[test]
fn refreshed_posts_are_bounded_and_ordered() {
    assert_eq!(
        parse_refresh_post_ids(Some("5, 3,x,3,-1,0,9")),
        vec![3, 5, 9]
    );
    assert_eq!(parse_refresh_post_ids(None), Vec::<i64>::new());
    let many: Vec<String> = (1..=100).map(|n: i64| n.to_string()).collect();
    assert_eq!(parse_refresh_post_ids(Some(&many.join(","))).len(), 64);
}

fn drawn(id: i64) -> RenderedPost {
    RenderedPost {
        id,
        html: format!("<p>{id}</p>"),
    }
}

const QUIET: ActivityBadgeSettings = ActivityBadgeSettings {
    thread_badges_enabled: false,
    homepage_thread_badges_enabled: true,
    homepage_reply_badges_enabled: false,
};

#[test]
fn updates_tell_what_is_new() {
    let reply = thread_updates(
        true, Some(&board()), Some(&thread()), 70, &vec![drawn(71), drawn(73), drawn(72)],
        vec![drawn(70)], QUIET, 4, "<nav>".to_owned(),
    );
    match reply {
        UpdatesReply::Updates { payload, remember_thread, remember_board } => {
            assert_eq!(payload.html, "<p>71</p><p>73</p><p>72</p>");
            assert_eq!(payload.last_id, 73);
            assert_eq!(payload.count, 3);
            assert_eq!(payload.refreshed_posts.len(), 1);
            assert_eq!(payload.reply_count, 3);
            assert_eq!(payload.bump_time, NOW + 5);
            assert!(payload.sticky);
            assert!(!payload.locked);
            assert_eq!(payload.boards_version, 4);
            assert_eq!(payload.nav_html, "<nav>");
            assert!(!remember_thread);
            assert!(remember_board);
        }
        other => panic!("no updates: {other:?}"),
    }
}

#[test]
fn updates_are_refused_without_board_thread_or_access() {
    let none = || (vec![], vec![], "<nav>".to_owned());
    let (posts, refreshed, nav) = none();
    assert!(matches!(
        thread_updates(false, Some(&board()), Some(&thread()), 0, &posts, refreshed, QUIET, 4, nav),
        UpdatesReply::Forbidden
    ));
    let (posts, refreshed, nav) = none();
    assert!(matches!(
        thread_updates(true, None, Some(&thread()), 0, &posts, refreshed, QUIET, 4, nav),
        UpdatesReply::Refuse(AppError::NotFound(message)) if message == "Board not found."
    ));
    let (posts, refreshed, nav) = none();
    assert!(matches!(
        thread_updates(true, Some(&board()), None, 0, &posts, refreshed, QUIET, 4, nav),
        UpdatesReply::Refuse(AppError::NotFound(message)) if message == "Thread not found."
    ));
    let (posts, refreshed, nav) = none();
    assert!(matches!(
        thread_updates(true, Some(&board()), Some(&thread()), 70, &posts, refreshed, QUIET, 4, nav),
        UpdatesReply::Updates { payload, .. } if payload.last_id == 70 && payload.count == 0
    ));
}

#[test]
fn updates_draw_no_controls() {
    let opts = update_render_opts(&board(), &thread(), true, true);
    assert!(!opts.show_delete && !opts.is_admin && !opts.allow_editing && !opts.allow_self_delete);
    assert_eq!(opts.thread_state, Some((true, false, false)));
    assert_eq!(opts.thread_op_id, Some(70));
    assert_eq!(update_render_opts(&board(), &thread(), false, true).thread_state, None);
}

#[test]
fn reply_cooldown_failure_rerenders_thread_inline() {
    let refused = Err(AppError::BadRequest("Please wait 60 seconds before posting again.".to_owned()));
    match post_reply(false, None, read(true), refused) {
        ReplyAnswer::ThreadAgain { status, message, form } => {
            assert_eq!(status, 422);
            assert!(message.contains("Please wait"));
            assert!(message.contains("before posting again."));
            assert_eq!(form.name, "anon");
            assert_eq!(form.subject, "");
            assert_eq!(form.body, "text");
            assert!(form.sage);
        }
        other => panic!("not shown again: {other:?}"),
    }
}

#[test]
fn updates_of_a_thread_on_another_board_are_not_found() {
    let mut elsewhere = thread();
    elsewhere.board_id = board().id + 1;
    assert!(matches!(
        thread_updates(
            true,
            Some(&board()),
            Some(&elsewhere),
            0,
            &vec![],
            vec![],
            QUIET,
            4,
            "<nav>".to_owned(),
        ),
        UpdatesReply::Refuse(AppError::NotFound(message))
            if message == "Thread not found in this board."
    ));
}
