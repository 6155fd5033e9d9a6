//! Background jobs and the media that they claim.

use vstd::prelude::*;
use vstd::string::*;
use crate::json;
use crate::numbers;
use crate::numbers::numbered;
use crate::paths;
use crate::paths::{path_extension, path_file_stem};
use crate::text;
use crate::text::{concat, str_eq, to_ascii_lowercase};
use super::model;
use super::model::{
    count_rows, is_valid_board_short, parse_managed_path, redacted_identifier, remaining_rows,
    AuditFinding, FindingView, JobCandidateView, JobRepairCandidate, ModelView,
    PostView, RecordView, ReferenceModel, ReferenceRecord, ReferenceRole, ReferenceSource,
};
use super::report::{AuditClassification, MediaCategory};

verus! {

/// What the data object of a job payload holds.
#[derive(Debug, Clone)]
pub struct JobData {
    pub post_id: Option<i64>,
    pub board_short: Option<String>,
    pub file_path: Option<String>,
    pub board_id: Option<i64>,
}

/// The model of a job's data object.
#[verifier::ext_equal]
pub struct JobDataView {
    pub post_id: Option<i64>,
    pub board_short: Option<Seq<char>>,
    pub file_path: Option<Seq<char>>,
    pub board_id: Option<i64>,
}

impl View for JobData {
    type V = JobDataView;

    open spec fn view(&self) -> JobDataView {
        JobDataView {
            post_id: self.post_id,
            board_short: text::opt_view(self.board_short),
            file_path: text::opt_view(self.file_path),
            board_id: self.board_id,
        }
    }
}

/// What a job payload holds: its tag and its data object.
#[derive(Debug, Clone)]
pub struct JobPayload {
    pub tag: Option<String>,
    pub data: Option<JobData>,
}

/// The model of a job payload.
#[verifier::ext_equal]
pub struct JobPayloadView {
    pub tag: Option<Seq<char>>,
    pub data: Option<JobDataView>,
}

impl View for JobPayload {
    type V = JobPayloadView;

    open spec fn view(&self) -> JobPayloadView {
        JobPayloadView { tag: text::opt_view(self.tag), data: text::opt_view(self.data) }
    }
}

/// The text of a JSON object's string member.
pub open spec fn text_member(value: serde_json::Value, key: Seq<char>) -> Option<Seq<char>> {
    match json::json_member(value, key) {
        Some(found) => json::json_text(found),
        None => None,
    }
}

/// The integer of a JSON object's number member.
pub open spec fn integer_member(value: serde_json::Value, key: Seq<char>) -> Option<i64> {
    match json::json_member(value, key) {
        Some(found) => json::json_integer(found),
        None => None,
    }
}

/// What a job's data document holds.
pub open spec fn document_data(value: serde_json::Value) -> JobDataView {
    JobDataView {
        post_id: integer_member(value, "post_id"@),
        board_short: text_member(value, "board_short"@),
        file_path: text_member(value, "file_path"@),
        board_id: integer_member(value, "board_id"@),
    }
}

/// What a job payload's text holds, where it is a JSON document.
pub open spec fn payload_of(payload: Seq<char>) -> Option<JobPayloadView> {
    match json::json_document(payload) {
        Some(value) => Some(
            JobPayloadView {
                tag: text_member(value, "t"@),
                data: match json::json_member(value, "d"@) {
                    Some(data) => if json::json_is_object(data) {
                        Some(document_data(data))
                    } else {
                        None
                    },
                    None => None,
                },
            },
        ),
        None => None,
    }
}

fn read_text(value: &serde_json::Value, key: &str) -> (r: Option<String>)
    ensures
        text::opt_view(r) == text_member(*value, key@),
{
    match json::member(value, key) {
        Some(found) => match json::as_text(found) {
            Some(text) => Some(text.to_owned()),
            None => None,
        },
        None => None,
    }
}

fn read_integer(value: &serde_json::Value, key: &str) -> (r: Option<i64>)
    ensures
        r == integer_member(*value, key@),
{
    match json::member(value, key) {
        Some(found) => json::as_integer(found),
        None => None,
    }
}

/// Reads a job payload's text.
pub fn read_payload(payload: &str) -> (r: Option<JobPayload>)
    ensures
        text::opt_view(r) == payload_of(payload@),
{
    let value = match json::parse(payload) {
        Some(value) => value,
        None => {
            return None;
        },
    };
    let tag = read_text(&value, "t");
    let data = match json::member(&value, "d") {
        Some(data) => if json::is_object(data) {
            let fields = JobData {
                post_id: read_integer(data, "post_id"),
                board_short: read_text(data, "board_short"),
                file_path: read_text(data, "file_path"),
                board_id: read_integer(data, "board_id"),
            };
            assert(fields@ == document_data(*data));
            Some(fields)
        } else {
            None
        },
        None => None,
    };
    let r = JobPayload { tag, data };
    assert(r@ == payload_of(payload@)->Some_0);
    Some(r)
}

/// A background job, decoded.
#[derive(Debug, Clone)]
pub enum ParsedJob {
    /// Makes derived media of an original.
    Media {
        post_id: i64,
        board: String,
        source: String,
        output: String,
        category: MediaCategory,
    },
    /// Prunes a board's threads.
    ThreadPrune { board_id: i64 },
    /// Checks a post for spam.
    SpamCheck { post_id: i64 },
}

/// The model of a decoded job.
pub enum JobView {
    Media {
        post_id: i64,
        board: Seq<char>,
        source: Seq<char>,
        output: Seq<char>,
        category: MediaCategory,
    },
    ThreadPrune { board_id: i64 },
    SpamCheck { post_id: i64 },
}

impl View for ParsedJob {
    type V = JobView;

    open spec fn view(&self) -> JobView {
        match self {
            ParsedJob::Media { post_id, board, source, output, category } => JobView::Media {
                post_id: *post_id,
                board: board@,
                source: source@,
                output: output@,
                category: *category,
            },
            ParsedJob::ThreadPrune { board_id } => JobView::ThreadPrune { board_id: *board_id },
            ParsedJob::SpamCheck { post_id } => JobView::SpamCheck { post_id: *post_id },
        }
    }
}

/// The stem of a job's source file, where it is not empty.
pub open spec fn source_stem(source: Seq<char>) -> Option<Seq<char>> {
    match paths::file_stem(source) {
        Some(stem) => if stem.len() > 0 {
            Some(stem)
        } else {
            None
        },
        None => None,
    }
}

/// The file that a video transcode makes of its source.
pub open spec fn transcode_output(board: Seq<char>, source: Seq<char>) -> Option<Seq<char>> {
    match (source_stem(source), paths::extension(source)) {
        (Some(stem), Some(ext)) => if text::lower(ext) == "webm"@ {
            Some(board + "/"@ + (stem + ".vp9.webm"@))
        } else if text::lower(ext) == "mp4"@ || text::lower(ext) == "mkv"@ {
            Some(board + "/"@ + (stem + ".webm"@))
        } else {
            None
        },
        _ => None,
    }
}

/// The file that a waveform job makes of its source.
pub open spec fn waveform_output(board: Seq<char>, source: Seq<char>) -> Option<Seq<char>> {
    match source_stem(source) {
        Some(stem) => Some(board + "/thumbs/"@ + (stem + ".png"@)),
        None => None,
    }
}

/// The media job that a data object describes, given the file that it makes.
pub open spec fn media_job(
    data: JobDataView,
    output: Option<Seq<char>>,
    category: MediaCategory,
) -> Option<JobView> {
    match (data.post_id, data.board_short, data.file_path, output) {
        (Some(post_id), Some(board), Some(source), Some(output)) => Some(
            JobView::Media { post_id, board, source, output, category },
        ),
        _ => None,
    }
}

/// The output that a data object implies, where it names a board and a source.
pub open spec fn output_of(data: JobDataView, transcode: bool) -> Option<Seq<char>> {
    match (data.board_short, data.file_path) {
        (Some(board), Some(source)) => if transcode {
            transcode_output(board, source)
        } else {
            waveform_output(board, source)
        },
        _ => None,
    }
}

/// The job that a payload describes, where its tag fits the job's type.
pub open spec fn job_of(job_type: Seq<char>, payload: JobPayloadView) -> Option<JobView> {
    match (payload.tag, payload.data) {
        (Some(tag), Some(data)) => if job_type == "video_transcode"@ && tag == "VideoTranscode"@ {
            media_job(data, output_of(data, true), MediaCategory::TranscodedOutput)
        } else if job_type == "audio_waveform"@ && tag == "AudioWaveform"@ {
            media_job(data, output_of(data, false), MediaCategory::Waveform)
        } else if job_type == "thread_prune"@ && tag == "ThreadPrune"@ {
            match data.board_id {
                Some(board_id) => Some(JobView::ThreadPrune { board_id }),
                None => None,
            }
        } else if job_type == "spam_check"@ && tag == "SpamCheck"@ {
            match data.post_id {
                Some(post_id) => Some(JobView::SpamCheck { post_id }),
                None => None,
            }
        } else {
            None
        },
        _ => None,
    }
}

/// The job that a row describes.
pub open spec fn parsed_job(job_type: Seq<char>, payload: Seq<char>) -> Option<JobView> {
    match payload_of(payload) {
        Some(fields) => job_of(job_type, fields),
        None => None,
    }
}

fn stem_of_source(source: &str) -> (r: Option<String>)
    ensures
        text::opt_view(r) == source_stem(source@),
{
    match path_file_stem(source) {
        Some(stem) => if stem.as_str().is_empty() {
            None
        } else {
            Some(stem)
        },
        None => None,
    }
}

/// The file that a video transcode makes of its source.
pub fn transcode_output_path(board: &str, source: &str) -> (r: Option<String>)
    ensures
        text::opt_view(r) == transcode_output(board@, source@),
{
    let stem = match stem_of_source(source) {
        Some(stem) => stem,
        None => {
            return None;
        },
    };
    let ext = match path_extension(source) {
        Some(ext) => to_ascii_lowercase(ext.as_str()),
        None => {
            return None;
        },
    };
    let name = if str_eq(ext.as_str(), "webm") {
        concat(stem.as_str(), ".vp9.webm")
    } else if str_eq(ext.as_str(), "mp4") || str_eq(ext.as_str(), "mkv") {
        concat(stem.as_str(), ".webm")
    } else {
        return None;
    };
    let mut output = concat(board, "/");
    output.append(name.as_str());
    Some(output)
}

/// The file that a waveform job makes of its source.
pub fn waveform_output_path(board: &str, source: &str) -> (r: Option<String>)
    ensures
        text::opt_view(r) == waveform_output(board@, source@),
{
    let stem = match stem_of_source(source) {
        Some(stem) => stem,
        None => {
            return None;
        },
    };
    let name = concat(stem.as_str(), ".png");
    let mut output = concat(board, "/thumbs/");
    output.append(name.as_str());
    Some(output)
}

fn media_job_from(data: &JobData, transcode: bool) -> (r: Option<ParsedJob>)
    ensures
        text::opt_view(r) == media_job(
            data@,
            output_of(data@, transcode),
            if transcode {
                MediaCategory::TranscodedOutput
            } else {
                MediaCategory::Waveform
            },
        ),
{
    match (data.post_id, &data.board_short, &data.file_path) {
        (Some(post_id), Some(board), Some(source)) => {
            let output = if transcode {
                transcode_output_path(board.as_str(), source.as_str())
            } else {
                waveform_output_path(board.as_str(), source.as_str())
            };
            match output {
                Some(output) => Some(
                    ParsedJob::Media {
                        post_id,
                        board: board.clone(),
                        source: source.clone(),
                        output,
                        category: if transcode {
                            MediaCategory::TranscodedOutput
                        } else {
                            MediaCategory::Waveform
                        },
                    },
                ),
                None => None,
            }
        },
        _ => None,
    }
}

/// The job that a payload describes, where its tag fits the job's type.
pub fn interpret_job(job_type: &str, payload: &JobPayload) -> (r: Option<ParsedJob>)
    ensures
        text::opt_view(r) == job_of(job_type@, payload@),
{
    let (tag, data) = match (&payload.tag, &payload.data) {
        (Some(tag), Some(data)) => (tag.as_str(), data),
        _ => {
            return None;
        },
    };
    if str_eq(job_type, "video_transcode") && str_eq(tag, "VideoTranscode") {
        media_job_from(data, true)
    } else if str_eq(job_type, "audio_waveform") && str_eq(tag, "AudioWaveform") {
        media_job_from(data, false)
    } else if str_eq(job_type, "thread_prune") && str_eq(tag, "ThreadPrune") {
        match data.board_id {
            Some(board_id) => Some(ParsedJob::ThreadPrune { board_id }),
            None => None,
        }
    } else if str_eq(job_type, "spam_check") && str_eq(tag, "SpamCheck") {
        match data.post_id {
            Some(post_id) => Some(ParsedJob::SpamCheck { post_id }),
            None => None,
        }
    } else {
        None
    }
}

/// Decodes a job row; nothing where it is malformed.
pub fn parse_job(job_type: &str, payload: &str) -> (r: Option<ParsedJob>)
    ensures
        text::opt_view(r) == parsed_job(job_type@, payload@),
{
    match read_payload(payload) {
        Some(fields) => interpret_job(job_type, &fields),
        None => None,
    }
}

/// What identifies the work of a media job.
#[derive(Debug, Clone)]
pub struct MediaJobKey {
    pub job_type: String,
    pub post_id: i64,
    pub board: String,
    pub source: String,
    pub output: String,
}

/// The model of a media job's identity.
#[verifier::ext_equal]
pub struct MediaKeyView {
    pub job_type: Seq<char>,
    pub post_id: i64,
    pub board: Seq<char>,
    pub source: Seq<char>,
    pub output: Seq<char>,
}

impl View for MediaJobKey {
    type V = MediaKeyView;

    open spec fn view(&self) -> MediaKeyView {
        MediaKeyView {
            job_type: self.job_type@,
            post_id: self.post_id,
            board: self.board@,
            source: self.source@,
            output: self.output@,
        }
    }
}

/// The identity of a media job's work.
pub open spec fn media_key(job_type: Seq<char>, job: JobView) -> Option<MediaKeyView> {
    match job {
        JobView::Media { post_id, board, source, output, category: _ } => Some(
            MediaKeyView { job_type, post_id, board, source, output },
        ),
        _ => None,
    }
}

/// The identity of a media job's work.
pub fn media_job_key(job_type: &str, parsed: &ParsedJob) -> (r: Option<MediaJobKey>)
    ensures
        text::opt_view(r) == media_key(job_type@, parsed@),
{
    match parsed {
        ParsedJob::Media { post_id, board, source, output, category: _ } => Some(
            MediaJobKey {
                job_type: job_type.to_owned(),
                post_id: *post_id,
                board: board.clone(),
                source: source.clone(),
                output: output.clone(),
            },
        ),
        _ => None,
    }
}

/// A row of the job table.
#[derive(Debug, Clone)]
pub struct JobRow {
    pub id: i64,
    pub job_type: String,
    pub payload: String,
    pub status: String,
}

/// The model of a job row.
pub struct JobRowView {
    pub id: i64,
    pub job_type: Seq<char>,
    pub payload: Seq<char>,
    pub status: Seq<char>,
}

impl View for JobRow {
    type V = JobRowView;

    open spec fn view(&self) -> JobRowView {
        JobRowView {
            id: self.id,
            job_type: self.job_type@,
            payload: self.payload@,
            status: self.status@,
        }
    }
}

/// The identity of the work that a row has completed.
pub open spec fn completed_key(row: JobRowView) -> Option<MediaKeyView> {
    if row.status == "done"@ {
        match parsed_job(row.job_type, row.payload) {
            Some(job) => media_key(row.job_type, job),
            None => None,
        }
    } else {
        None
    }
}

/// Whether some row has completed the work.
pub open spec fn is_completed(rows: Seq<JobRowView>, key: MediaKeyView) -> bool {
    exists|i: int| 0 <= i < rows.len() && completed_key(#[trigger] rows[i]) == Some(key)
}

/// Whether the post still holds the job's source or output as its file.
pub open spec fn job_fits_post(
    post: Option<PostView>,
    board: Seq<char>,
    source: Seq<char>,
    output: Seq<char>,
) -> bool {
    match post {
        Some(post) => post.board == board && (post.file_path == Some(source) || post.file_path
            == Some(output)),
        None => false,
    }
}

/// The post with the given identifier.
pub open spec fn post_of(m: ModelView, post_id: i64) -> Option<PostView> {
    if m.posts.dom().contains(post_id) {
        Some(m.posts[post_id])
    } else {
        None
    }
}

/// Whether a job with this status is still to run.
pub open spec fn job_is_active(status: Seq<char>) -> bool {
    status == "pending"@ || status == "running"@
}

/// What a media job's row is found to be.
pub open spec fn media_job_class(superseded: bool, compatible: bool, active: bool) -> AuditClassification {
    if superseded || !compatible {
        AuditClassification::ObsoleteJob
    } else if active {
        AuditClassification::LifecycleInProgress
    } else {
        AuditClassification::Healthy
    }
}

/// The snapshot after one media job.
pub open spec fn with_media_job(
    m: ModelView,
    row: JobRowView,
    key: MediaKeyView,
    category: MediaCategory,
    superseded: bool,
) -> ModelView {
    let owner = "job:"@ + numbers::int_text(row.id as int);
    match (
        model::managed_path(key.source, Some(key.board), m.boards),
        model::managed_path(key.output, Some(key.board), m.boards),
    ) {
        (Some(source), Some(output)) => {
            let compatible = job_fits_post(
                post_of(m, key.post_id),
                key.board,
                key.source,
                key.output,
            );
            let active = job_is_active(row.status);
            let role = if active || !compatible {
                ReferenceRole::Temporary
            } else {
                ReferenceRole::Active
            };
            let m1 = m.with_record(
                RecordView {
                    source: ReferenceSource::Job,
                    path: source.relative,
                    board: Some(key.board),
                    category: MediaCategory::Original,
                    role,
                    owner,
                    expected_digest: None,
                    recoverable_source: None,
                },
            ).with_record(
                RecordView {
                    source: ReferenceSource::Job,
                    path: output.relative,
                    board: Some(key.board),
                    category,
                    role,
                    owner,
                    expected_digest: None,
                    recoverable_source: Some(source.relative),
                },
            ).with_finding(
                FindingView {
                    classification: media_job_class(superseded, compatible, active),
                    category,
                    board: Some(key.board),
                    managed_id: output.relative,
                    owner: Some(owner),
                },
            );
            if !active && !compatible {
                ModelView {
                    job_candidates: m1.job_candidates.push(
                        JobCandidateView {
                            id: row.id,
                            job_type: row.job_type,
                            payload: row.payload,
                        },
                    ),
                    ..m1
                }
            } else {
                m1
            }
        },
        _ => m.ambiguous().with_finding(
            FindingView {
                classification: AuditClassification::MalformedJob,
                category,
                board: if model::valid_board(key.board) {
                    Some(key.board)
                } else {
                    None
                },
                managed_id: model::redacted(row.payload),
                owner: Some(owner),
            },
        ),
    }
}

/// The snapshot after one job row, given all the rows read with it.
pub open spec fn with_job(m: ModelView, rows: Seq<JobRowView>, row: JobRowView) -> ModelView {
    let owner = Some("job:"@ + numbers::int_text(row.id as int));
    match parsed_job(row.job_type, row.payload) {
        None => m.ambiguous().with_finding(
            FindingView {
                classification: AuditClassification::MalformedJob,
                category: MediaCategory::Unknown,
                board: None,
                managed_id: model::redacted(row.payload),
                owner,
            },
        ),
        Some(JobView::Media { post_id, board, source, output, category }) => {
            let key = MediaKeyView { job_type: row.job_type, post_id, board, source, output };
            with_media_job(
                m,
                row,
                key,
                category,
                row.status != "done"@ && is_completed(rows, key),
            )
        },
        Some(JobView::ThreadPrune { board_id }) => {
            let known = m.boards_by_id.dom().contains(board_id);
            m.with_finding(
                FindingView {
                    classification: if known {
                        AuditClassification::LifecycleInProgress
                    } else {
                        AuditClassification::ObsoleteJob
                    },
                    category: MediaCategory::Unknown,
                    board: if known {
                        Some(m.boards_by_id[board_id])
                    } else {
                        None
                    },
                    managed_id: "thread-prune"@,
                    owner,
                },
            )
        },
        Some(JobView::SpamCheck { post_id }) => {
            let post = post_of(m, post_id);
            m.with_finding(
                FindingView {
                    classification: if post is Some {
                        AuditClassification::Healthy
                    } else {
                        AuditClassification::ObsoleteJob
                    },
                    category: MediaCategory::Unknown,
                    board: match post {
                        Some(post) => Some(post.board),
                        None => None,
                    },
                    managed_id: "spam-check"@,
                    owner,
                },
            )
        },
    }
}

/// The snapshot after the first `n` job rows.
pub open spec fn with_jobs(m: ModelView, rows: Seq<JobRowView>, n: nat) -> ModelView
    decreases n,
{
    if n == 0 {
        m
    } else {
        with_job(with_jobs(m, rows, (n - 1) as nat), rows, rows[n - 1])
    }
}

/// The snapshot after the job table.
pub open spec fn jobs_collected(m: ModelView, rows: Seq<JobRowView>, limit: usize) -> ModelView {
    let left = model::rows_left(m, limit);
    if left == 0 {
        m.truncated()
    } else {
        let kept = model::kept_rows(rows, left);
        with_jobs(model::counted(m, rows.len(), left), kept, kept.len())
    }
}

/// A job that has been superseded is reported as obsolete, and it still keeps
/// its files from being treated as orphans.
pub proof fn law_superseded_jobs_keep_their_files(
    m: ModelView,
    row: JobRowView,
    key: MediaKeyView,
    category: MediaCategory,
)
    requires
        model::managed_path(key.source, Some(key.board), m.boards) is Some,
        model::managed_path(key.output, Some(key.board), m.boards) is Some,
    ensures
        ({
            let after = with_media_job(m, row, key, category, true);
            let source = model::managed_path(key.source, Some(key.board), m.boards)->Some_0;
            let output = model::managed_path(key.output, Some(key.board), m.boards)->Some_0;
            &&& after.findings.last().classification is ObsoleteJob
            &&& model::required_on(after.records, source.relative).len() > 0
            &&& model::required_on(after.records, output.relative).len() > 0
        }),
{
    let after = with_media_job(m, row, key, category, true);
    reveal_with_fuel(model::required_on, 3);
    assert(after.records.drop_last().drop_last() =~= m.records);
}

fn find_post<'a>(m: &'a ReferenceModel, post_id: i64) -> (r: Option<&'a model::PostMediaState>)
    ensures
        match r {
            Some(post) => post_of(m@, post_id) == Some(post@),
            None => post_of(m@, post_id) is None,
        },
{
    broadcast use vstd::std_specs::btree::group_btree_axioms;

    m.posts.get(&post_id)
}

fn find_board(m: &ReferenceModel, board_id: i64) -> (r: Option<String>)
    ensures
        text::opt_view(r) == (if m@.boards_by_id.dom().contains(board_id) {
            Some(m@.boards_by_id[board_id])
        } else {
            None
        }),
{
    broadcast use vstd::std_specs::btree::group_btree_axioms;

    match m.boards_by_id.get(&board_id) {
        Some(board) => Some(board.clone()),
        None => None,
    }
}

fn same_path(path: &Option<String>, other: &str) -> (r: bool)
    ensures
        r == (text::opt_view(*path) == Some(other@)),
{
    match path {
        Some(path) => str_eq(path.as_str(), other),
        None => false,
    }
}

/// Reads one media job into the snapshot.
pub fn collect_media_job(
    m: &mut ReferenceModel,
    row: &JobRow,
    key: &MediaJobKey,
    category: MediaCategory,
    superseded: bool,
)
    ensures
        final(m)@ == with_media_job(old(m)@, row@, key@, category, superseded),
{
    broadcast use text::group_views;

    let owner = numbered("job:", row.id);
    let board = Some(key.board.as_str());
    let source = parse_managed_path(key.source.as_str(), board, &m.boards);
    let output = parse_managed_path(key.output.as_str(), board, &m.boards);
    let (source, output) = match (source, output) {
        (Some(source), Some(output)) => (source, output),
        _ => {
            m.mark_ambiguous();
            let board = if is_valid_board_short(key.board.as_str()) {
                Some(key.board.clone())
            } else {
                None
            };
            m.add_finding(
                AuditFinding {
                    classification: AuditClassification::MalformedJob,
                    category,
                    board,
                    managed_id: redacted_identifier(row.payload.as_str()),
                    owner: Some(owner),
                },
            );
            return ;
        },
    };
    let compatible = match find_post(m, key.post_id) {
        Some(post) => str_eq(post.board.as_str(), key.board.as_str()) && (same_path(
            &post.file_path,
            key.source.as_str(),
        ) || same_path(&post.file_path, key.output.as_str())),
        None => false,
    };
    let active = str_eq(row.status.as_str(), "pending") || str_eq(row.status.as_str(), "running");
    let classification = if superseded || !compatible {
        AuditClassification::ObsoleteJob
    } else if active {
        AuditClassification::LifecycleInProgress
    } else {
        AuditClassification::Healthy
    };
    let role = if active || !compatible {
        ReferenceRole::Temporary
    } else {
        ReferenceRole::Active
    };
    m.add_record(
        ReferenceRecord {
            source: ReferenceSource::Job,
            path: source.relative.clone(),
            board: Some(key.board.clone()),
            category: MediaCategory::Original,
            role,
            owner: owner.clone(),
            expected_digest: None,
            recoverable_source: None,
        },
    );
    m.add_record(
        ReferenceRecord {
            source: ReferenceSource::Job,
            path: output.relative.clone(),
            board: Some(key.board.clone()),
            category,
            role,
            owner: owner.clone(),
            expected_digest: None,
            recoverable_source: Some(source.relative),
        },
    );
    m.add_finding(
        AuditFinding {
            classification,
            category,
            board: Some(key.board.clone()),
            managed_id: output.relative,
            owner: Some(owner),
        },
    );
    if !active && !compatible {
        m.job_candidates.push(
            JobRepairCandidate {
                id: row.id,
                job_type: row.job_type.clone(),
                payload: row.payload.clone(),
            },
        );
    }
}

fn same_key(a: &MediaJobKey, b: &MediaJobKey) -> (r: bool)
    ensures
        r == (a@ == b@),
{
    str_eq(a.job_type.as_str(), b.job_type.as_str()) && a.post_id == b.post_id && str_eq(
        a.board.as_str(),
        b.board.as_str(),
    ) && str_eq(a.source.as_str(), b.source.as_str()) && str_eq(
        a.output.as_str(),
        b.output.as_str(),
    )
}

/// The identities of the work that the rows have completed.
fn completed_keys(rows: &Vec<JobRow>) -> (r: Vec<MediaJobKey>)
    ensures
        forall|key: MediaKeyView| #[trigger]
            is_completed(text::views(rows@), key) <==> text::views(r@).contains(key),
{
    broadcast use text::group_views;

    let ghost all = text::views(rows@);
    let mut keys: Vec<MediaJobKey> = Vec::new();
    let mut i: usize = 0;
    while i < rows.len()
        invariant
            i <= rows@.len(),
            all == text::views(rows@),
            forall|key: MediaKeyView| #[trigger]
                is_completed(all.take(i as int), key) <==> text::views(keys@).contains(key),
        decreases rows@.len() - i,
    {
        broadcast use text::group_views;

        let row = &rows[i];
        let ghost known = text::views(keys@);
        let ghost before = all.take(i as int);
        let ghost now = all.take(i as int + 1);
        assert(all[i as int] == row@);
        if str_eq(row.status.as_str(), "done") {
            if let Some(parsed) = parse_job(row.job_type.as_str(), row.payload.as_str()) {
                if let Some(key) = media_job_key(row.job_type.as_str(), &parsed) {
                    keys.push(key);
                }
            }
        }
        proof {
            let added = completed_key(row@);
            assert forall|key: MediaKeyView| #[trigger]
                is_completed(now, key) <==> text::views(keys@).contains(key) by {
                if is_completed(now, key) {
                    let j = choose|j: int|
                        0 <= j < now.len() && completed_key(#[trigger] now[j]) == Some(key);
                    if j < i {
                        assert(before[j] == now[j]);
                        assert(is_completed(before, key));
                        assert(known.contains(key));
                        assert(text::views(keys@)[known.index_of(key)] == key);
                    } else {
                        assert(text::views(keys@)[known.len() as int] == key);
                    }
                }
                if text::views(keys@).contains(key) {
                    let j = text::views(keys@).index_of(key);
                    if j < known.len() {
                        assert(known[j] == key);
                        assert(known.contains(key));
                        assert(is_completed(before, key));
                        let k = choose|k: int|
                            0 <= k < before.len() && completed_key(#[trigger] before[k]) == Some(
                                key,
                            );
                        assert(now[k] == before[k]);
                    } else {
                        assert(completed_key(now[i as int]) == Some(key));
                    }
                }
            }
        }
        i = i + 1;
    }
    assert(all.take(all.len() as int) =~= all);
    keys
}

fn holds_key(keys: &Vec<MediaJobKey>, key: &MediaJobKey) -> (r: bool)
    ensures
        r == text::views(keys@).contains(key@),
{
    let mut i: usize = 0;
    while i < keys.len()
        invariant
            i <= keys@.len(),
            forall|j: int| 0 <= j < i ==> text::views(keys@)[j] != key@,
        decreases keys@.len() - i,
    {
        if same_key(&keys[i], key) {
            assert(text::views(keys@)[i as int] == key@);
            return true;
        }
        i = i + 1;
    }
    false
}

fn collect_job(m: &mut ReferenceModel, row: &JobRow, completed: &Vec<MediaJobKey>, Ghost(rows): Ghost<
    Seq<JobRowView>,
>)
    requires
        forall|key: MediaKeyView| #[trigger]
            is_completed(rows, key) <==> text::views(completed@).contains(key),
    ensures
        final(m)@ == with_job(old(m)@, rows, row@),
{
    let owner = numbered("job:", row.id);
    let parsed = match parse_job(row.job_type.as_str(), row.payload.as_str()) {
        Some(parsed) => parsed,
        None => {
            m.mark_ambiguous();
            m.add_finding(
                AuditFinding {
                    classification: AuditClassification::MalformedJob,
                    category: MediaCategory::Unknown,
                    board: None,
                    managed_id: redacted_identifier(row.payload.as_str()),
                    owner: Some(owner),
                },
            );
            return ;
        },
    };
    match parsed {
        ParsedJob::Media { post_id, board, source, output, category } => {
            let key = MediaJobKey {
                job_type: row.job_type.clone(),
                post_id,
                board,
                source,
                output,
            };
            let superseded = !str_eq(row.status.as_str(), "done") && holds_key(completed, &key);
            collect_media_job(m, row, &key, category, superseded);
        },
        ParsedJob::ThreadPrune { board_id } => {
            let board = find_board(m, board_id);
            let classification = if board.is_some() {
                AuditClassification::LifecycleInProgress
            } else {
                AuditClassification::ObsoleteJob
            };
            m.add_finding(
                AuditFinding {
                    classification,
                    category: MediaCategory::Unknown,
                    board,
                    managed_id: "thread-prune".to_owned(),
                    owner: Some(owner),
                },
            );
        },
        ParsedJob::SpamCheck { post_id } => {
            let board = match find_post(m, post_id) {
                Some(post) => Some(post.board.clone()),
                None => None,
            };
            let classification = if board.is_some() {
                AuditClassification::Healthy
            } else {
                AuditClassification::ObsoleteJob
            };
            m.add_finding(
                AuditFinding {
                    classification,
                    category: MediaCategory::Unknown,
                    board,
                    managed_id: "spam-check".to_owned(),
                    owner: Some(owner),
                },
            );
        },
    }
}

/// Reads the job rows into the snapshot.
pub fn collect_jobs(m: &mut ReferenceModel, rows: Vec<JobRow>, row_limit: usize)
    ensures
        final(m)@ == jobs_collected(old(m)@, text::views(rows@), row_limit),
{
    broadcast use text::group_views;

    let mut rows = rows;
    let ghost given = text::views(rows@);
    let remaining: usize = remaining_rows(m, row_limit);
    if remaining == 0 {
        return ;
    }
    count_rows(m, &mut rows, remaining);
    let ghost base = m@;
    let ghost all = text::views(rows@);
    assert(all =~= model::kept_rows(given, remaining as nat));
    let completed = completed_keys(&rows);
    let mut i: usize = 0;
    while i < rows.len()
        invariant
            i <= rows@.len(),
            all == text::views(rows@),
            forall|key: MediaKeyView| #[trigger]
                is_completed(all, key) <==> text::views(completed@).contains(key),
            m@ == with_jobs(base, all, i as nat),
        decreases rows@.len() - i,
    {
        assert(all[i as int] == rows@[i as int]@);
        collect_job(m, &rows[i], &completed, Ghost(all));
        i = i + 1;
    }
}

/// A video is transcoded into its board's directory, under its own stem: one in WebM under a
/// name of its own, one in another known container as WebM, and no other file at all. A
/// waveform goes below `thumbs`, under the stem of its audio.
pub proof fn law_jobs_make_files_beside_their_source(
    board: Seq<char>,
    dir: Seq<char>,
    stem: Seq<char>,
    ext: Seq<char>,
)
    requires
        stem.len() > 0,
        !stem.contains('/'),
        ext.len() > 0,
        !ext.contains('/'),
        !ext.contains('.'),
    ensures
        ({
            let source = paths::joined_path(dir, stem + "."@ + ext);
            let made = transcode_output(board, source);
            let kind = text::lower(ext);
            &&& kind == "webm"@ ==> made == Some(board + "/"@ + stem + ".vp9.webm"@)
            &&& kind == "mp4"@ || kind == "mkv"@ ==> made == Some(board + "/"@ + stem + ".webm"@)
            &&& kind != "webm"@ && kind != "mp4"@ && kind != "mkv"@ ==> made is None
            &&& waveform_output(board, source) == Some(board + "/thumbs/"@ + stem + ".png"@)
        }),
{
    reveal_strlit("webm");
    reveal_strlit("mp4");
    reveal_strlit("mkv");
    assert("webm"@.len() == 4 && "webm"@[0] == 'w' && "webm"@[1] == 'e' && "webm"@[2] == 'b'
        && "webm"@[3] == 'm');
    assert("mp4"@.len() == 3 && "mp4"@[0] == 'm' && "mp4"@[1] == 'p' && "mp4"@[2] == '4');
    assert("mkv"@.len() == 3 && "mkv"@[0] == 'm' && "mkv"@[1] == 'k' && "mkv"@[2] == 'v');
    paths::law_paths_keep_their_parts(dir, stem, ext, ext);
    assert(board + "/"@ + (stem + ".vp9.webm"@) =~= board + "/"@ + stem + ".vp9.webm"@);
    assert(board + "/"@ + (stem + ".webm"@) =~= board + "/"@ + stem + ".webm"@);
    assert(board + "/thumbs/"@ + (stem + ".png"@) =~= board + "/thumbs/"@ + stem + ".png"@);
}

/// A job is read exactly where its row and its payload name the same kind and the payload
/// has what that kind needs: a post, a board and a file that yields an output for media, a
/// board to prune, a post to check.
pub proof fn law_jobs_are_read_by_their_kind(job_type: Seq<char>, tag: Seq<char>, data: JobDataView)
    ensures
        ({
            let job = job_of(job_type, JobPayloadView { tag: Some(tag), data: Some(data) });
            let video = job_type == "video_transcode"@ && tag == "VideoTranscode"@;
            let audio = job_type == "audio_waveform"@ && tag == "AudioWaveform"@;
            let prune = job_type == "thread_prune"@ && tag == "ThreadPrune"@;
            let spam = job_type == "spam_check"@ && tag == "SpamCheck"@;
            let whole = data.post_id is Some && data.board_short is Some && data.file_path is Some;
            &&& video && whole ==> (match job {
                Some(JobView::Media { post_id, board, source, output, category }) => Some(post_id)
                    == data.post_id && Some(board) == data.board_short && Some(source)
                    == data.file_path && Some(output) == transcode_output(board, source)
                    && category is TranscodedOutput,
                _ => job is None && transcode_output(
                    data.board_short->Some_0,
                    data.file_path->Some_0,
                ) is None,
            })
            &&& audio && whole ==> (match job {
                Some(JobView::Media { post_id, board, source, output, category }) => Some(post_id)
                    == data.post_id && Some(board) == data.board_short && Some(source)
                    == data.file_path && Some(output) == waveform_output(board, source)
                    && category is Waveform,
                _ => job is None && waveform_output(
                    data.board_short->Some_0,
                    data.file_path->Some_0,
                ) is None,
            })
            &&& (video || audio) && !whole ==> job is None
            &&& prune ==> (match job {
                Some(JobView::ThreadPrune { board_id }) => Some(board_id) == data.board_id,
                _ => job is None && data.board_id is None,
            })
            &&& spam ==> (match job {
                Some(JobView::SpamCheck { post_id }) => Some(post_id) == data.post_id,
                _ => job is None && data.post_id is None,
            })
            &&& !video && !audio && !prune && !spam ==> job is None
        }),
{
    reveal_strlit("video_transcode");
    reveal_strlit("audio_waveform");
    reveal_strlit("thread_prune");
    reveal_strlit("spam_check");
    reveal_strlit("VideoTranscode");
    reveal_strlit("AudioWaveform");
    reveal_strlit("ThreadPrune");
    reveal_strlit("SpamCheck");
    assert("video_transcode"@.len() == 15 && "video_transcode"@[0] == 'v'
        && "video_transcode"@[1] == 'i' && "video_transcode"@[2] == 'd'
        && "video_transcode"@[3] == 'e' && "video_transcode"@[4] == 'o'
        && "video_transcode"@[5] == '_' && "video_transcode"@[6] == 't'
        && "video_transcode"@[7] == 'r' && "video_transcode"@[8] == 'a'
        && "video_transcode"@[9] == 'n' && "video_transcode"@[10] == 's'
        && "video_transcode"@[11] == 'c' && "video_transcode"@[12] == 'o'
        && "video_transcode"@[13] == 'd' && "video_transcode"@[14] == 'e');
    assert("audio_waveform"@.len() == 14 && "audio_waveform"@[0] == 'a'
        && "audio_waveform"@[1] == 'u' && "audio_waveform"@[2] == 'd'
        && "audio_waveform"@[3] == 'i' && "audio_waveform"@[4] == 'o'
        && "audio_waveform"@[5] == '_' && "audio_waveform"@[6] == 'w'
        && "audio_waveform"@[7] == 'a' && "audio_waveform"@[8] == 'v'
        && "audio_waveform"@[9] == 'e' && "audio_waveform"@[10] == 'f'
        && "audio_waveform"@[11] == 'o' && "audio_waveform"@[12] == 'r'
        && "audio_waveform"@[13] == 'm');
    assert("thread_prune"@.len() == 12 && "thread_prune"@[0] == 't' && "thread_prune"@[1] == 'h'
        && "thread_prune"@[2] == 'r' && "thread_prune"@[3] == 'e' && "thread_prune"@[4] == 'a'
        && "thread_prune"@[5] == 'd' && "thread_prune"@[6] == '_' && "thread_prune"@[7] == 'p'
        && "thread_prune"@[8] == 'r' && "thread_prune"@[9] == 'u' && "thread_prune"@[10] == 'n'
        && "thread_prune"@[11] == 'e');
    assert("spam_check"@.len() == 10 && "spam_check"@[0] == 's' && "spam_check"@[1] == 'p'
        && "spam_check"@[2] == 'a' && "spam_check"@[3] == 'm' && "spam_check"@[4] == '_'
        && "spam_check"@[5] == 'c' && "spam_check"@[6] == 'h' && "spam_check"@[7] == 'e'
        && "spam_check"@[8] == 'c' && "spam_check"@[9] == 'k');
    assert("VideoTranscode"@.len() == 14 && "VideoTranscode"@[0] == 'V'
        && "VideoTranscode"@[1] == 'i' && "VideoTranscode"@[2] == 'd'
        && "VideoTranscode"@[3] == 'e' && "VideoTranscode"@[4] == 'o'
        && "VideoTranscode"@[5] == 'T' && "VideoTranscode"@[6] == 'r'
        && "VideoTranscode"@[7] == 'a' && "VideoTranscode"@[8] == 'n'
        && "VideoTranscode"@[9] == 's' && "VideoTranscode"@[10] == 'c'
        && "VideoTranscode"@[11] == 'o' && "VideoTranscode"@[12] == 'd'
        && "VideoTranscode"@[13] == 'e');
    assert("AudioWaveform"@.len() == 13 && "AudioWaveform"@[0] == 'A'
        && "AudioWaveform"@[1] == 'u' && "AudioWaveform"@[2] == 'd'
        && "AudioWaveform"@[3] == 'i' && "AudioWaveform"@[4] == 'o'
        && "AudioWaveform"@[5] == 'W' && "AudioWaveform"@[6] == 'a'
        && "AudioWaveform"@[7] == 'v' && "AudioWaveform"@[8] == 'e'
        && "AudioWaveform"@[9] == 'f' && "AudioWaveform"@[10] == 'o'
        && "AudioWaveform"@[11] == 'r' && "AudioWaveform"@[12] == 'm');
    assert("ThreadPrune"@.len() == 11 && "ThreadPrune"@[0] == 'T' && "ThreadPrune"@[1] == 'h'
        && "ThreadPrune"@[2] == 'r' && "ThreadPrune"@[3] == 'e' && "ThreadPrune"@[4] == 'a'
        && "ThreadPrune"@[5] == 'd' && "ThreadPrune"@[6] == 'P' && "ThreadPrune"@[7] == 'r'
        && "ThreadPrune"@[8] == 'u' && "ThreadPrune"@[9] == 'n' && "ThreadPrune"@[10] == 'e');
    assert("SpamCheck"@.len() == 9 && "SpamCheck"@[0] == 'S' && "SpamCheck"@[1] == 'p'
        && "SpamCheck"@[2] == 'a' && "SpamCheck"@[3] == 'm' && "SpamCheck"@[4] == 'C'
        && "SpamCheck"@[5] == 'h' && "SpamCheck"@[6] == 'e' && "SpamCheck"@[7] == 'c'
        && "SpamCheck"@[8] == 'k');
}

/// Whether the row's job has its files and both can be told to be its board's.
pub open spec fn has_managed_files(m: ModelView, key: MediaKeyView) -> bool {
    model::managed_path(key.source, Some(key.board), m.boards) is Some && model::managed_path(
        key.output,
        Some(key.board),
        m.boards,
    ) is Some
}

/// A media job refers to its source and, with it as the file to make it from, to its output:
/// as work in progress while it is pending or running or its post is another one's, and as
/// needed once it has ended. Its post is its own where it is on the job's board and has the
/// source or the output as its file. A job is noted as obsolete exactly where it is
/// superseded or its post is not its own, and can be removed exactly where it has ended and
/// its post is not its own.
pub proof fn law_media_jobs_hold_their_files(
    m: ModelView,
    row: JobRowView,
    key: MediaKeyView,
    category: MediaCategory,
    superseded: bool,
)
    requires
        has_managed_files(m, key),
    ensures
        ({
            let after = with_media_job(m, row, key, category, superseded);
            let n = m.records.len() as int;
            let source = model::managed_path(key.source, Some(key.board), m.boards)->Some_0;
            let output = model::managed_path(key.output, Some(key.board), m.boards)->Some_0;
            let own = m.posts.dom().contains(key.post_id) && m.posts[key.post_id].board == key.board
                && (m.posts[key.post_id].file_path == Some(key.source)
                || m.posts[key.post_id].file_path == Some(key.output));
            let running = row.status == "pending"@ || row.status == "running"@;
            let role = if running || !own {
                ReferenceRole::Temporary
            } else {
                ReferenceRole::Active
            };
            let owner = "job:"@ + numbers::int_text(row.id as int);
            &&& after.records.len() == n + 2
            &&& after.records.take(n) == m.records
            &&& after.records[n].path == source.relative && after.records[n + 1].path
                == output.relative
            &&& after.records[n].role == role && after.records[n + 1].role == role
            &&& after.records[n].owner == owner && after.records[n + 1].owner == owner
            &&& after.records[n].category is Original && after.records[n + 1].category == category
            &&& after.records[n].source is Job && after.records[n + 1].source is Job
            &&& after.records[n].recoverable_source is None
            &&& after.records[n + 1].recoverable_source == Some(source.relative)
            &&& after.findings.len() == m.findings.len() + 1
            &&& after.findings.last().classification is ObsoleteJob <==> superseded || !own
            &&& after.findings.last().classification is LifecycleInProgress <==> !superseded && own
                && running
            &&& after.findings.last().classification is Healthy <==> !superseded && own && !running
            &&& after.findings.last().managed_id == output.relative
            &&& after.job_candidates.len() == m.job_candidates.len() + (if !running && !own {
                1int
            } else {
                0
            })
            &&& !running && !own ==> after.job_candidates.last().id == row.id
                && after.job_candidates.last().payload == row.payload
                && after.job_candidates.last().job_type == row.job_type
            &&& after.global_ambiguity == m.global_ambiguity
        }),
{
    reveal_strlit("pending");
    reveal_strlit("running");
    assert("pending"@.len() == 7 && "pending"@[0] == 'p' && "pending"@[1] == 'e'
        && "pending"@[2] == 'n' && "pending"@[3] == 'd' && "pending"@[4] == 'i'
        && "pending"@[5] == 'n' && "pending"@[6] == 'g');
    assert("running"@.len() == 7 && "running"@[0] == 'r' && "running"@[1] == 'u'
        && "running"@[2] == 'n' && "running"@[3] == 'n' && "running"@[4] == 'i'
        && "running"@[5] == 'n' && "running"@[6] == 'g');
    let n = m.records.len() as int;
    let after = with_media_job(m, row, key, category, superseded);
    assert(after.records.take(n) =~= m.records);
}

/// A media job whose files are not its board's makes the snapshot ambiguous and refers to
/// nothing.
pub proof fn law_misplaced_jobs_are_ambiguous(
    m: ModelView,
    row: JobRowView,
    key: MediaKeyView,
    category: MediaCategory,
    superseded: bool,
)
    requires
        !has_managed_files(m, key),
    ensures
        ({
            let after = with_media_job(m, row, key, category, superseded);
            &&& after.global_ambiguity
            &&& after.records == m.records
            &&& after.job_candidates == m.job_candidates
            &&& after.findings.last().classification is MalformedJob
        }),
{
}

/// A job that has not ended is superseded exactly where another row of the same kind, post,
/// board, source and output is done. A job that cannot be read makes the snapshot
/// ambiguous; a board's or a post's job is obsolete exactly where that board or post is
/// gone.
pub proof fn law_jobs_are_superseded_by_done_ones(m: ModelView, all: Seq<JobRowView>, row: JobRowView)
    ensures
        ({
            let after = with_job(m, all, row);
            let job = parsed_job(row.job_type, row.payload);
            let same_done = exists|i: int|
                0 <= i < all.len() && (#[trigger] all[i]).status == "done"@ && all[i].job_type
                    == row.job_type && same_media_job(
                    parsed_job(all[i].job_type, all[i].payload),
                    job,
                );
            &&& job is None ==> after.global_ambiguity && after.records == m.records
                && after.findings.last().classification is MalformedJob
            &&& job is Some && job->Some_0 is Media ==> after == with_media_job(
                m,
                row,
                MediaKeyView {
                    job_type: row.job_type,
                    post_id: job->Some_0->Media_post_id,
                    board: job->Some_0->Media_board,
                    source: job->Some_0->Media_source,
                    output: job->Some_0->Media_output,
                },
                job->Some_0->Media_category,
                row.status != "done"@ && same_done,
            )
            &&& job is Some && job->Some_0 is ThreadPrune ==> after.records == m.records && (
            after.findings.last().classification is ObsoleteJob <==> !m.boards_by_id.dom().contains(
                job->Some_0->ThreadPrune_board_id,
            ))
            &&& job is Some && job->Some_0 is SpamCheck ==> after.records == m.records && (
            after.findings.last().classification is ObsoleteJob <==> !m.posts.dom().contains(
                job->Some_0->SpamCheck_post_id,
            ))
        }),
{
    let job = parsed_job(row.job_type, row.payload);
    if job is Some && job->Some_0 is Media {
        let key = MediaKeyView {
            job_type: row.job_type,
            post_id: job->Some_0->Media_post_id,
            board: job->Some_0->Media_board,
            source: job->Some_0->Media_source,
            output: job->Some_0->Media_output,
        };
        if is_completed(all, key) {
            let i = choose|i: int| 0 <= i < all.len() && completed_key(#[trigger] all[i]) == Some(key);
            assert(all[i].status == "done"@ && all[i].job_type == row.job_type);
        }
        if exists|i: int|
            0 <= i < all.len() && (#[trigger] all[i]).status == "done"@ && all[i].job_type
                == row.job_type && same_media_job(
                parsed_job(all[i].job_type, all[i].payload),
                job,
            ) {
            let i = choose|i: int|
                0 <= i < all.len() && (#[trigger] all[i]).status == "done"@ && all[i].job_type
                    == row.job_type && same_media_job(
                    parsed_job(all[i].job_type, all[i].payload),
                    job,
                );
            assert(completed_key(all[i]) == Some(key));
        }
    }
}

/// Whether both are media jobs of one post and board, with one source and output.
pub open spec fn same_media_job(a: Option<JobView>, b: Option<JobView>) -> bool {
    &&& a is Some && b is Some
    &&& a->Some_0 is Media && b->Some_0 is Media
    &&& a->Some_0->Media_post_id == b->Some_0->Media_post_id
    &&& a->Some_0->Media_board == b->Some_0->Media_board
    &&& a->Some_0->Media_source == b->Some_0->Media_source
    &&& a->Some_0->Media_output == b->Some_0->Media_output
}

} // verus!
