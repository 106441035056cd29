//! The life of a download request and of its job: from the arrival of the
//! request, over the workspace that is made for it and the artifact that the
//! extractor leaves there, to the delivery and the removal of the workspace.
//! Each step says what is to be done next; the caller does it and reports
//! what came of it.
use vstd::prelude::*;
use vstd::string::*;
use crate::clock::{utc_now, Timestamp};
use crate::errors::{bad_request_view, ApiError};
use crate::ids::{is_hyphenated_id, new_hyphenated_id};
use crate::media::{
    build_content_disposition, content_disposition_spec, content_type_for_filename,
    content_type_spec, fallback_filename, sanitize_ascii_filename, sanitize_ascii_filename_spec,
};
use crate::model::{duplicate_opt, DownloadMode, DownloadRequest, DownloadStatus, HistoryEntry};
use crate::text::{
    decimal_digits, decimal_string, non_empty_spec, normalize_optional_text, opt_view, trim,
    trimmed,
};
use crate::workspace::{
    artifact_filename, check_artifact_size, oversized_message, DOWNLOAD_JOB_RETENTION_SECONDS,
    MAX_DOWNLOAD_BYTES,
};

verus! {

/// What is remembered of a request while its job runs.
#[derive(Debug)]
pub struct DownloadContext {
    pub client_ip: String,
    pub url: String,
    pub title: Option<String>,
    pub thumbnail: Option<String>,
    pub mode: DownloadMode,
    pub format: String,
}

/// The name of the chosen format for the ledger: the label if one was sent,
/// else the format id, else the name of the automatic choice.
pub open spec fn selected_format_spec(payload: DownloadRequest) -> Seq<char> {
    match payload.format_label {
        Some(label) => label@,
        None => match payload.format_id {
            Some(id) => id@,
            None => "Mejor calidad automatica"@,
        },
    }
}

/// A text that is kept only if it holds more than whitespace, trimmed.
pub open spec fn kept_text(text: Option<String>) -> Option<Seq<char>> {
    match text {
        Some(t) => non_empty_spec(t@),
        None => None,
    }
}

fn keep_text(text: &Option<String>) -> (kept: Option<String>)
    ensures
        opt_view(kept) == kept_text(*text),
{
    match text {
        Some(t) => normalize_optional_text(t.clone()),
        None => None,
    }
}

/// The context of a request of `client_ip`. The URL is kept as it is worked
/// with, trimmed.
pub fn download_context(payload: &DownloadRequest, client_ip: &str) -> (context: DownloadContext)
    ensures
        context.client_ip@ == client_ip@,
        context.url@ == trimmed(payload.url@),
        opt_view(context.title) == kept_text(payload.title),
        opt_view(context.thumbnail) == kept_text(payload.thumbnail),
        context.mode == payload.mode,
        context.format@ == selected_format_spec(*payload),
{
    let format = match &payload.format_label {
        Some(label) => label.clone(),
        None => match &payload.format_id {
            Some(id) => id.clone(),
            None => "Mejor calidad automatica".to_owned(),
        },
    };
    DownloadContext {
        client_ip: client_ip.to_owned(),
        url: trim(payload.url.as_str()).to_owned(),
        title: keep_text(&payload.title),
        thumbnail: keep_text(&payload.thumbnail),
        mode: payload.mode,
        format,
    }
}

/// A name for a new workspace directory: a fresh random identifier, which
/// holds no separator and so names a single path component.
pub fn new_workspace_name() -> (name: String)
    ensures
        is_hyphenated_id(name@),
{
    new_hyphenated_id()
}

/// An artifact that is ready to be delivered.
#[derive(Debug)]
pub struct PreparedDownload {
    pub filename: String,
    pub content_type: &'static str,
    pub content_length: u64,
}

/// Readies an artifact for delivery from the final component of its path
/// and its size. An artifact above the limit is refused as the caller's
/// error.
pub fn prepare_download(file_name: Option<&str>, content_length: u64) -> (r: Result<
    PreparedDownload,
    ApiError,
>)
    ensures
        content_length > MAX_DOWNLOAD_BYTES ==> r is Err && r->Err_0@ == bad_request_view(
            oversized_message(),
        ),
        content_length <= MAX_DOWNLOAD_BYTES ==> r is Ok && r->Ok_0.content_length
            == content_length && r->Ok_0.filename@ == (match file_name {
            Some(n) => n@,
            None => fallback_filename(),
        }) && r->Ok_0.content_type@ == content_type_spec(r->Ok_0.filename@),
{
    let filename = artifact_filename(file_name);
    match check_artifact_size(content_length) {
        Err(error) => Err(error),
        Ok(()) => {
            let content_type = content_type_for_filename(filename.as_str());
            Ok(PreparedDownload { filename, content_type, content_length })
        },
    }
}

/// The headers of a delivery, in order: the content type, the length in
/// decimal, the disposition with both forms of the file name, and the
/// ASCII-safe file name by itself.
pub fn response_headers(prepared: &PreparedDownload) -> (headers: Vec<(String, String)>)
    ensures
        headers.len() == 4,
        headers[0].0@ == "content-type"@ && headers[0].1@ == prepared.content_type@,
        headers[1].0@ == "content-length"@ && headers[1].1@ == decimal_digits(
            prepared.content_length as nat,
        ),
        headers[2].0@ == "content-disposition"@ && headers[2].1@ == content_disposition_spec(
            prepared.filename@,
        ),
        headers[3].0@ == "x-download-filename"@ && headers[3].1@ == sanitize_ascii_filename_spec(
            prepared.filename@,
        ),
{
    let mut headers: Vec<(String, String)> = Vec::new();
    headers.push(("content-type".to_owned(), prepared.content_type.to_owned()));
    headers.push(("content-length".to_owned(), decimal_string(prepared.content_length)));
    headers.push(
        ("content-disposition".to_owned(), build_content_disposition(prepared.filename.as_str())),
    );
    headers.push(
        ("x-download-filename".to_owned(), sanitize_ascii_filename(prepared.filename.as_str())),
    );
    headers
}

/// Where a request and its job stand.
#[derive(Debug)]
pub enum JobState {
    /// The request has come in; no workspace exists for it.
    Pending,
    /// The workspace exists; the extractor has not finished.
    Created,
    /// The artifact is in the workspace and fit for delivery.
    Populated { prepared: PreparedDownload },
    /// The outcome is on record and the artifact is being sent.
    Delivered,
    /// The workspace is kept for the retention time.
    Retained,
    /// The request failed; if it had a workspace, its removal has been
    /// ordered.
    Failed { error: ApiError },
    /// No workspace is left: it is gone, or its removal has been ordered, or
    /// there never was one.
    Deleted,
}

/// What happened to a request.
#[derive(Debug)]
pub enum JobEvent {
    /// A check turned the request down, or no capacity or no workspace could
    /// be had for it.
    Rejected { error: ApiError },
    /// The request was admitted and its workspace was made.
    WorkspaceCreated,
    /// The extractor finished, the artifact was found and is fit for delivery.
    Prepared { prepared: PreparedDownload },
    /// The extractor failed, or no artifact was found, or it is too large, or
    /// it could not be read.
    PreparationFailed { error: ApiError },
    /// The ledger took the record.
    Recorded,
    /// The ledger could not be written.
    RecordingFailed { error: ApiError },
    /// The answer to the caller has begun.
    ResponseStarted,
    /// The retention time is over.
    RetentionElapsed,
}

/// What is to be done next.
#[derive(Debug)]
pub enum JobAction {
    /// Run the extractor in the workspace.
    Extract,
    /// Write this entry to the ledger.
    Record { entry: HistoryEntry },
    /// Remove the workspace at once, then write this entry to the ledger.
    RemoveThenRecord { entry: HistoryEntry },
    /// Send the artifact.
    Deliver { prepared: PreparedDownload },
    /// Remove the workspace at once, then answer with this error.
    RemoveAndFail { error: ApiError },
    /// Remove the workspace after this many seconds.
    RemoveAfter { seconds: u64 },
    /// Remove the workspace.
    Remove,
    /// Answer with this error.
    Fail { error: ApiError },
    /// Nothing: the event does not concern a request in this state.
    Ignore,
}

/// The ledger entry for the outcome of a job.
pub open spec fn history_entry_spec(
    context: DownloadContext,
    id: String,
    now: Timestamp,
    status: DownloadStatus,
    saved_path: Option<String>,
    error: Option<String>,
) -> HistoryEntry {
    HistoryEntry {
        id,
        created_at: now,
        requester_ip: context.client_ip,
        url: context.url,
        title: context.title,
        thumbnail: context.thumbnail,
        mode: context.mode,
        format: context.format,
        status,
        saved_path,
        error,
    }
}

pub fn history_entry(
    context: &DownloadContext,
    id: String,
    now: Timestamp,
    status: DownloadStatus,
    saved_path: Option<String>,
    error: Option<String>,
) -> (entry: HistoryEntry)
    ensures
        entry == history_entry_spec(*context, id, now, status, saved_path, error),
{
    HistoryEntry {
        id,
        created_at: now,
        requester_ip: context.client_ip.clone(),
        url: context.url.clone(),
        title: duplicate_opt(&context.title),
        thumbnail: duplicate_opt(&context.thumbnail),
        mode: context.mode,
        format: context.format.clone(),
        status,
        saved_path,
        error,
    }
}

/// The ledger entry for a request that failed with `error`.
pub open spec fn failure_entry(
    context: DownloadContext,
    id: String,
    now: Timestamp,
    error: ApiError,
) -> HistoryEntry {
    history_entry_spec(context, id, now, DownloadStatus::Failed, None, Some(error.message))
}

/// The step of a request: its next state and what is to be done. `id` and
/// `now` are the id and the time of the ledger entry, should one be written.
pub open spec fn job_step(
    state: JobState,
    context: DownloadContext,
    event: JobEvent,
    id: String,
    now: Timestamp,
) -> (JobState, JobAction) {
    match (state, event) {
        (JobState::Pending, JobEvent::Rejected { error }) => (
            JobState::Failed { error },
            JobAction::Record { entry: failure_entry(context, id, now, error) },
        ),
        (JobState::Pending, JobEvent::WorkspaceCreated) => (JobState::Created, JobAction::Extract),
        (JobState::Created, JobEvent::Prepared { prepared }) => (
            JobState::Populated { prepared },
            JobAction::Record {
                entry: history_entry_spec(
                    context,
                    id,
                    now,
                    DownloadStatus::Success,
                    Some(prepared.filename),
                    None,
                ),
            },
        ),
        (JobState::Created, JobEvent::PreparationFailed { error }) => (
            JobState::Failed { error },
            JobAction::RemoveThenRecord { entry: failure_entry(context, id, now, error) },
        ),
        (JobState::Populated { prepared }, JobEvent::Recorded) => (
            JobState::Delivered,
            JobAction::Deliver { prepared },
        ),
        (JobState::Populated { prepared }, JobEvent::RecordingFailed { error }) => (
            JobState::Deleted,
            JobAction::RemoveAndFail { error },
        ),
        (JobState::Delivered, JobEvent::ResponseStarted) => (
            JobState::Retained,
            JobAction::RemoveAfter { seconds: DOWNLOAD_JOB_RETENTION_SECONDS },
        ),
        (JobState::Retained, JobEvent::RetentionElapsed) => (JobState::Deleted, JobAction::Remove),
        (JobState::Failed { error }, JobEvent::Recorded) => (
            JobState::Deleted,
            JobAction::Fail { error },
        ),
        (JobState::Failed { error: first }, JobEvent::RecordingFailed { error }) => (
            JobState::Deleted,
            JobAction::Fail { error },
        ),
        (other, _) => (other, JobAction::Ignore),
    }
}

/// Takes a request one step on, with the given id and time for a ledger
/// entry.
pub fn advance_job_with(
    state: JobState,
    context: &DownloadContext,
    event: JobEvent,
    id: String,
    now: Timestamp,
) -> (next: (JobState, JobAction))
    ensures
        next == job_step(state, *context, event, id, now),
{
    match state {
        JobState::Pending => match event {
            JobEvent::Rejected { error } => {
                let entry = history_entry(
                    context,
                    id,
                    now,
                    DownloadStatus::Failed,
                    None,
                    Some(error.message.clone()),
                );
                (JobState::Failed { error }, JobAction::Record { entry })
            },
            JobEvent::WorkspaceCreated => (JobState::Created, JobAction::Extract),
            _ => (JobState::Pending, JobAction::Ignore),
        },
        JobState::Created => match event {
            JobEvent::Prepared { prepared } => {
                let entry = history_entry(
                    context,
                    id,
                    now,
                    DownloadStatus::Success,
                    Some(prepared.filename.clone()),
                    None,
                );
                (JobState::Populated { prepared }, JobAction::Record { entry })
            },
            JobEvent::PreparationFailed { error } => {
                let entry = history_entry(
                    context,
                    id,
                    now,
                    DownloadStatus::Failed,
                    None,
                    Some(error.message.clone()),
                );
                (JobState::Failed { error }, JobAction::RemoveThenRecord { entry })
            },
            _ => (JobState::Created, JobAction::Ignore),
        },
        JobState::Populated { prepared } => match event {
            JobEvent::Recorded => (JobState::Delivered, JobAction::Deliver { prepared }),
            JobEvent::RecordingFailed { error } => (
                JobState::Deleted,
                JobAction::RemoveAndFail { error },
            ),
            _ => (JobState::Populated { prepared }, JobAction::Ignore),
        },
        JobState::Delivered => match event {
            JobEvent::ResponseStarted => (
                JobState::Retained,
                JobAction::RemoveAfter { seconds: DOWNLOAD_JOB_RETENTION_SECONDS },
            ),
            _ => (JobState::Delivered, JobAction::Ignore),
        },
        JobState::Retained => match event {
            JobEvent::RetentionElapsed => (JobState::Deleted, JobAction::Remove),
            _ => (JobState::Retained, JobAction::Ignore),
        },
        JobState::Failed { error: first } => match event {
            JobEvent::Recorded => (JobState::Deleted, JobAction::Fail { error: first }),
            JobEvent::RecordingFailed { error } => (JobState::Deleted, JobAction::Fail { error }),
            _ => (JobState::Failed { error: first }, JobAction::Ignore),
        },
        JobState::Deleted => (JobState::Deleted, JobAction::Ignore),
    }
}

/// Takes a request one step on. A ledger entry, when the step writes one,
/// gets a fresh random id and the current time.
pub fn advance_job(state: JobState, context: &DownloadContext, event: JobEvent) -> (next: (
    JobState,
    JobAction,
))
    ensures
        exists|id: String, now: Timestamp|
            now.wf() && (writes_record(next.1) ==> is_hyphenated_id(id@)) && next
                == #[trigger] job_step(state, *context, event, id, now),
{
    let may_record = match &state {
        JobState::Pending => true,
        JobState::Created => true,
        _ => false,
    };
    if may_record {
        let id = new_hyphenated_id();
        let now = utc_now();
        advance_job_with(state, context, event, id, now)
    } else {
        let now = Timestamp { secs: 0, nanos: 0 };
        let next = advance_job_with(state, context, event, String::new(), now);
        assert(!writes_record(next.1));
        next
    }
}

/// An action writes to the ledger.
pub open spec fn writes_record(action: JobAction) -> bool {
    action is Record || action is RemoveThenRecord
}

/// An action removes the workspace at once.
pub open spec fn removes_at_once(action: JobAction) -> bool {
    action is RemoveThenRecord || action is RemoveAndFail || action is Remove
}

/// The outcome of a request in this state has been handed to the ledger.
pub open spec fn is_on_record(state: JobState) -> bool {
    !(state is Pending || state is Created)
}

/// One step of a run: what happened, and the id and time for a ledger
/// entry.
pub struct JobInput {
    pub event: JobEvent,
    pub id: String,
    pub now: Timestamp,
}

/// The state after a run of steps.
pub open spec fn state_after(state: JobState, context: DownloadContext, run: Seq<JobInput>) -> JobState
    decreases run.len(),
{
    if run.len() == 0 {
        state
    } else {
        job_step(
            state_after(state, context, run.drop_last()),
            context,
            run.last().event,
            run.last().id,
            run.last().now,
        ).0
    }
}

/// The number of entries that a run of steps has written to the ledger.
pub open spec fn records_written(state: JobState, context: DownloadContext, run: Seq<JobInput>) -> nat
    decreases run.len(),
{
    if run.len() == 0 {
        0
    } else {
        let before = state_after(state, context, run.drop_last());
        let written = records_written(state, context, run.drop_last());
        if writes_record(
            job_step(before, context, run.last().event, run.last().id, run.last().now).1,
        ) {
            written + 1
        } else {
            written
        }
    }
}

/// A record is written by the step that takes a request to an outcome, and
/// by no other: by a rejection before there is a workspace, and by the end of
/// the preparation, good or bad.
pub proof fn lemma_record_marks_the_outcome(
    state: JobState,
    context: DownloadContext,
    event: JobEvent,
    id: String,
    now: Timestamp,
)
    ensures
        writes_record(job_step(state, context, event, id, now).1) <==> !is_on_record(state)
            && is_on_record(job_step(state, context, event, id, now).0),
        is_on_record(state) ==> is_on_record(job_step(state, context, event, id, now).0),
{
}

/// Every request is recorded exactly once, whatever its outcome: however a
/// request runs from its arrival, the ledger has been written to once if the
/// request has come to an outcome, and not at all before.
pub proof fn lemma_one_record_per_request(context: DownloadContext, run: Seq<JobInput>)
    ensures
        records_written(JobState::Pending, context, run) == if is_on_record(
            state_after(JobState::Pending, context, run),
        ) {
            1nat
        } else {
            0nat
        },
    decreases run.len(),
{
    if run.len() > 0 {
        lemma_one_record_per_request(context, run.drop_last());
        lemma_record_marks_the_outcome(
            state_after(JobState::Pending, context, run.drop_last()),
            context,
            run.last().event,
            run.last().id,
            run.last().now,
        );
    }
}

/// What is recorded says how the request ended: a success names the file
/// that was saved and no error, a failure names the error and no file; and
/// the entry belongs to the client of the request.
pub proof fn lemma_record_tells_outcome(
    state: JobState,
    context: DownloadContext,
    event: JobEvent,
    id: String,
    now: Timestamp,
)
    ensures
        match job_step(state, context, event, id, now).1 {
            JobAction::Record { entry } => entry.requester_ip == context.client_ip && (if event is Prepared {
                entry.status == DownloadStatus::Success && entry.saved_path is Some
                    && entry.error is None
            } else {
                entry.status == DownloadStatus::Failed && entry.saved_path is None
                    && entry.error is Some
            }),
            JobAction::RemoveThenRecord { entry } => entry.status == DownloadStatus::Failed
                && entry.saved_path is None && entry.error is Some && entry.requester_ip
                == context.client_ip,
            _ => true,
        },
{
}

/// A job that fails while its workspace exists has the workspace removed
/// at once, and only a job that was delivered has its workspace kept, for
/// the retention time and no longer: when that time is over the removal is
/// ordered.
pub proof fn lemma_workspace_is_reclaimed(
    state: JobState,
    context: DownloadContext,
    event: JobEvent,
    id: String,
    now: Timestamp,
)
    ensures
        (state is Created && event is PreparationFailed) || (state is Populated
            && event is RecordingFailed) ==> removes_at_once(
            job_step(state, context, event, id, now).1,
        ),
        job_step(state, context, event, id, now).1 is RemoveAfter ==> state is Delivered
            && job_step(state, context, event, id, now).1->seconds
            == DOWNLOAD_JOB_RETENTION_SECONDS,
        state is Retained && event is RetentionElapsed ==> job_step(
            state,
            context,
            event,
            id,
            now,
        ) == (JobState::Deleted, JobAction::Remove),
{
}

} // verus!
