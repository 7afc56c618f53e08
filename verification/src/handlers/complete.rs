//! `POST /upload/{id}/complete`: put the file together.
//!
//! The request only starts the work, which then goes on by itself; see
//! [`crate::handlers::finalize`].
use crate::auth::api_key::{key_refusal, ApiKeyAuth};
use crate::clock::{now, Instant, LATEST};
use crate::db::lifecycle::{is_stale, restarted, started};
use crate::db::repository::{count_out_of_range, upload_not_found};
use crate::db::schema::{upload_status_text, Upload, UploadStatus, UploadView};
use crate::db::tables::{lemma_put, lemma_row_with_id, put, upload, uploaded_count, Tables};
use crate::db::Database;
use crate::decimal::{decimal, push_decimal};
use crate::error::{AppError, ErrorView};
use crate::handlers::status::{phase_of, phase_text};
use crate::text::option_view;
use axum::http::HeaderMap;
use vstd::prelude::*;

verus! {

/// After how many seconds without progress a finalization counts as dead.
pub const STALE_THRESHOLD_SECS: i64 = 300;

/// The answer to a completion request.
#[derive(Debug)]
pub struct CompleteUploadResponse {
    pub file_id: String,
    pub filename: String,
    pub total_size: i64,
    pub status: String,
    pub phase: String,
    pub final_path: Option<String>,
    pub storage_backend: String,
    pub finalizing_progress_percent: i32,
}

/// The answer to a completion request with its HTTP status, and whether the work
/// of finalization is now to be started.
#[derive(Debug)]
pub struct Completion {
    pub status_code: u16,
    pub response: CompleteUploadResponse,
    pub start_task: bool,
}

/// `completion` tells of the row `u`: 200 where the upload is complete and 202
/// where it is not.
pub open spec fn tells_of_completion(
    completion: Completion,
    u: UploadView,
    progress: i32,
    start_task: bool,
) -> bool {
    &&& completion.status_code == if u.status == UploadStatus::Complete {
        200u16
    } else {
        202u16
    }
    &&& completion.start_task == start_task
    &&& completion.response.file_id@ == u.id
    &&& completion.response.filename@ == u.filename
    &&& completion.response.total_size == u.total_size
    &&& completion.response.status@ == upload_status_text(u.status)
    &&& completion.response.phase@ == phase_text(u.status)
    &&& option_view(completion.response.final_path) == u.final_path
    &&& completion.response.storage_backend@ == u.storage_backend
    &&& completion.response.finalizing_progress_percent == progress
}

/// What is answered when parts are missing.
pub open spec fn parts_missing(uploaded: nat, total: i32) -> ErrorView {
    ErrorView::BadRequest(
        "Not all parts uploaded: "@ + decimal(uploaded as int) + "/"@ + decimal(total as int)
            + " complete"@,
    )
}

/// What a completion request does at a given time.
///
/// A complete upload is reported as such. Of one that is being finalized the
/// progress is reported, and the work is started again where it is dead. Any
/// other upload starts being finalized where all its parts have arrived.
pub open spec fn completes(
    before: Tables,
    end: Tables,
    outcome: Result<Completion, AppError>,
    upload_id: Seq<char>,
    at: i64,
) -> bool {
    let count = uploaded_count(before.parts, upload_id);
    match upload(before, upload_id) {
        None => end == before && (outcome matches Err(e) && e@ == upload_not_found(upload_id)),
        Some(u) => if u.status == UploadStatus::Complete {
            end == before && (outcome matches Ok(c) && tells_of_completion(c, u, 100, false))
        } else if is_stale(u, at, STALE_THRESHOLD_SECS) {
            end == put(before, restarted(u, at)) && (outcome matches Ok(c) && tells_of_completion(
                c,
                restarted(u, at),
                0,
                true,
            ))
        } else if u.status == UploadStatus::Finalizing {
            end == before && (outcome matches Ok(c) && tells_of_completion(
                c,
                u,
                u.finalizing_progress_percent,
                false,
            ))
        } else if count > i32::MAX {
            end == before && (outcome matches Err(e) && e@ == count_out_of_range(count))
        } else if count != u.total_parts {
            end == before && (outcome matches Err(e) && e@ == parts_missing(count, u.total_parts))
        } else {
            end == put(before, started(u, at)) && (outcome matches Ok(c) && tells_of_completion(
                c,
                started(u, at),
                0,
                true,
            ))
        },
    }
}

/// The answer that tells of `row`.
fn completion_of(row: Upload, progress: i32, start_task: bool) -> (completion: Completion)
    ensures
        tells_of_completion(completion, row@, progress, start_task),
{
    let status_code: u16 = if row.status == UploadStatus::Complete {
        200
    } else {
        202
    };
    Completion {
        status_code,
        response: CompleteUploadResponse {
            status: row.status.to_string(),
            phase: phase_of(row.status),
            file_id: row.id,
            filename: row.filename,
            total_size: row.total_size,
            final_path: row.final_path,
            storage_backend: row.storage_backend,
            finalizing_progress_percent: progress,
        },
        start_task,
    }
}

/// Handles a completion request at the given time.
pub fn complete_upload_at(db: &mut Database, upload_id: &str, at: i64) -> (outcome: Result<
    Completion,
    AppError,
>)
    requires
        old(db).wf(),
        at - STALE_THRESHOLD_SECS >= i64::MIN,
    ensures
        final(db).wf(),
        completes(old(db)@, final(db)@, outcome, upload_id@, at),
{
    let ghost before = db@;
    let row: Upload = match db.get_upload(upload_id) {
        Ok(row) => row,
        Err(e) => return Err(e),
    };
    let ghost u = row@;
    proof {
        lemma_row_with_id(before.uploads, upload_id@);
        let i = choose|i: int| 0 <= i < before.uploads.len() && before.uploads[i] == u;
        lemma_put(before, i, restarted(u, at));
        lemma_put(before, i, started(u, at));
    }
    if row.status == UploadStatus::Complete {
        return Ok(completion_of(row, 100, false));
    }
    if row.status == UploadStatus::Finalizing {
        if db.restart_stale_finalization(upload_id, STALE_THRESHOLD_SECS, at) {
            return match db.get_upload(upload_id) {
                Ok(current) => {
                    let progress: i32 = current.finalizing_progress_percent;
                    Ok(completion_of(current, progress, true))
                },
                Err(e) => Err(e),
            };
        }
        let progress: i32 = row.finalizing_progress_percent;
        return Ok(completion_of(row, progress, false));
    }
    match db.all_parts_uploaded(upload_id) {
        Ok(true) => {},
        Ok(false) => {
            return match db.count_uploaded_parts(upload_id) {
                Ok(uploaded) => {
                    let mut message: String = "Not all parts uploaded: ".to_owned();
                    push_decimal(&mut message, uploaded as i64);
                    message.append("/");
                    push_decimal(&mut message, row.total_parts as i64);
                    message.append(" complete");
                    Err(AppError::BadRequest(message))
                },
                Err(e) => Err(e),
            };
        },
        Err(e) => return Err(e),
    }
    let begun: bool = db.try_start_finalization(upload_id, at);
    match db.get_upload(upload_id) {
        Ok(current) => {
            let progress: i32 = current.finalizing_progress_percent;
            Ok(completion_of(current, progress, begun))
        },
        Err(e) => Err(e),
    }
}

/// Handles a completion request now.
pub fn complete_upload(db: &mut Database, api_key: &str, upload_id: &str, headers: &HeaderMap) -> (
outcome: Result<Completion, AppError>)
    requires
        old(db).wf(),
    ensures
        final(db).wf(),
        match key_refusal(*headers, api_key@) {
            Some(refusal) => final(db)@ == old(db)@ && (outcome matches Err(e) && e@ == refusal),
            None => exists|at: i64|
                0 <= at <= LATEST && #[trigger] completes(
                    old(db)@,
                    final(db)@,
                    outcome,
                    upload_id@,
                    at,
                ),
        },
{
    if let Err(e) = ApiKeyAuth::authorize(headers, api_key) {
        return Err(e);
    }
    let at: Instant = now();
    complete_upload_at(db, upload_id, at.seconds)
}

} // verus!
