//! What a request to complete an upload does.
use crate::clock::LATEST;
use crate::db::Database;
use crate::db::lifecycle::{completed, failed, restarted, started};
use crate::db::schema::{UploadStatus, UploadView};
use crate::db::tables::{
    keys_hold, lemma_put, lemma_row_with_id, put, restart_keeps_the_keys, upload, Tables,
};
use crate::decimal::decimal;
use crate::error::{AppError, ErrorView};
use crate::handlers::complete::{complete_upload, complete_upload_at, completes, Completion};
use crate::headers::header_value;
use crate::laws::access::the_key_is_the_header;
use crate::laws::counting::{arrived, uploaded_parts_are_the_arrived};
use crate::text::option_view;
use axum::http::HeaderMap;
use vstd::prelude::*;

verus! {

/// `end` is `before` but for the row of this upload.
pub open spec fn only_this_upload_changes(before: Tables, end: Tables, id: Seq<char>) -> bool {
    &&& end.parts == before.parts
    &&& end.uploads.len() == before.uploads.len()
    &&& forall|i: int|
        0 <= i < before.uploads.len() ==> (#[trigger] end.uploads[i]).id == before.uploads[i].id
            && (before.uploads[i].id != id ==> end.uploads[i] == before.uploads[i])
}

/// The two rows say the same of the file: its name, size and division, where it
/// is to be kept and what the client asked for. What they say of the work on it
/// may differ.
pub open spec fn same_file(u: UploadView, v: UploadView) -> bool {
    &&& v.id == u.id
    &&& v.filename == u.filename
    &&& v.total_size == u.total_size
    &&& v.chunk_size == u.chunk_size
    &&& v.total_parts == u.total_parts
    &&& v.storage_backend == u.storage_backend
    &&& v.target_path == u.target_path
    &&& v.checksum_sha256 == u.checksum_sha256
    &&& v.webhook_url == u.webhook_url
    &&& v.created_at == u.created_at
    &&& v.expires_at == u.expires_at
}

/// An answer that names the upload's own file.
pub open spec fn names_the_file(c: Completion, u: UploadView) -> bool {
    &&& c.response.file_id@ == u.id
    &&& c.response.filename@ == u.filename
    &&& c.response.total_size == u.total_size
    &&& c.response.storage_backend@ == u.storage_backend
}

/// The row of a known upload stands at one place of the table, given back, and
/// putting another in its stead changes that place alone.
pub proof fn lemma_found(t: Tables, id: Seq<char>, row: UploadView) -> (i: int)
    requires
        keys_hold(t),
        upload(t, id) is Some,
        row.id == id,
    ensures
        0 <= i < t.uploads.len(),
        t.uploads[i] == upload(t, id)->0,
        t.uploads[i].id == id,
        put(t, row).uploads == t.uploads.update(i, row),
        upload(put(t, row), id) == Some(row),
        only_this_upload_changes(t, put(t, row), id),
{
    lemma_row_with_id(t.uploads, id);
    let u = upload(t, id)->0;
    let i = choose|i: int| 0 <= i < t.uploads.len() && t.uploads[i] == u;
    lemma_put(t, i, row);
    i
}

/// An upload that waits for its completion, or whose finalization failed, starts
/// being finalized where as many of its parts have arrived as it has parts: the
/// request succeeds and says that the work is to be started, the answer is 202
/// with the status `finalizing` and no progress, and the upload is left
/// finalizing, from now on, without an error.
pub proof fn whole_uploads_start_finalizing(
    db: &mut Database,
    upload_id: &str,
    at: i64,
    outcome: Result<Completion, AppError>,
)
    requires
        old(db).wf(),
        call_ensures(complete_upload_at, (db, upload_id, at), outcome),
        upload(old(db)@, upload_id@) matches Some(u) && (u.status == UploadStatus::Pending
            || u.status == UploadStatus::Failed) && arrived(old(db)@.parts, upload_id@)
            == u.total_parts,
    ensures
        ({
            let u = upload(old(db)@, upload_id@)->0;
            outcome matches Ok(c) && {
                &&& c.start_task
                &&& c.status_code == 202
                &&& c.response.status@ == "finalizing"@
                &&& c.response.phase@ == "finalizing"@
                &&& c.response.finalizing_progress_percent == 0
                &&& option_view(c.response.final_path) == u.final_path
                &&& names_the_file(c, u)
            }
        }),
        ({
            let u = upload(old(db)@, upload_id@)->0;
            upload(final(db)@, upload_id@) matches Some(v) && {
                &&& v.status == UploadStatus::Finalizing
                &&& v.finalization_error is None
                &&& v.finalizing_progress_percent == 0
                &&& v.finalization_started_at == Some(at)
                &&& v.finalization_updated_at == Some(at)
                &&& v.updated_at == at
                &&& v.final_path == u.final_path
                &&& same_file(u, v)
            }
        }),
        only_this_upload_changes(old(db)@, final(db)@, upload_id@),
{
    let t = old(db)@;
    let u = upload(t, upload_id@)->0;
    uploaded_parts_are_the_arrived(t.parts, upload_id@);
    lemma_row_with_id(t.uploads, upload_id@);
    lemma_found(t, upload_id@, started(u, at));
}

/// The same of a request that comes with the right key, at whatever time it comes.
pub proof fn authorized_requests_start_whole_uploads(
    db: &mut Database,
    api_key: &str,
    upload_id: &str,
    headers: &HeaderMap,
    outcome: Result<Completion, AppError>,
)
    requires
        old(db).wf(),
        call_ensures(complete_upload, (db, api_key, upload_id, headers), outcome),
        header_value(*headers, "x-api-key"@) == Some(api_key@),
        upload(old(db)@, upload_id@) matches Some(u) && (u.status == UploadStatus::Pending
            || u.status == UploadStatus::Failed) && arrived(old(db)@.parts, upload_id@)
            == u.total_parts,
    ensures
        outcome matches Ok(c) && c.start_task && c.status_code == 202 && c.response.status@
            == "finalizing"@ && c.response.finalizing_progress_percent == 0 && names_the_file(
            c,
            upload(old(db)@, upload_id@)->0,
        ),
        upload(final(db)@, upload_id@) matches Some(v) && v.status == UploadStatus::Finalizing
            && v.finalization_error is None && v.finalizing_progress_percent == 0,
        only_this_upload_changes(old(db)@, final(db)@, upload_id@),
{
    the_key_is_the_header(*headers, api_key@);
    let t = old(db)@;
    let u = upload(t, upload_id@)->0;
    uploaded_parts_are_the_arrived(t.parts, upload_id@);
    lemma_row_with_id(t.uploads, upload_id@);
    let at = choose|at: i64|
        0 <= at <= LATEST && #[trigger] completes(t, final(db)@, outcome, upload_id@, at);
    lemma_found(t, upload_id@, started(u, at));
}

/// A request with another key, or with none, is refused with 401 and changes
/// nothing.
pub proof fn unauthorized_requests_complete_nothing(
    db: &mut Database,
    api_key: &str,
    upload_id: &str,
    headers: &HeaderMap,
    outcome: Result<Completion, AppError>,
)
    requires
        call_ensures(complete_upload, (db, api_key, upload_id, headers), outcome),
        header_value(*headers, "x-api-key"@) != Some(api_key@),
    ensures
        outcome matches Err(e) && e@ is Unauthorized,
        final(db)@ == old(db)@,
{
    the_key_is_the_header(*headers, api_key@);
}

/// While parts are missing, nothing is started and nothing changes: the request
/// is refused with 400.
pub proof fn incomplete_uploads_do_not_start(
    db: &mut Database,
    upload_id: &str,
    at: i64,
    outcome: Result<Completion, AppError>,
)
    requires
        old(db).wf(),
        call_ensures(complete_upload_at, (db, upload_id, at), outcome),
        upload(old(db)@, upload_id@) matches Some(u) && (u.status == UploadStatus::Pending
            || u.status == UploadStatus::Failed) && arrived(old(db)@.parts, upload_id@)
            != u.total_parts,
        arrived(old(db)@.parts, upload_id@) <= i32::MAX,
    ensures
        outcome matches Err(e) && e@ is BadRequest && e@->BadRequest_0 == "Not all parts uploaded: "@
            + decimal(arrived(old(db)@.parts, upload_id@) as int) + "/"@ + decimal(
            upload(old(db)@, upload_id@)->0.total_parts as int,
        ) + " complete"@,
        final(db)@ == old(db)@,
{
    uploaded_parts_are_the_arrived(old(db)@.parts, upload_id@);
}

/// Of a complete upload a request is told so, with 200, the path of the file and
/// full progress; nothing is started and nothing changes.
pub proof fn complete_uploads_are_reported(
    db: &mut Database,
    upload_id: &str,
    at: i64,
    outcome: Result<Completion, AppError>,
)
    requires
        old(db).wf(),
        call_ensures(complete_upload_at, (db, upload_id, at), outcome),
        upload(old(db)@, upload_id@) matches Some(u) && u.status == UploadStatus::Complete,
    ensures
        final(db)@ == old(db)@,
        outcome matches Ok(c) && {
            let u = upload(old(db)@, upload_id@)->0;
            &&& !c.start_task
            &&& c.status_code == 200
            &&& c.response.status@ == "complete"@
            &&& c.response.phase@ == "complete"@
            &&& c.response.finalizing_progress_percent == 100
            &&& option_view(c.response.final_path) == u.final_path
            &&& names_the_file(c, u)
        },
{
}

/// Of an upload that is being finalized and has moved within the last 300 seconds
/// a request is told how far it has come, with 202; the work is not started a
/// second time and nothing changes.
pub proof fn running_finalizations_are_left_alone(
    db: &mut Database,
    upload_id: &str,
    at: i64,
    outcome: Result<Completion, AppError>,
)
    requires
        old(db).wf(),
        call_ensures(complete_upload_at, (db, upload_id, at), outcome),
        upload(old(db)@, upload_id@) matches Some(u) && u.status == UploadStatus::Finalizing && (
        u.finalization_updated_at matches Some(moved) ==> at - moved <= 300),
    ensures
        final(db)@ == old(db)@,
        outcome matches Ok(c) && {
            let u = upload(old(db)@, upload_id@)->0;
            &&& !c.start_task
            &&& c.status_code == 202
            &&& c.response.status@ == "finalizing"@
            &&& c.response.phase@ == "finalizing"@
            &&& c.response.finalizing_progress_percent == u.finalizing_progress_percent
            &&& option_view(c.response.final_path) == u.final_path
            &&& names_the_file(c, u)
        },
{
}

/// A finalization that has not moved for more than 300 seconds is dead: the next
/// request starts it again from the beginning.
pub proof fn dead_finalizations_start_again(
    db: &mut Database,
    upload_id: &str,
    at: i64,
    outcome: Result<Completion, AppError>,
)
    requires
        old(db).wf(),
        call_ensures(complete_upload_at, (db, upload_id, at), outcome),
        upload(old(db)@, upload_id@) matches Some(u) && u.status == UploadStatus::Finalizing && (
        u.finalization_updated_at matches Some(moved) && at - moved > 300),
    ensures
        outcome matches Ok(c) && {
            let u = upload(old(db)@, upload_id@)->0;
            &&& c.start_task
            &&& c.status_code == 202
            &&& c.response.status@ == "finalizing"@
            &&& c.response.phase@ == "finalizing"@
            &&& c.response.finalizing_progress_percent == 0
            &&& option_view(c.response.final_path) == u.final_path
            &&& names_the_file(c, u)
        },
        upload(final(db)@, upload_id@) matches Some(v) && {
            let u = upload(old(db)@, upload_id@)->0;
            &&& v.status == UploadStatus::Finalizing
            &&& v.finalization_error is None
            &&& v.finalizing_progress_percent == 0
            &&& v.finalization_started_at == Some(at)
            &&& v.finalization_updated_at == Some(at)
            &&& v.updated_at == at
            &&& v.final_path == u.final_path
            &&& same_file(u, v)
        },
        only_this_upload_changes(old(db)@, final(db)@, upload_id@),
{
    let t = old(db)@;
    let u = upload(t, upload_id@)->0;
    lemma_row_with_id(t.uploads, upload_id@);
    lemma_found(t, upload_id@, restarted(u, at));
}

/// No upload is completed that was never announced: the request is answered with
/// 404 and changes nothing.
pub proof fn unknown_uploads_are_not_completed(
    db: &mut Database,
    upload_id: &str,
    at: i64,
    outcome: Result<Completion, AppError>,
)
    requires
        old(db).wf(),
        call_ensures(complete_upload_at, (db, upload_id, at), outcome),
        forall|i: int|
            0 <= i < old(db)@.uploads.len() ==> (#[trigger] old(db)@.uploads[i]).id != upload_id@,
    ensures
        outcome matches Err(e) && e@ is NotFound,
        final(db)@ == old(db)@,
{
    lemma_row_with_id(old(db)@.uploads, upload_id@);
}

/// A finalization that was recorded as failed can be tried again: with all parts
/// there, the next request to complete the upload starts it anew and leaves no
/// trace of the failure.
pub proof fn failed_finalizations_start_anew(
    db: &mut Database,
    upload_id: &str,
    error: &str,
    then: i64,
    again: &mut Database,
    at: i64,
    outcome: Result<Completion, AppError>,
)
    requires
        old(db).wf(),
        call_ensures(Database::mark_finalization_failed, (db, upload_id, error, then), ()),
        upload(old(db)@, upload_id@) matches Some(u) && arrived(old(db)@.parts, upload_id@)
            == u.total_parts,
        *old(again) == *final(db),
        call_ensures(complete_upload_at, (again, upload_id, at), outcome),
    ensures
        upload(final(db)@, upload_id@) matches Some(v) && v.status == UploadStatus::Failed
            && v.finalization_error == Some(error@),
        outcome matches Ok(c) && c.start_task && c.status_code == 202 && c.response.status@
            == "finalizing"@ && c.response.finalizing_progress_percent == 0,
        upload(final(again)@, upload_id@) matches Some(v) && v.status == UploadStatus::Finalizing
            && v.finalization_error is None && v.finalizing_progress_percent == 0,
{
    let t = old(db)@;
    let u = upload(t, upload_id@)->0;
    lemma_row_with_id(t.uploads, upload_id@);
    lemma_found(t, upload_id@, failed(u, error@, then));
    whole_uploads_start_finalizing(again, upload_id, at, outcome);
}

/// A finalization that a restart of the service cut short can be tried again:
/// with all parts there, the next request to complete the upload starts it anew
/// and leaves no trace of the restart.
pub proof fn interrupted_finalizations_start_anew(
    db: &mut Database,
    upload_id: &str,
    boot: i64,
    count: usize,
    again: &mut Database,
    at: i64,
    outcome: Result<Completion, AppError>,
)
    requires
        old(db).wf(),
        call_ensures(Database::mark_stale_finalizing_failed_on_boot, (db, boot), count),
        upload(old(db)@, upload_id@) matches Some(u) && u.status == UploadStatus::Finalizing
            && arrived(old(db)@.parts, upload_id@) == u.total_parts,
        *old(again) == *final(db),
        call_ensures(complete_upload_at, (again, upload_id, at), outcome),
    ensures
        upload(final(db)@, upload_id@) matches Some(v) && v.status == UploadStatus::Failed
            && v.finalization_error is Some,
        outcome matches Ok(c) && c.start_task && c.status_code == 202 && c.response.status@
            == "finalizing"@ && c.response.finalizing_progress_percent == 0,
        upload(final(again)@, upload_id@) matches Some(v) && v.status == UploadStatus::Finalizing
            && v.finalization_error is None && v.finalizing_progress_percent == 0,
{
    restart_keeps_the_keys(old(db)@, boot);
    whole_uploads_start_finalizing(again, upload_id, at, outcome);
}

/// Once a finalization was recorded as complete, a request to complete the upload
/// is told the very path that was recorded.
pub proof fn recorded_paths_are_told(
    db: &mut Database,
    upload_id: &str,
    path: &str,
    then: i64,
    again: &mut Database,
    at: i64,
    outcome: Result<Completion, AppError>,
)
    requires
        old(db).wf(),
        call_ensures(Database::mark_finalization_complete, (db, upload_id, path, then), ()),
        upload(old(db)@, upload_id@) is Some,
        *old(again) == *final(db),
        call_ensures(complete_upload_at, (again, upload_id, at), outcome),
    ensures
        outcome matches Ok(c) && !c.start_task && c.status_code == 200 && option_view(
            c.response.final_path,
        ) == Some(path@),
        final(again)@ == final(db)@,
{
    let t = old(db)@;
    let u = upload(t, upload_id@)->0;
    lemma_row_with_id(t.uploads, upload_id@);
    lemma_found(t, upload_id@, completed(u, path@, then));
    complete_uploads_are_reported(again, upload_id, at, outcome);
}

/// With the right key a request is told the same as at its own time: of a complete
/// upload its path, of one that lacks parts that it does, of an unknown one that it
/// is unknown; none of these changes anything.
pub proof fn authorized_requests_are_told_where_things_stand(
    db: &mut Database,
    api_key: &str,
    upload_id: &str,
    headers: &HeaderMap,
    outcome: Result<Completion, AppError>,
)
    requires
        old(db).wf(),
        call_ensures(complete_upload, (db, api_key, upload_id, headers), outcome),
        header_value(*headers, "x-api-key"@) == Some(api_key@),
    ensures
        upload(old(db)@, upload_id@) is None ==> final(db)@ == old(db)@ && (outcome matches Err(e)
            && e@ == ErrorView::NotFound("Upload "@ + upload_id@ + " not found"@)),
        upload(old(db)@, upload_id@) matches Some(u) ==> {
            &&& u.status == UploadStatus::Complete ==> final(db)@ == old(db)@ && (
            outcome matches Ok(c) && !c.start_task && c.status_code == 200 && option_view(
                c.response.final_path,
            ) == u.final_path && c.response.finalizing_progress_percent == 100)
            &&& (u.status == UploadStatus::Pending || u.status == UploadStatus::Failed) && arrived(
                old(db)@.parts,
                upload_id@,
            ) != u.total_parts ==> final(db)@ == old(db)@ && outcome is Err
            &&& u.status == UploadStatus::Finalizing ==> (outcome matches Ok(c) && c.status_code
                == 202 && c.response.status@ == "finalizing"@)
        },
{
    the_key_is_the_header(*headers, api_key@);
    uploaded_parts_are_the_arrived(old(db)@.parts, upload_id@);
    let at = choose|at: i64|
        0 <= at <= LATEST && #[trigger] completes(
            old(db)@,
            final(db)@,
            outcome,
            upload_id@,
            at,
        );
    assert(completes(old(db)@, final(db)@, outcome, upload_id@, at));
}

/// Where more parts have arrived than can be counted, nothing is started and nothing
/// changes.
pub proof fn uncountable_parts_start_nothing(
    db: &mut Database,
    upload_id: &str,
    at: i64,
    outcome: Result<Completion, AppError>,
)
    requires
        old(db).wf(),
        call_ensures(complete_upload_at, (db, upload_id, at), outcome),
        upload(old(db)@, upload_id@) matches Some(u) && (u.status == UploadStatus::Pending
            || u.status == UploadStatus::Failed),
        arrived(old(db)@.parts, upload_id@) > i32::MAX,
    ensures
        outcome matches Err(e) && e@ is Database,
        final(db)@ == old(db)@,
{
    uploaded_parts_are_the_arrived(old(db)@.parts, upload_id@);
}

} // verus!
