//! What cancelling an upload does.
use crate::db::Database;
use crate::db::schema::UploadStatus;
use crate::db::tables::{lemma_row_with_id, part, removal_takes_the_upload_alone, upload};
use crate::error::{AppError, ErrorView};
use crate::handlers::cancel::{cancel_upload, finish_cancel, CancelAction, CancelUploadResponse};
use crate::headers::header_value;
use crate::laws::access::the_key_is_the_header;
use axum::http::HeaderMap;
use vstd::prelude::*;

verus! {

/// Whenever the cancellation of an upload that is not complete is allowed,
/// whichever other status the upload has, the action is to clean up that very
/// upload.
pub proof fn unfinished_uploads_are_cleaned_up(
    db: &Database,
    api_key: &str,
    upload_id: &str,
    headers: &HeaderMap,
    outcome: Result<CancelAction, AppError>,
)
    requires
        call_ensures(cancel_upload, (db, api_key, upload_id, headers), outcome),
        upload(db@, upload_id@) matches Some(u) && u.status != UploadStatus::Complete,
        outcome is Ok,
    ensures
        outcome matches Ok(CancelAction::CleanUp(row)) && Some(row@) == upload(db@, upload_id@),
{
}

/// With the right key the cancellation of every known upload is allowed, but for
/// one that is being finalized: that one is refused with 409.
pub proof fn cancellation_is_allowed_unless_finalizing(
    db: &Database,
    api_key: &str,
    upload_id: &str,
    headers: &HeaderMap,
    outcome: Result<CancelAction, AppError>,
)
    requires
        call_ensures(cancel_upload, (db, api_key, upload_id, headers), outcome),
        header_value(*headers, "x-api-key"@) == Some(api_key@),
        upload(db@, upload_id@) is Some,
    ensures
        outcome is Ok == (upload(db@, upload_id@)->0.status != UploadStatus::Finalizing),
        outcome matches Err(e) ==> e@ == ErrorView::Conflict(
            "Upload is finalizing and cannot be cancelled"@,
        ),
{
    the_key_is_the_header(*headers, api_key@);
}

/// Of a complete upload the file is to be deleted, at the very path that was
/// recorded.
pub proof fn finished_files_are_deleted(
    db: &Database,
    api_key: &str,
    upload_id: &str,
    headers: &HeaderMap,
    outcome: Result<CancelAction, AppError>,
)
    requires
        call_ensures(cancel_upload, (db, api_key, upload_id, headers), outcome),
        header_value(*headers, "x-api-key"@) == Some(api_key@),
        upload(db@, upload_id@) matches Some(u) && u.status == UploadStatus::Complete
            && u.final_path is Some,
    ensures
        outcome matches Ok(CancelAction::DeleteFile(path)) && Some(path@) == upload(
            db@,
            upload_id@,
        )->0.final_path,
{
    the_key_is_the_header(*headers, api_key@);
}

/// There is nothing to be removed only where the upload is complete and has no
/// final path.
pub proof fn only_a_file_without_a_path_is_left(
    db: &Database,
    api_key: &str,
    upload_id: &str,
    headers: &HeaderMap,
    outcome: Result<CancelAction, AppError>,
)
    requires
        call_ensures(cancel_upload, (db, api_key, upload_id, headers), outcome),
        header_value(*headers, "x-api-key"@) == Some(api_key@),
    ensures
        (outcome matches Ok(CancelAction::Nothing)) == (upload(db@, upload_id@) matches Some(u)
            && u.status == UploadStatus::Complete && u.final_path is None),
{
    the_key_is_the_header(*headers, api_key@);
}

/// Nothing is cancelled that was never announced, which is answered with 404, nor
/// for a request without the right key, which is answered with 401.
pub proof fn strangers_cancel_nothing(
    db: &Database,
    api_key: &str,
    upload_id: &str,
    headers: &HeaderMap,
    outcome: Result<CancelAction, AppError>,
)
    requires
        call_ensures(cancel_upload, (db, api_key, upload_id, headers), outcome),
    ensures
        header_value(*headers, "x-api-key"@) != Some(api_key@) ==> (outcome matches Err(e)
            && e@ is Unauthorized),
        header_value(*headers, "x-api-key"@) == Some(api_key@) && (forall|i: int|
            0 <= i < db@.uploads.len() ==> (#[trigger] db@.uploads[i]).id != upload_id@) ==> (
        outcome matches Err(e) && e@ is NotFound),
{
    the_key_is_the_header(*headers, api_key@);
    lemma_row_with_id(db@.uploads, upload_id@);
}

/// A cancelled upload is forgotten with all its parts, and every other upload and
/// part is found as before. The answer names the upload and says `cancelled`.
pub proof fn cancelled_uploads_are_forgotten(
    db: &mut Database,
    upload_id: &str,
    response: CancelUploadResponse,
)
    requires
        old(db).wf(),
        call_ensures(finish_cancel, (db, upload_id), response),
    ensures
        final(db).wf(),
        upload(final(db)@, upload_id@) is None,
        forall|number: i32| (#[trigger] part(final(db)@, upload_id@, number)) is None,
        forall|other: Seq<char>|
            other != upload_id@ ==> #[trigger] upload(final(db)@, other) == upload(
                old(db)@,
                other,
            ),
        forall|other: Seq<char>, number: i32|
            other != upload_id@ ==> #[trigger] part(final(db)@, other, number) == part(
                old(db)@,
                other,
                number,
            ),
        response.file_id@ == upload_id@,
        response.status@ == "cancelled"@,
        response.message@ == "Upload cancelled and cleaned up"@,
{
    removal_takes_the_upload_alone(old(db)@, upload_id@);
}

} // verus!
