//! `DELETE /upload/{id}`: cancel an upload.
use crate::auth::api_key::{key_refusal, ApiKeyAuth};
use crate::db::repository::upload_not_found;
use crate::db::schema::{Upload, UploadStatus, UploadView};
use crate::db::tables::{upload, without_upload, Tables};
use crate::db::Database;
use crate::error::{AppError, ErrorView};
use axum::http::HeaderMap;
use vstd::prelude::*;

verus! {

/// The answer to a cancellation.
#[derive(Debug)]
pub struct CancelUploadResponse {
    pub file_id: String,
    pub status: String,
    pub message: String,
}

/// What is to be removed from storage before an upload is forgotten. A failure
/// to remove it does not stop the cancellation.
#[derive(Debug)]
pub enum CancelAction {
    /// The finished file at this path.
    DeleteFile(String),
    /// Whatever an unfinished upload has left.
    CleanUp(Upload),
    /// Nothing.
    Nothing,
}

/// Why an upload cannot be cancelled: it is unknown, or it is being finalized.
pub open spec fn cancel_refusal(t: Tables, upload_id: Seq<char>) -> Option<ErrorView> {
    match upload(t, upload_id) {
        None => Some(upload_not_found(upload_id)),
        Some(u) => if u.status == UploadStatus::Finalizing {
            Some(ErrorView::Conflict("Upload is finalizing and cannot be cancelled"@))
        } else {
            None
        },
    }
}

/// `action` removes what there is of the upload `u`.
pub open spec fn removes(action: CancelAction, u: UploadView) -> bool {
    if u.status == UploadStatus::Complete {
        match u.final_path {
            Some(path) => action matches CancelAction::DeleteFile(p) && p@ == path,
            None => action is Nothing,
        }
    } else {
        action matches CancelAction::CleanUp(row) && row@ == u
    }
}

/// Decides whether an upload may be cancelled and what is then to be removed.
pub fn cancel_upload(db: &Database, api_key: &str, upload_id: &str, headers: &HeaderMap) -> (outcome:
    Result<CancelAction, AppError>)
    requires
        db.wf(),
    ensures
        match key_refusal(*headers, api_key@) {
            Some(refusal) => outcome matches Err(e) && e@ == refusal,
            None => match outcome {
                Ok(action) => cancel_refusal(db@, upload_id@) is None && removes(
                    action,
                    upload(db@, upload_id@)->0,
                ),
                Err(e) => cancel_refusal(db@, upload_id@) == Some(e@),
            },
        },
{
    if let Err(e) = ApiKeyAuth::authorize(headers, api_key) {
        return Err(e);
    }
    let row: Upload = match db.get_upload(upload_id) {
        Ok(row) => row,
        Err(e) => return Err(e),
    };
    if row.status == UploadStatus::Finalizing {
        return Err(
            AppError::Conflict("Upload is finalizing and cannot be cancelled".to_owned()),
        );
    }
    if row.status == UploadStatus::Complete {
        match row.final_path {
            Some(path) => Ok(CancelAction::DeleteFile(path)),
            None => Ok(CancelAction::Nothing),
        }
    } else {
        Ok(CancelAction::CleanUp(row))
    }
}

/// Forgets an upload once its files are removed.
pub fn finish_cancel(db: &mut Database, upload_id: &str) -> (response: CancelUploadResponse)
    requires
        old(db).wf(),
    ensures
        final(db).wf(),
        final(db)@ == without_upload(old(db)@, upload_id@),
        response.file_id@ == upload_id@,
        response.status@ == "cancelled"@,
        response.message@ == "Upload cancelled and cleaned up"@,
{
    db.delete_upload(upload_id);
    CancelUploadResponse {
        file_id: upload_id.to_owned(),
        status: "cancelled".to_owned(),
        message: "Upload cancelled and cleaned up".to_owned(),
    }
}

} // verus!
