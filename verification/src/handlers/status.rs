//! `GET /upload/{id}/status`: how far an upload has come.
use crate::auth::api_key::{key_refusal, ApiKeyAuth};
use crate::clock::{second_text, write_second};
use crate::db::repository::{count_out_of_range, part_views, upload_not_found};
use crate::db::schema::{
    part_status_text, upload_status_text, PartView, Upload, UploadPart, UploadStatus, UploadView,
};
use crate::db::tables::{sorted_parts, upload, uploaded_count, Tables};
use crate::db::Database;
use crate::error::AppError;
use crate::text::{copy_option, option_view};
use axum::http::HeaderMap;
use vstd::prelude::*;

verus! {

/// What a status request asks for.
#[derive(Debug)]
pub struct StatusQuery {
    pub include_parts: bool,
}

/// How far an upload has come.
#[derive(Debug)]
pub struct UploadStatusResponse {
    pub file_id: String,
    pub filename: String,
    pub total_size: i64,
    pub chunk_size: i64,
    pub total_parts: i32,
    pub uploaded_parts: i32,
    pub status: String,
    pub phase: String,
    pub finalizing_progress_percent: i32,
    pub finalization_error: Option<String>,
    pub storage_backend: String,
    pub parts: Option<Vec<PartStatusInfo>>,
    pub created_at: String,
    pub expires_at: String,
    pub final_path: Option<String>,
}

/// How far one part has come.
#[derive(Debug)]
pub struct PartStatusInfo {
    pub part: i32,
    pub status: String,
    pub checksum_sha256: Option<String>,
    pub uploaded_at: Option<String>,
}

/// The phase of an upload in words.
pub open spec fn phase_text(status: UploadStatus) -> Seq<char> {
    match status {
        UploadStatus::Pending => "uploading"@,
        UploadStatus::Finalizing => "finalizing"@,
        UploadStatus::Complete => "complete"@,
        UploadStatus::Failed => "failed"@,
    }
}

/// The phase of an upload in words.
pub fn phase_of(status: UploadStatus) -> (phase: String)
    ensures
        phase@ == phase_text(status),
{
    match status {
        UploadStatus::Pending => "uploading".to_owned(),
        UploadStatus::Finalizing => "finalizing".to_owned(),
        UploadStatus::Complete => "complete".to_owned(),
        UploadStatus::Failed => "failed".to_owned(),
    }
}

/// `info` tells of the part `p`.
pub open spec fn tells_of_part(info: PartStatusInfo, p: PartView) -> bool {
    &&& info.part == p.part_number
    &&& info.status@ == part_status_text(p.status)
    &&& option_view(info.checksum_sha256) == p.checksum_sha256
    &&& option_view(info.uploaded_at) == match p.uploaded_at {
        Some(at) => Some(second_text(at)),
        None => None,
    }
}

/// `response` tells of the upload `u`, with its parts where they were asked for.
pub open spec fn tells_of_upload(
    response: UploadStatusResponse,
    t: Tables,
    u: UploadView,
    include_parts: bool,
) -> bool {
    &&& response.file_id@ == u.id
    &&& response.filename@ == u.filename
    &&& response.total_size == u.total_size
    &&& response.chunk_size == u.chunk_size
    &&& response.total_parts == u.total_parts
    &&& response.uploaded_parts == uploaded_count(t.parts, u.id)
    &&& response.status@ == upload_status_text(u.status)
    &&& response.phase@ == phase_text(u.status)
    &&& response.finalizing_progress_percent == u.finalizing_progress_percent
    &&& option_view(response.finalization_error) == u.finalization_error
    &&& response.storage_backend@ == u.storage_backend
    &&& response.parts is Some == include_parts
    &&& response.parts matches Some(parts) ==> {
        &&& parts@.len() == sorted_parts(t, u.id).len()
        &&& forall|i: int|
            0 <= i < parts@.len() ==> tells_of_part(
                #[trigger] parts@[i],
                sorted_parts(t, u.id)[i],
            )
    }
    &&& response.created_at@ == second_text(u.created_at)
    &&& response.expires_at@ == second_text(u.expires_at)
    &&& option_view(response.final_path) == u.final_path
}

/// What is told of one part.
fn part_info(row: &UploadPart) -> (info: PartStatusInfo)
    ensures
        tells_of_part(info, row@),
{
    PartStatusInfo {
        part: row.part_number,
        status: row.status.to_string(),
        checksum_sha256: copy_option(&row.checksum_sha256),
        uploaded_at: match row.uploaded_at {
            Some(at) => Some(write_second(at)),
            None => None,
        },
    }
}

/// Tells how far an upload has come.
pub fn get_status(
    db: &Database,
    api_key: &str,
    upload_id: &str,
    query: &StatusQuery,
    headers: &HeaderMap,
) -> (outcome: Result<UploadStatusResponse, AppError>)
    requires
        db.wf(),
    ensures
        match key_refusal(*headers, api_key@) {
            Some(refusal) => outcome matches Err(e) && e@ == refusal,
            None => match upload(db@, upload_id@) {
                None => outcome matches Err(e) && e@ == upload_not_found(upload_id@),
                Some(u) => if uploaded_count(db@.parts, upload_id@) > i32::MAX {
                    outcome matches Err(e) && e@ == count_out_of_range(
                        uploaded_count(db@.parts, upload_id@),
                    )
                } else {
                    outcome matches Ok(response) && tells_of_upload(
                        response,
                        db@,
                        u,
                        query.include_parts,
                    )
                },
            },
        },
{
    if let Err(e) = ApiKeyAuth::authorize(headers, api_key) {
        return Err(e);
    }
    let row: Upload = match db.get_upload(upload_id) {
        Ok(row) => row,
        Err(e) => return Err(e),
    };
    proof {
        crate::db::tables::lemma_row_with_id(db@.uploads, upload_id@);
    }
    let uploaded_parts: i32 = match db.count_uploaded_parts(upload_id) {
        Ok(count) => count,
        Err(e) => return Err(e),
    };
    let parts: Option<Vec<PartStatusInfo>> = if query.include_parts {
        let rows: Vec<UploadPart> = db.get_all_parts(upload_id);
        let mut infos: Vec<PartStatusInfo> = Vec::new();
        let mut i: usize = 0;
        while i < rows.len()
            invariant
                i <= rows@.len(),
                infos@.len() == i,
                forall|j: int| 0 <= j < i ==> tells_of_part(#[trigger] infos@[j], rows@[j]@),
            decreases rows@.len() - i,
        {
            infos.push(part_info(&rows[i]));
            i += 1;
        }
        assert(part_views(rows@) == sorted_parts(db@, upload_id@));
        assert forall|j: int| 0 <= j < infos@.len() implies tells_of_part(
            #[trigger] infos@[j],
            sorted_parts(db@, upload_id@)[j],
        ) by {
            assert(part_views(rows@)[j] == rows@[j]@);
        }
        Some(infos)
    } else {
        None
    };
    Ok(
        UploadStatusResponse {
            status: row.status.to_string(),
            phase: phase_of(row.status),
            file_id: row.id,
            filename: row.filename,
            total_size: row.total_size,
            chunk_size: row.chunk_size,
            total_parts: row.total_parts,
            uploaded_parts,
            finalizing_progress_percent: row.finalizing_progress_percent,
            finalization_error: row.finalization_error,
            storage_backend: row.storage_backend,
            parts,
            created_at: write_second(row.created_at),
            expires_at: write_second(row.expires_at),
            final_path: row.final_path,
        },
    )
}

} // verus!
