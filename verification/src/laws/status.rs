//! What a status request tells.
use crate::clock::second_text;
use crate::db::Database;
use crate::db::lifecycle::{completed, failed, progressed};
use crate::db::schema::{PartStatus, PartView, UploadStatus};
use crate::db::tables::{lemma_row_with_id, parts_come_sorted, parts_of, sorted_parts, upload};
use crate::error::AppError;
use crate::handlers::status::{get_status, PartStatusInfo, StatusQuery, UploadStatusResponse};
use crate::headers::header_value;
use crate::laws::access::the_key_is_the_header;
use crate::laws::completion::lemma_found;
use crate::laws::counting::{arrived, uploaded_parts_are_the_arrived};
use crate::text::option_view;
use axum::http::HeaderMap;
use vstd::prelude::*;
use vstd::seq_lib::to_multiset_contains;

verus! {

/// With the right key a status request is told what is recorded of a known
/// upload: its file, its division, how many of its parts have arrived, where it
/// stands, how far finalization has come and where the finished file is.
pub proof fn the_record_is_told(
    db: &Database,
    api_key: &str,
    upload_id: &str,
    query: &StatusQuery,
    headers: &HeaderMap,
    outcome: Result<UploadStatusResponse, AppError>,
)
    requires
        call_ensures(get_status, (db, api_key, upload_id, query, headers), outcome),
        header_value(*headers, "x-api-key"@) == Some(api_key@),
        upload(db@, upload_id@) is Some,
        arrived(db@.parts, upload_id@) <= i32::MAX,
    ensures
        outcome matches Ok(r) && {
            let u = upload(db@, upload_id@)->0;
            &&& r.file_id@ == upload_id@
            &&& r.filename@ == u.filename
            &&& r.total_size == u.total_size
            &&& r.chunk_size == u.chunk_size
            &&& r.total_parts == u.total_parts
            &&& r.uploaded_parts == arrived(db@.parts, upload_id@)
            &&& r.finalizing_progress_percent == u.finalizing_progress_percent
            &&& option_view(r.finalization_error) == u.finalization_error
            &&& r.storage_backend@ == u.storage_backend
            &&& option_view(r.final_path) == u.final_path
            &&& r.created_at@ == second_text(u.created_at)
            &&& r.expires_at@ == second_text(u.expires_at)
            &&& u.status == UploadStatus::Pending ==> r.status@ == "pending"@ && r.phase@
                == "uploading"@
            &&& u.status == UploadStatus::Finalizing ==> r.status@ == "finalizing"@ && r.phase@
                == "finalizing"@
            &&& u.status == UploadStatus::Complete ==> r.status@ == "complete"@ && r.phase@
                == "complete"@
            &&& u.status == UploadStatus::Failed ==> r.status@ == "failed"@ && r.phase@
                == "failed"@
        },
{
    the_key_is_the_header(*headers, api_key@);
    lemma_row_with_id(db@.uploads, upload_id@);
    uploaded_parts_are_the_arrived(db@.parts, upload_id@);
}

/// After a finalization was recorded as complete with a path, a status request
/// answers that very path as the final path.
pub proof fn the_path_of_a_finished_file_is_told(
    db: &mut Database,
    upload_id: &str,
    path: &str,
    then: i64,
    end: &Database,
    api_key: &str,
    query: &StatusQuery,
    headers: &HeaderMap,
    outcome: Result<UploadStatusResponse, AppError>,
)
    requires
        old(db).wf(),
        upload(old(db)@, upload_id@) is Some,
        arrived(old(db)@.parts, upload_id@) <= i32::MAX,
        call_ensures(Database::mark_finalization_complete, (db, upload_id, path, then), ()),
        *end == *final(db),
        header_value(*headers, "x-api-key"@) == Some(api_key@),
        call_ensures(get_status, (end, api_key, upload_id, query, headers), outcome),
    ensures
        outcome matches Ok(r) && {
            &&& option_view(r.final_path) == Some(path@)
            &&& r.status@ == "complete"@
            &&& r.phase@ == "complete"@
            &&& r.finalizing_progress_percent == 100
            &&& r.finalization_error is None
        },
{
    let t = old(db)@;
    lemma_row_with_id(t.uploads, upload_id@);
    lemma_found(t, upload_id@, completed(upload(t, upload_id@)->0, path@, then));
    the_record_is_told(end, api_key, upload_id, query, headers, outcome);
}

/// After a finalization was recorded as failed, a status request is told so and
/// is given the error; the final path is as it was.
pub proof fn the_error_of_a_failed_finalization_is_told(
    db: &mut Database,
    upload_id: &str,
    error: &str,
    then: i64,
    end: &Database,
    api_key: &str,
    query: &StatusQuery,
    headers: &HeaderMap,
    outcome: Result<UploadStatusResponse, AppError>,
)
    requires
        old(db).wf(),
        upload(old(db)@, upload_id@) is Some,
        arrived(old(db)@.parts, upload_id@) <= i32::MAX,
        call_ensures(Database::mark_finalization_failed, (db, upload_id, error, then), ()),
        *end == *final(db),
        header_value(*headers, "x-api-key"@) == Some(api_key@),
        call_ensures(get_status, (end, api_key, upload_id, query, headers), outcome),
    ensures
        outcome matches Ok(r) && {
            &&& option_view(r.finalization_error) == Some(error@)
            &&& r.status@ == "failed"@
            &&& r.phase@ == "failed"@
            &&& option_view(r.final_path) == upload(old(db)@, upload_id@)->0.final_path
        },
{
    let t = old(db)@;
    lemma_row_with_id(t.uploads, upload_id@);
    lemma_found(t, upload_id@, failed(upload(t, upload_id@)->0, error@, then));
    the_record_is_told(end, api_key, upload_id, query, headers, outcome);
}

/// A status request is told the progress that was recorded last.
pub proof fn the_recorded_progress_is_told(
    db: &mut Database,
    upload_id: &str,
    percent: i32,
    then: i64,
    end: &Database,
    api_key: &str,
    query: &StatusQuery,
    headers: &HeaderMap,
    outcome: Result<UploadStatusResponse, AppError>,
)
    requires
        old(db).wf(),
        upload(old(db)@, upload_id@) is Some,
        arrived(old(db)@.parts, upload_id@) <= i32::MAX,
        0 <= percent <= 100,
        call_ensures(Database::update_finalizing_progress, (db, upload_id, percent, then), ()),
        *end == *final(db),
        header_value(*headers, "x-api-key"@) == Some(api_key@),
        call_ensures(get_status, (end, api_key, upload_id, query, headers), outcome),
    ensures
        outcome matches Ok(r) && r.finalizing_progress_percent == percent,
{
    let t = old(db)@;
    lemma_row_with_id(t.uploads, upload_id@);
    lemma_found(t, upload_id@, progressed(upload(t, upload_id@)->0, percent, then));
    the_record_is_told(end, api_key, upload_id, query, headers, outcome);
}

/// Nothing is told of an upload that was never announced, which is answered with
/// 404, nor to a request without the right key, which is answered with 401.
pub proof fn strangers_are_told_nothing(
    db: &Database,
    api_key: &str,
    upload_id: &str,
    query: &StatusQuery,
    headers: &HeaderMap,
    outcome: Result<UploadStatusResponse, AppError>,
)
    requires
        call_ensures(get_status, (db, api_key, upload_id, query, headers), outcome),
    ensures
        header_value(*headers, "x-api-key"@) != Some(api_key@) ==> (outcome matches Err(e)
            && e@ is Unauthorized),
        header_value(*headers, "x-api-key"@) == Some(api_key@) && (forall|i: int|
            0 <= i < db@.uploads.len() ==> (#[trigger] db@.uploads[i]).id != upload_id@) ==> (
        outcome matches Err(e) && e@ is NotFound),
{
    the_key_is_the_header(*headers, api_key@);
    lemma_row_with_id(db@.uploads, upload_id@);
}

// ---------------------------------------------------------------------------
// Parts
// ---------------------------------------------------------------------------
/// What a client reads of one part is what its row says.
pub open spec fn reads_as(info: PartStatusInfo, p: PartView) -> bool {
    &&& info.part == p.part_number
    &&& p.status == PartStatus::Pending ==> info.status@ == "pending"@
    &&& p.status == PartStatus::Uploaded ==> info.status@ == "uploaded"@
    &&& option_view(info.checksum_sha256) == p.checksum_sha256
    &&& p.uploaded_at is None ==> info.uploaded_at is None
    &&& p.uploaded_at matches Some(at) ==> option_view(info.uploaded_at) == Some(second_text(at))
}

proof fn lemma_parts_of_contains(parts: Seq<PartView>, id: Seq<char>)
    ensures
        forall|k: int|
            0 <= k < parts.len() && (#[trigger] parts[k]).upload_id == id ==> parts_of(
                parts,
                id,
            ).contains(parts[k]),
        forall|i: int|
            0 <= i < parts_of(parts, id).len() ==> (#[trigger] parts_of(parts, id)[i]).upload_id
                == id && parts.contains(parts_of(parts, id)[i]),
    decreases parts.len(),
{
    if parts.len() > 0 {
        let front = parts.drop_last();
        let head = parts_of(front, id);
        let all = parts_of(parts, id);
        lemma_parts_of_contains(front, id);
        assert forall|k: int| 0 <= k < parts.len() && (
        #[trigger] parts[k]).upload_id == id implies all.contains(parts[k]) by {
            if k < front.len() {
                assert(front[k] == parts[k]);
                let i = choose|i: int| 0 <= i < head.len() && head[i] == front[k];
                assert(all[i] == parts[k]);
            } else {
                assert(all[all.len() - 1] == parts[k]);
            }
        }
        assert forall|i: int| 0 <= i < all.len() implies (#[trigger] all[i]).upload_id == id
            && parts.contains(all[i]) by {
            if i < head.len() {
                assert(all[i] == head[i]);
                let k = choose|k: int| 0 <= k < front.len() && front[k] == head[i];
                assert(parts[k] == all[i]);
            } else {
                assert(parts[parts.len() - 1] == all[i]);
            }
        }
    }
}

/// Where a client asks for the parts, it is told of every part of the upload and
/// of no other, by number; where it does not ask, it is told of none.
pub proof fn every_part_is_told_of(
    db: &Database,
    api_key: &str,
    upload_id: &str,
    query: &StatusQuery,
    headers: &HeaderMap,
    outcome: Result<UploadStatusResponse, AppError>,
)
    requires
        db.wf(),
        call_ensures(get_status, (db, api_key, upload_id, query, headers), outcome),
        outcome is Ok,
    ensures
        outcome->Ok_0.parts is Some == query.include_parts,
        outcome->Ok_0.parts matches Some(told) ==> {
            &&& forall|i: int, j: int|
                0 <= i < j < told@.len() ==> (#[trigger] told@[i]).part < (
                #[trigger] told@[j]).part
            &&& forall|k: int|
                0 <= k < db@.parts.len() && (#[trigger] db@.parts[k]).upload_id == upload_id@
                    ==> exists|i: int| 0 <= i < told@.len() && reads_as(told@[i], db@.parts[k])
            &&& forall|i: int|
                0 <= i < told@.len() ==> exists|k: int|
                    0 <= k < db@.parts.len() && db@.parts[k].upload_id == upload_id@ && reads_as(
                        #[trigger] told@[i],
                        db@.parts[k],
                    )
        },
{
    let t = db@;
    let id = upload_id@;
    let rows = sorted_parts(t, id);
    let picked = parts_of(t.parts, id);
    lemma_row_with_id(t.uploads, id);
    parts_come_sorted(t, id);
    lemma_parts_of_contains(t.parts, id);
    if outcome->Ok_0.parts is Some {
        let told = outcome->Ok_0.parts->0@;
        assert forall|i: int| 0 <= i < told.len() implies reads_as(#[trigger] told[i], rows[i]) by {
        }
        assert forall|i: int, j: int| 0 <= i < j < told.len() implies (#[trigger] told[i]).part < (
        #[trigger] told[j]).part by {
            assert(rows[i].part_number < rows[j].part_number);
        }
        assert forall|k: int| 0 <= k < t.parts.len() && (
        #[trigger] t.parts[k]).upload_id == id implies exists|i: int|
            0 <= i < told.len() && reads_as(told[i], t.parts[k]) by {
            assert(picked.contains(t.parts[k]));
            to_multiset_contains(picked, t.parts[k]);
            to_multiset_contains(rows, t.parts[k]);
            assert(rows.contains(t.parts[k]));
            let i = choose|i: int| 0 <= i < rows.len() && rows[i] == t.parts[k];
            assert(reads_as(told[i], t.parts[k]));
        }
        assert forall|i: int| 0 <= i < told.len() implies exists|k: int|
            0 <= k < t.parts.len() && t.parts[k].upload_id == id && reads_as(
                #[trigger] told[i],
                t.parts[k],
            ) by {
            to_multiset_contains(picked, rows[i]);
            to_multiset_contains(rows, rows[i]);
            assert(rows.contains(rows[i]));
            assert(picked.contains(rows[i]));
            let m = choose|m: int| 0 <= m < picked.len() && picked[m] == rows[i];
            let k = choose|k: int| 0 <= k < t.parts.len() && t.parts[k] == picked[m];
            assert(reads_as(told[i], t.parts[k]));
        }
    }
}

/// Where more parts have arrived than can be counted, nothing is told.
pub proof fn uncountable_parts_are_refused(
    db: &Database,
    api_key: &str,
    upload_id: &str,
    query: &StatusQuery,
    headers: &HeaderMap,
    outcome: Result<UploadStatusResponse, AppError>,
)
    requires
        call_ensures(get_status, (db, api_key, upload_id, query, headers), outcome),
        header_value(*headers, "x-api-key"@) == Some(api_key@),
        upload(db@, upload_id@) is Some,
        arrived(db@.parts, upload_id@) > i32::MAX,
    ensures
        outcome matches Err(e) && e@ is Database,
{
    the_key_is_the_header(*headers, api_key@);
    uploaded_parts_are_the_arrived(db@.parts, upload_id@);
}

} // verus!
