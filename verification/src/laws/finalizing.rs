//! What the work of finalization records.
use crate::clock::{rfc3339_text, Instant};
use crate::db::Database;
use crate::db::lifecycle::{completed, failed, progressed};
use crate::db::schema::{PartStatus, PartView, Upload, UploadStatus};
use crate::db::tables::{keys_hold, lemma_row_with_id, parts_come_sorted, upload, Tables};
use crate::decimal::decimal;
use crate::error::{AppError, ErrorView, JwtError};
use crate::handlers::finalize::{
    part_progress, progress_stays_in_range, with_failure, with_progress, Finalization, PartCheck,
    Webhook,
};
use crate::handlers::status::{get_status, StatusQuery, UploadStatusResponse};
use crate::headers::header_value;
use crate::laws::completion::{lemma_found, only_this_upload_changes, same_file};
use crate::laws::counting::arrived;
use crate::laws::records::lemma_parts_of;
use crate::laws::status::the_record_is_told;
use crate::text::option_view;
use axum::http::HeaderMap;
use vstd::prelude::*;

verus! {

/// What a client reads of a failure: its message, and of a refused token why.
pub open spec fn reason(error: ErrorView) -> Seq<char> {
    match error {
        ErrorView::Unauthorized(m) => m,
        ErrorView::BadRequest(m) => m,
        ErrorView::NotFound(m) => m,
        ErrorView::Conflict(m) => m,
        ErrorView::Internal(m) => m,
        ErrorView::Storage(m) => m,
        ErrorView::Database(m) => m,
        ErrorView::Jwt(JwtError::Expired) => "Token has expired"@,
        ErrorView::Jwt(JwtError::Invalid) => "Invalid token"@,
    }
}

/// The upload has failed with this error, and nothing else has changed.
pub open spec fn has_failed(
    before: Tables,
    end: Tables,
    id: Seq<char>,
    error: Seq<char>,
    at: i64,
) -> bool {
    &&& only_this_upload_changes(before, end, id)
    &&& upload(before, id) matches Some(u) ==> (upload(end, id) matches Some(v) && {
        &&& same_file(u, v)
        &&& v.status == UploadStatus::Failed
        &&& v.finalization_error == Some(error)
        &&& v.finalization_updated_at == Some(at)
        &&& v.updated_at == at
        &&& v.final_path == u.final_path
        &&& v.finalizing_progress_percent == u.finalizing_progress_percent
    })
    &&& upload(before, id) is None ==> end == before
}

/// The upload has come this far, and nothing else has changed.
pub open spec fn has_moved(
    before: Tables,
    end: Tables,
    id: Seq<char>,
    percent: int,
    at: i64,
) -> bool {
    &&& only_this_upload_changes(before, end, id)
    &&& upload(before, id) matches Some(u) ==> (upload(end, id) matches Some(v) && {
        &&& same_file(u, v)
        &&& v.status == u.status
        &&& v.finalizing_progress_percent == percent
        &&& v.finalization_error == u.finalization_error
        &&& v.finalization_updated_at == Some(at)
        &&& v.updated_at == at
        &&& v.final_path == u.final_path
    })
    &&& upload(before, id) is None ==> end == before
}

proof fn lemma_failed(t: Tables, id: Seq<char>, error: Seq<char>, at: i64)
    requires
        keys_hold(t),
    ensures
        has_failed(t, with_failure(t, id, error, at), id, error, at),
{
    if upload(t, id) is Some {
        lemma_row_with_id(t.uploads, id);
        lemma_found(t, id, failed(upload(t, id)->0, error, at));
    }
}

proof fn lemma_moved(t: Tables, id: Seq<char>, percent: i32, at: i64)
    requires
        keys_hold(t),
        0 <= percent <= 100,
    ensures
        has_moved(
            t,
            with_progress(t, id, percent, at),
            id,
            percent as int,
            at,
        ),
{
    if upload(t, id) is Some {
        lemma_row_with_id(t.uploads, id);
        lemma_found(t, id, progressed(upload(t, id)->0, percent, at));
    }
}

/// The work begins for a known upload with its row and the rows of its parts, by
/// number, none of them checked, and with a progress of 1; for an unknown one it
/// is refused with 404.
pub proof fn the_work_begins_with_the_rows(
    db: &mut Database,
    upload_id: &str,
    at: i64,
    outcome: Result<Finalization, AppError>,
)
    requires
        old(db).wf(),
        call_ensures(Finalization::begin, (db, upload_id, at), outcome),
    ensures
        outcome is Ok == (upload(old(db)@, upload_id@) is Some),
        outcome matches Ok(work) ==> {
            &&& Some(work@.upload) == upload(old(db)@, upload_id@)
            &&& work@.checked == 0
            &&& !work@.ready
            &&& forall|i: int, j: int|
                0 <= i < j < work@.parts.len() ==> (#[trigger] work@.parts[i]).part_number < (
                #[trigger] work@.parts[j]).part_number
            &&& work@.parts.to_multiset() == old(db)@.parts.filter(
                |p: PartView| p.upload_id == upload_id@,
            ).to_multiset()
            &&& has_moved(old(db)@, final(db)@, upload_id@, 1, at)
        },
        outcome matches Err(e) ==> e@ is NotFound && final(db)@ == old(db)@,
{
    parts_come_sorted(old(db)@, upload_id@);
    lemma_parts_of(old(db)@.parts, upload_id@);
    lemma_moved(old(db)@, upload_id@, 1, at);
}

/// Where the rows of the parts cannot be loaded, the finalization has failed.
pub proof fn unreadable_parts_fail_the_work(
    db: &mut Database,
    upload_id: &str,
    error: &str,
    at: i64,
)
    requires
        old(db).wf(),
        call_ensures(Finalization::parts_unavailable, (db, upload_id, error, at), ()),
    ensures
        has_failed(old(db)@, final(db)@, upload_id@, "Failed to load parts: "@ + error@, at),
{
    lemma_failed(old(db)@, upload_id@, "Failed to load parts: "@ + error@, at);
}

/// The parts are checked in turn. A part that has arrived moves the work on, by its
/// share of the way from 1 to 90; one that has not ends it with a failure that
/// names the part; and when all were checked, every one of them has arrived.
pub proof fn parts_are_checked_in_turn(
    work: &mut Finalization,
    db: &mut Database,
    at: i64,
    outcome: PartCheck,
)
    requires
        old(work).wf(),
        old(db).wf(),
        call_ensures(Finalization::check_part, (work, db, at), outcome),
    ensures
        final(work)@.upload == old(work)@.upload,
        final(work)@.parts == old(work)@.parts,
        final(work)@.ready == old(work)@.ready,
        outcome == PartCheck::AllArrived ==> final(db)@ == old(db)@ && final(work)@
            == old(work)@ && forall|i: int|
            0 <= i < old(work)@.parts.len() ==> (#[trigger] old(work)@.parts[i]).status
                == PartStatus::Uploaded,
        outcome != PartCheck::AllArrived ==> 0 <= old(work)@.checked < old(work)@.parts.len(),
        ({
            let i = old(work)@.checked;
            let total = old(work)@.parts.len() as int;
            &&& outcome == PartCheck::Arrived ==> {
                &&& old(work)@.parts[i].status == PartStatus::Uploaded
                &&& final(work)@.checked == i + 1
                &&& exists|percent: int|
                    1 <= percent <= 90 && (percent - 1) * total <= 89 * (i + 1) < percent * total
                        && #[trigger] has_moved(
                        old(db)@,
                        final(db)@,
                        old(work)@.upload.id,
                        percent,
                        at,
                    )
            }
            &&& outcome == PartCheck::Missing ==> {
                &&& old(work)@.parts[i].status == PartStatus::Pending
                &&& final(work)@.checked == i
                &&& has_failed(
                    old(db)@,
                    final(db)@,
                    old(work)@.upload.id,
                    "Finalization verification failed: part "@ + decimal(
                        old(work)@.parts[i].part_number as int,
                    ) + " is not uploaded"@,
                    at,
                )
            }
        }),
{
    let t = old(db)@;
    let id = old(work)@.upload.id;
    let i = old(work)@.checked;
    let total = old(work)@.parts.len() as int;
    if outcome == PartCheck::Arrived {
        progress_stays_in_range(i + 1, total);
        let percent = part_progress(i + 1, total);
        assert((percent - 1) * total <= 89 * (i + 1) < percent * total) by (nonlinear_arith)
            requires
                total > 0,
                percent == 1 + ((i + 1) * 89) / total,
        ;
        lemma_moved(t, id, percent as i32, at);
        assert(has_moved(t, final(db)@, id, percent, at));
    }
    if outcome == PartCheck::Missing {
        lemma_failed(
            t,
            id,
            "Finalization verification failed: part "@ + decimal(
                old(work)@.parts[i].part_number as int,
            ) + " is not uploaded"@,
            at,
        );
    }
}

/// The file is put together exactly where the backend found the parts in order;
/// the progress is then 95. Where it did not, the finalization has failed with the
/// backend's reason.
pub proof fn the_backend_decides_whether_to_go_on(
    work: &mut Finalization,
    db: &mut Database,
    verdict: Result<(), AppError>,
    at: i64,
    proceed: bool,
)
    requires
        old(db).wf(),
        call_ensures(Finalization::verified, (work, db, verdict, at), proceed),
    ensures
        proceed == verdict is Ok,
        final(work)@.ready == verdict is Ok,
        final(work)@.upload == old(work)@.upload,
        final(work)@.parts == old(work)@.parts,
        final(work)@.checked == old(work)@.checked,
        verdict is Ok ==> has_moved(old(db)@, final(db)@, old(work)@.upload.id, 95, at),
        verdict matches Err(e) ==> has_failed(
            old(db)@,
            final(db)@,
            old(work)@.upload.id,
            "Finalization verification failed: "@ + reason(e@),
            at,
        ),
{
    let t = old(db)@;
    let id = old(work)@.upload.id;
    match verdict {
        Ok(_) => {
            lemma_moved(t, id, 95, at);
        },
        Err(e) => {
            lemma_failed(t, id, "Finalization verification failed: "@ + reason(e@), at);
        },
    }
}

/// When the file was put together, the upload is complete with the path that the
/// backend gave, and the client's webhook is told where the client named one: of
/// this upload, this file and this path. Where it was not, the finalization has
/// failed with the backend's reason and nobody is told.
pub proof fn finished_files_are_recorded_and_announced(
    work: &Finalization,
    db: &mut Database,
    result: Result<String, AppError>,
    at: Instant,
    hook: Option<Webhook>,
)
    requires
        old(db).wf(),
        call_ensures(Finalization::stored, (work, db, result, at), hook),
        upload(old(db)@, work@.upload.id) is Some,
    ensures
        only_this_upload_changes(old(db)@, final(db)@, work@.upload.id),
        result matches Ok(path) ==> {
            let u = upload(old(db)@, work@.upload.id)->0;
            &&& upload(final(db)@, work@.upload.id) matches Some(v) && {
                &&& same_file(u, v)
                &&& v.status == UploadStatus::Complete
                &&& v.final_path == Some(path@)
                &&& v.finalizing_progress_percent == 100
                &&& v.finalization_error is None
                &&& v.finalization_updated_at == Some(at.seconds)
                &&& v.updated_at == at.seconds
            }
            &&& hook is Some == (work@.upload.webhook_url is Some)
            &&& hook matches Some(h) ==> {
                &&& Some(h.url@) == work@.upload.webhook_url
                &&& h.payload.event@ == "upload.complete"@
                &&& h.payload.file_id@ == work@.upload.id
                &&& h.payload.filename@ == work@.upload.filename
                &&& h.payload.total_size == work@.upload.total_size
                &&& h.payload.final_path@ == path@
                &&& h.payload.storage_backend@ == work@.upload.storage_backend
                &&& h.payload.completed_at@ == rfc3339_text(at.seconds, at.nanos)
            }
        },
        result matches Err(e) ==> {
            &&& hook is None
            &&& has_failed(
                old(db)@,
                final(db)@,
                work@.upload.id,
                "Finalization failed: "@ + reason(e@),
                at.seconds,
            )
        },
{
    let t = old(db)@;
    let id = work@.upload.id;
    lemma_row_with_id(t.uploads, id);
    match result {
        Ok(path) => {
            lemma_found(t, id, completed(upload(t, id)->0, path@, at.seconds));
        },
        Err(e) => {
            lemma_failed(t, id, "Finalization failed: "@ + reason(e@), at.seconds);
        },
    }
}

/// Once the file was put together, a status request answers the path that the
/// backend gave.
pub proof fn the_path_of_the_backend_is_told(
    work: &Finalization,
    db: &mut Database,
    path: String,
    at: Instant,
    hook: Option<Webhook>,
    end: &Database,
    api_key: &str,
    upload_id: &str,
    query: &StatusQuery,
    headers: &HeaderMap,
    outcome: Result<UploadStatusResponse, AppError>,
)
    requires
        old(db).wf(),
        call_ensures(
            Finalization::stored,
            (work, db, Ok::<String, AppError>(path), at),
            hook,
        ),
        upload_id@ == work@.upload.id,
        upload(old(db)@, upload_id@) is Some,
        arrived(old(db)@.parts, upload_id@) <= i32::MAX,
        *end == *final(db),
        header_value(*headers, "x-api-key"@) == Some(api_key@),
        call_ensures(get_status, (end, api_key, upload_id, query, headers), outcome),
    ensures
        outcome matches Ok(r) && option_view(r.final_path) == Some(path@) && r.status@
            == "complete"@ && r.finalizing_progress_percent == 100 && r.finalization_error is None,
{
    finished_files_are_recorded_and_announced(work, db, Ok::<String, AppError>(path), at, hook);
    the_record_is_told(end, api_key, upload_id, query, headers, outcome);
}

/// The work knows its upload and how many parts it has.
pub proof fn the_work_knows_its_upload(work: &Finalization, row: Upload, count: usize)
    requires
        call_ensures(Finalization::upload, (work,), row),
        call_ensures(Finalization::part_count, (work,), count),
    ensures
        row@ == work@.upload,
        count == work@.parts.len(),
{
}

/// Of an upload that was cancelled meanwhile nothing is recorded.
pub proof fn nothing_is_recorded_of_a_cancelled_upload(
    work: &Finalization,
    db: &mut Database,
    result: Result<String, AppError>,
    at: Instant,
    hook: Option<Webhook>,
)
    requires
        call_ensures(Finalization::stored, (work, db, result, at), hook),
        upload(old(db)@, work@.upload.id) is None,
    ensures
        final(db)@ == old(db)@,
        result is Err ==> hook is None,
{
}

} // verus!
