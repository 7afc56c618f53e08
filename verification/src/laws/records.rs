//! What the operations on the tables do to the rows.
use crate::db::Database;
use crate::db::lifecycle::{
    completed, failed, part_reached, progressed, restarted, started, with_final_path, with_status,
};
use crate::db::repository::{part_views, upload_views};
use crate::db::schema::{PartStatus, PartView, Upload, UploadPart, UploadStatus, UploadView};
use crate::db::tables::{
    expired_rows, finalizing_count, lemma_part_found, lemma_part_with_key, lemma_put_part,
    lemma_row_found, lemma_row_with_id, part, parts_of, removal_takes_the_upload_alone,
    restart_keeps_the_keys, taken, upload,
};
use crate::decimal::decimal;
use crate::error::{AppError, ErrorView};
use crate::laws::completion::{lemma_found, only_this_upload_changes, same_file};
use crate::laws::counting::{arrived, uploaded_parts_are_the_arrived};
use crate::text::option_str_view;
use vstd::prelude::*;

verus! {

// ---------------------------------------------------------------------------
// Uploads
// ---------------------------------------------------------------------------
/// A new upload is added as it is, behind all others; one whose id is taken is
/// refused and changes nothing.
pub proof fn new_uploads_are_added(
    db: &mut Database,
    new: &Upload,
    outcome: Result<(), AppError>,
)
    requires
        old(db).wf(),
        call_ensures(Database::create_upload, (db, new), outcome),
    ensures
        outcome is Ok == forall|i: int|
            0 <= i < old(db)@.uploads.len() ==> (#[trigger] old(db)@.uploads[i]).id != new.id@,
        outcome is Ok ==> final(db)@.uploads == old(db)@.uploads.push(new@),
        outcome matches Err(e) ==> e@ == ErrorView::Database(
            "UNIQUE constraint failed: uploads.id"@,
        ) && final(db)@.uploads == old(db)@.uploads,
        final(db)@.parts == old(db)@.parts,
{
    lemma_row_with_id(old(db)@.uploads, new.id@);
    if upload(old(db)@, new.id@) is Some {
        let u = upload(old(db)@, new.id@)->0;
        let i = choose|i: int| 0 <= i < old(db)@.uploads.len() && old(db)@.uploads[i] == u;
        assert(old(db)@.uploads[i].id == new.id@);
    }
}

/// Asking for an upload gives the row of the table that has its id, and 404 where
/// none has.
pub proof fn uploads_are_found_by_id(
    db: &Database,
    id: &str,
    outcome: Result<Upload, AppError>,
    i: int,
)
    requires
        db.wf(),
        call_ensures(Database::get_upload, (db, id), outcome),
    ensures
        0 <= i < db@.uploads.len() && db@.uploads[i].id == id@ ==> (outcome matches Ok(u) && u@
            == db@.uploads[i]),
        outcome matches Ok(u) ==> u.id@ == id@ && db@.uploads.contains(u@),
        outcome matches Err(e) ==> e@ is NotFound && e@->NotFound_0 == "Upload "@ + id@
            + " not found"@ && forall|k: int|
            0 <= k < db@.uploads.len() ==> (#[trigger] db@.uploads[k]).id != id@,
{
    lemma_row_with_id(db@.uploads, id@);
    if 0 <= i < db@.uploads.len() {
        lemma_row_found(db@.uploads, i);
    }
}

/// Setting a status sets it, and the time of the change; nothing else changes.
pub proof fn statuses_are_set(
    db: &mut Database,
    id: &str,
    status: UploadStatus,
    now: i64,
)
    requires
        old(db).wf(),
        call_ensures(Database::update_upload_status, (db, id, status, now), ()),
        upload(old(db)@, id@) is Some,
    ensures
        only_this_upload_changes(old(db)@, final(db)@, id@),
        upload(final(db)@, id@) matches Some(v) && {
            let u = upload(old(db)@, id@)->0;
            &&& same_file(u, v)
            &&& v.status == status
            &&& v.updated_at == now
            &&& v.final_path == u.final_path
            &&& v.finalization_started_at == u.finalization_started_at
            &&& v.finalization_updated_at == u.finalization_updated_at
            &&& v.finalization_error == u.finalization_error
            &&& v.finalizing_progress_percent == u.finalizing_progress_percent
        },
{
    let t = old(db)@;
    lemma_row_with_id(t.uploads, id@);
    lemma_found(t, id@, with_status(upload(t, id@)->0, status, now));
}

/// A finalization begins where the upload is pending or an earlier attempt failed,
/// and nowhere else. Where it begins, no other upload changes; where it does not,
/// nothing does.
pub proof fn finalization_begins_once(
    db: &mut Database,
    id: &str,
    now: i64,
    begun: bool,
)
    requires
        old(db).wf(),
        call_ensures(Database::try_start_finalization, (db, id, now), begun),
    ensures
        begun == (upload(old(db)@, id@) matches Some(u) && (u.status == UploadStatus::Pending
            || u.status == UploadStatus::Failed)),
        !begun ==> final(db)@ == old(db)@,
        begun ==> only_this_upload_changes(old(db)@, final(db)@, id@) && (upload(
            final(db)@,
            id@,
        ) matches Some(v) && {
            let u = upload(old(db)@, id@)->0;
            &&& same_file(u, v)
            &&& v.status == UploadStatus::Finalizing
            &&& v.finalization_started_at == Some(now)
            &&& v.finalization_updated_at == Some(now)
            &&& v.finalization_error is None
            &&& v.finalizing_progress_percent == 0
            &&& v.updated_at == now
            &&& v.final_path == u.final_path
        }),
{
    let t = old(db)@;
    if upload(t, id@) is Some {
        lemma_row_with_id(t.uploads, id@);
        lemma_found(t, id@, started(upload(t, id@)->0, now));
    }
}

/// Of two attempts to begin the same finalization, one right after the other, only
/// the first succeeds.
pub proof fn a_second_attempt_begins_nothing(
    db: &mut Database,
    id: &str,
    now: i64,
    begun: bool,
    again: &mut Database,
    later: i64,
    begun_again: bool,
)
    requires
        old(db).wf(),
        call_ensures(Database::try_start_finalization, (db, id, now), begun),
        begun,
        *old(again) == *final(db),
        call_ensures(Database::try_start_finalization, (again, id, later), begun_again),
    ensures
        !begun_again,
        final(again)@ == final(db)@,
{
    finalization_begins_once(db, id, now, begun);
    finalization_begins_once(again, id, later, begun_again);
}

/// A finalization is begun again only where it is under way and has not moved for
/// more than the threshold.
pub proof fn only_dead_finalizations_begin_again(
    db: &mut Database,
    id: &str,
    threshold: i64,
    now: i64,
    begun: bool,
)
    requires
        old(db).wf(),
        call_ensures(Database::restart_stale_finalization, (db, id, threshold, now), begun),
    ensures
        begun == (upload(old(db)@, id@) matches Some(u) && u.status == UploadStatus::Finalizing && (
        u.finalization_updated_at matches Some(moved) && now - moved > threshold)),
        !begun ==> final(db)@ == old(db)@,
        begun ==> only_this_upload_changes(old(db)@, final(db)@, id@) && (upload(
            final(db)@,
            id@,
        ) matches Some(v) && {
            let u = upload(old(db)@, id@)->0;
            &&& same_file(u, v)
            &&& v.status == UploadStatus::Finalizing
            &&& v.finalization_started_at == Some(now)
            &&& v.finalization_updated_at == Some(now)
            &&& v.finalization_error is None
            &&& v.finalizing_progress_percent == 0
            &&& v.updated_at == now
            &&& v.final_path == u.final_path
        }),
{
    let t = old(db)@;
    if upload(t, id@) is Some {
        lemma_row_with_id(t.uploads, id@);
        lemma_found(t, id@, restarted(upload(t, id@)->0, now));
    }
}

/// Recorded progress is the percentage that was given, but never less than 0 nor
/// more than 100. That the work has moved is noted; nothing else changes.
pub proof fn progress_is_recorded(
    db: &mut Database,
    id: &str,
    percent: i32,
    now: i64,
)
    requires
        old(db).wf(),
        call_ensures(Database::update_finalizing_progress, (db, id, percent, now), ()),
        upload(old(db)@, id@) is Some,
    ensures
        only_this_upload_changes(old(db)@, final(db)@, id@),
        upload(final(db)@, id@) matches Some(v) && {
            let u = upload(old(db)@, id@)->0;
            &&& same_file(u, v)
            &&& 0 <= v.finalizing_progress_percent <= 100
            &&& 0 <= percent <= 100 ==> v.finalizing_progress_percent == percent
            &&& percent < 0 ==> v.finalizing_progress_percent == 0
            &&& percent > 100 ==> v.finalizing_progress_percent == 100
            &&& v.finalization_updated_at == Some(now)
            &&& v.updated_at == now
            &&& v.status == u.status
            &&& v.final_path == u.final_path
            &&& v.finalization_started_at == u.finalization_started_at
            &&& v.finalization_error == u.finalization_error
        },
{
    let t = old(db)@;
    lemma_row_with_id(t.uploads, id@);
    lemma_found(t, id@, progressed(upload(t, id@)->0, percent, now));
}

/// A recorded success leaves the upload complete, with the path that was given,
/// full progress and no error.
pub proof fn successes_are_recorded(
    db: &mut Database,
    id: &str,
    final_path: &str,
    now: i64,
)
    requires
        old(db).wf(),
        call_ensures(Database::mark_finalization_complete, (db, id, final_path, now), ()),
        upload(old(db)@, id@) is Some,
    ensures
        only_this_upload_changes(old(db)@, final(db)@, id@),
        upload(final(db)@, id@) matches Some(v) && {
            let u = upload(old(db)@, id@)->0;
            &&& same_file(u, v)
            &&& v.status == UploadStatus::Complete
            &&& v.final_path == Some(final_path@)
            &&& v.finalizing_progress_percent == 100
            &&& v.finalization_error is None
            &&& v.finalization_updated_at == Some(now)
            &&& v.updated_at == now
            &&& v.finalization_started_at == u.finalization_started_at
        },
{
    let t = old(db)@;
    lemma_row_with_id(t.uploads, id@);
    lemma_found(t, id@, completed(upload(t, id@)->0, final_path@, now));
}

/// A recorded failure leaves the upload failed, with the error that was given; how
/// far it had come stays to be seen.
pub proof fn failures_are_recorded(
    db: &mut Database,
    id: &str,
    error: &str,
    now: i64,
)
    requires
        old(db).wf(),
        call_ensures(Database::mark_finalization_failed, (db, id, error, now), ()),
        upload(old(db)@, id@) is Some,
    ensures
        only_this_upload_changes(old(db)@, final(db)@, id@),
        upload(final(db)@, id@) matches Some(v) && {
            let u = upload(old(db)@, id@)->0;
            &&& same_file(u, v)
            &&& v.status == UploadStatus::Failed
            &&& v.finalization_error == Some(error@)
            &&& v.finalization_updated_at == Some(now)
            &&& v.updated_at == now
            &&& v.final_path == u.final_path
            &&& v.finalizing_progress_percent == u.finalizing_progress_percent
            &&& v.finalization_started_at == u.finalization_started_at
        },
{
    let t = old(db)@;
    lemma_row_with_id(t.uploads, id@);
    lemma_found(t, id@, failed(upload(t, id@)->0, error@, now));
}

/// Setting a final path sets it, and the time of the change; nothing else changes.
pub proof fn final_paths_are_set(
    db: &mut Database,
    id: &str,
    final_path: &str,
    now: i64,
)
    requires
        old(db).wf(),
        call_ensures(Database::update_upload_final_path, (db, id, final_path, now), ()),
        upload(old(db)@, id@) is Some,
    ensures
        only_this_upload_changes(old(db)@, final(db)@, id@),
        upload(final(db)@, id@) matches Some(v) && {
            let u = upload(old(db)@, id@)->0;
            &&& same_file(u, v)
            &&& v.final_path == Some(final_path@)
            &&& v.updated_at == now
            &&& v.status == u.status
            &&& v.finalization_started_at == u.finalization_started_at
            &&& v.finalization_updated_at == u.finalization_updated_at
            &&& v.finalization_error == u.finalization_error
            &&& v.finalizing_progress_percent == u.finalizing_progress_percent
        },
{
    let t = old(db)@;
    lemma_row_with_id(t.uploads, id@);
    lemma_found(t, id@, with_final_path(upload(t, id@)->0, final_path@, now));
}

/// What is recorded of an upload that is not there changes nothing.
pub proof fn nothing_is_recorded_of_strangers(
    a: &mut Database,
    b: &mut Database,
    c: &mut Database,
    d: &mut Database,
    e: &mut Database,
    id: &str,
    status: UploadStatus,
    percent: i32,
    text: &str,
    now: i64,
)
    requires
        call_ensures(Database::update_upload_status, (a, id, status, now), ()),
        call_ensures(Database::update_finalizing_progress, (b, id, percent, now), ()),
        call_ensures(Database::mark_finalization_complete, (c, id, text, now), ()),
        call_ensures(Database::mark_finalization_failed, (d, id, text, now), ()),
        call_ensures(Database::update_upload_final_path, (e, id, text, now), ()),
    ensures
        upload(old(a)@, id@) is None ==> final(a)@ == old(a)@,
        upload(old(b)@, id@) is None ==> final(b)@ == old(b)@,
        upload(old(c)@, id@) is None ==> final(c)@ == old(c)@,
        upload(old(d)@, id@) is None ==> final(d)@ == old(d)@,
        upload(old(e)@, id@) is None ==> final(e)@ == old(e)@,
{
}

/// A removed upload is gone with all its parts; every other upload and part is
/// found as before.
pub proof fn removed_uploads_are_gone(db: &mut Database, id: &str)
    requires
        old(db).wf(),
        call_ensures(Database::delete_upload, (db, id), ()),
    ensures
        final(db).wf(),
        upload(final(db)@, id@) is None,
        forall|number: i32| (#[trigger] part(final(db)@, id@, number)) is None,
        forall|other: Seq<char>|
            other != id@ ==> #[trigger] upload(final(db)@, other) == upload(old(db)@, other),
        forall|other: Seq<char>, number: i32|
            other != id@ ==> #[trigger] part(final(db)@, other, number) == part(
                old(db)@,
                other,
                number,
            ),
{
    removal_takes_the_upload_alone(old(db)@, id@);
}

// ---------------------------------------------------------------------------
// Parts
// ---------------------------------------------------------------------------
/// Asking for a part gives the row of the table that has its key, and 404 where
/// none has.
pub proof fn parts_are_found_by_key(
    db: &Database,
    id: &str,
    number: i32,
    outcome: Result<UploadPart, AppError>,
    i: int,
)
    requires
        db.wf(),
        call_ensures(Database::get_part, (db, id, number), outcome),
    ensures
        0 <= i < db@.parts.len() && db@.parts[i].upload_id == id@ && db@.parts[i].part_number
            == number ==> (outcome matches Ok(p) && p@ == db@.parts[i]),
        outcome matches Ok(p) ==> p.upload_id@ == id@ && p.part_number == number
            && db@.parts.contains(p@),
        outcome matches Err(e) ==> e@ is NotFound && e@->NotFound_0 == "Part "@ + decimal(
            number as int,
        ) + " not found for upload "@ + id@,
{
    lemma_part_with_key(db@.parts, id@, number);
    if 0 <= i < db@.parts.len() {
        lemma_part_found(db@.parts, i);
    }
}

/// New parts are added one after the other, behind all others, up to the first
/// whose key is taken or whose upload is unknown; that one is refused, and none is
/// where all are in order.
pub proof fn new_parts_are_added_in_order(
    db: &mut Database,
    new: &Vec<UploadPart>,
    outcome: Result<(), AppError>,
)
    requires
        old(db).wf(),
        call_ensures(Database::create_parts, (db, new), outcome),
    ensures
        final(db).wf(),
        final(db)@.uploads == old(db)@.uploads,
        old(db)@.parts.is_prefix_of(final(db)@.parts),
        ({
            let n = final(db)@.parts.len() - old(db)@.parts.len();
            &&& 0 <= n <= new@.len()
            &&& outcome is Ok == (n == new@.len())
            &&& forall|i: int|
                0 <= i < n ==> #[trigger] final(db)@.parts[old(db)@.parts.len() + i] == new@[i]@
            &&& outcome matches Err(e) ==> e@ is Database && (upload(
                final(db)@,
                new@[n].upload_id@,
            ) is None || exists|k: int|
                0 <= k < final(db)@.parts.len() && (#[trigger] final(db)@.parts[k]).upload_id
                    == new@[n].upload_id@ && final(db)@.parts[k].part_number
                    == new@[n].part_number)
        }),
{
    let rows = part_views(new@);
    let n = taken(old(db)@, rows, 0);
    let end = final(db)@;
    assert(end.parts.take(old(db)@.parts.len() as int) =~= old(db)@.parts);
    assert(end.parts.len() - old(db)@.parts.len() == n);
    assert forall|i: int| 0 <= i < n implies #[trigger] end.parts[old(db)@.parts.len() + i]
        == new@[i]@ by {
        assert(rows.take(n)[i] == rows[i]);
    }
    if outcome is Err {
        assert(rows[n] == new@[n]@);
        lemma_part_with_key(end.parts, rows[n].upload_id, rows[n].part_number);
    }
}

/// The rows of an upload's parts come by number, each of them once and no others.
pub proof fn all_parts_are_listed_by_number(db: &Database, id: &str, found: Vec<UploadPart>)
    requires
        db.wf(),
        call_ensures(Database::get_all_parts, (db, id), found),
    ensures
        forall|i: int, j: int|
            0 <= i < j < found@.len() ==> (#[trigger] found@[i]).part_number < (
            #[trigger] found@[j]).part_number,
        part_views(found@).to_multiset() == db@.parts.filter(
            |p: PartView| p.upload_id == id@,
        ).to_multiset(),
{
    lemma_parts_of(db@.parts, id@);
    let views = part_views(found@);
    assert forall|i: int, j: int| 0 <= i < j < found@.len() implies (
    #[trigger] found@[i]).part_number < (#[trigger] found@[j]).part_number by {
        assert(views[i].part_number < views[j].part_number);
    }
}

/// The parts of an upload are the rows that have its id.
pub proof fn lemma_parts_of(parts: Seq<PartView>, id: Seq<char>)
    ensures
        parts_of(parts, id) == parts.filter(|p: PartView| p.upload_id == id),
    decreases parts.len(),
{
    reveal(Seq::filter);
    if parts.len() > 0 {
        lemma_parts_of(parts.drop_last(), id);
    }
}

/// A part's status is set together with its checksum and the time; no other part
/// and no upload changes.
pub proof fn part_statuses_are_set(
    db: &mut Database,
    id: &str,
    number: i32,
    status: PartStatus,
    checksum: Option<&str>,
    now: i64,
    i: int,
)
    requires
        old(db).wf(),
        call_ensures(
            Database::update_part_status,
            (db, id, number, status, checksum, now),
            (),
        ),
        0 <= i < old(db)@.parts.len(),
        old(db)@.parts[i].upload_id == id@,
        old(db)@.parts[i].part_number == number,
    ensures
        final(db)@.uploads == old(db)@.uploads,
        final(db)@.parts.len() == old(db)@.parts.len(),
        forall|k: int|
            0 <= k < old(db)@.parts.len() && k != i ==> (#[trigger] final(db)@.parts[k])
                == old(db)@.parts[k],
        ({
            let p = old(db)@.parts[i];
            let q = final(db)@.parts[i];
            &&& q.upload_id == p.upload_id
            &&& q.part_number == p.part_number
            &&& q.token_hash == p.token_hash
            &&& q.size == p.size
            &&& q.status == status
            &&& q.checksum_sha256 == option_str_view(checksum)
            &&& q.uploaded_at == Some(now)
        }),
{
    let t = old(db)@;
    lemma_part_found(t.parts, i);
    let row = part_reached(t.parts[i], status, option_str_view(checksum), now);
    lemma_put_part(t, i, row);
}

/// All parts of an upload count as arrived exactly where as many rows have arrived
/// as the upload has parts.
pub proof fn all_parts_means_every_part(
    db: &Database,
    id: &str,
    outcome: Result<bool, AppError>,
)
    requires
        call_ensures(Database::all_parts_uploaded, (db, id), outcome),
    ensures
        upload(db@, id@) is None ==> (outcome matches Err(e) && e@ is NotFound),
        upload(db@, id@) matches Some(u) ==> arrived(db@.parts, id@) <= i32::MAX ==> (
        outcome matches Ok(all) && all == (arrived(db@.parts, id@) == u.total_parts)),
{
    uploaded_parts_are_the_arrived(db@.parts, id@);
}

// ---------------------------------------------------------------------------
// Housekeeping
// ---------------------------------------------------------------------------
/// The expired rows are those that are pending and past.
pub proof fn lemma_expired(uploads: Seq<UploadView>, now: i64)
    ensures
        expired_rows(uploads, now) == uploads.filter(
            |u: UploadView| u.status == UploadStatus::Pending && u.expires_at < now,
        ),
    decreases uploads.len(),
{
    reveal(Seq::filter);
    if uploads.len() > 0 {
        lemma_expired(uploads.drop_last(), now);
    }
}

/// The expired uploads are those that are still pending and whose second of expiry
/// lies before now, in the order of the table.
pub proof fn expired_uploads_are_pending_and_past(db: &Database, now: i64, found: Vec<Upload>)
    requires
        call_ensures(Database::list_expired_pending_uploads, (db, now), found),
    ensures
        upload_views(found@) == db@.uploads.filter(
            |u: UploadView| u.status == UploadStatus::Pending && u.expires_at < now,
        ),
{
    lemma_expired(db@.uploads, now);
}

proof fn lemma_finalizing(uploads: Seq<UploadView>)
    ensures
        finalizing_count(uploads) == uploads.filter(
            |u: UploadView| u.status == UploadStatus::Finalizing,
        ).len(),
    decreases uploads.len(),
{
    reveal(Seq::filter);
    if uploads.len() > 0 {
        lemma_finalizing(uploads.drop_last());
    }
}

/// When the service starts, every finalization that was under way has failed, with
/// the error it had or else with the restart as its error, and the number of them
/// is told. Every other upload, and every part, is as it was.
pub proof fn restarts_fail_what_was_under_way(
    db: &mut Database,
    now: i64,
    count: usize,
    i: int,
)
    requires
        call_ensures(Database::mark_stale_finalizing_failed_on_boot, (db, now), count),
        0 <= i < old(db)@.uploads.len(),
    ensures
        final(db)@.parts == old(db)@.parts,
        final(db)@.uploads.len() == old(db)@.uploads.len(),
        count == old(db)@.uploads.filter(
            |u: UploadView| u.status == UploadStatus::Finalizing,
        ).len(),
        ({
            let u = old(db)@.uploads[i];
            let v = final(db)@.uploads[i];
            if u.status == UploadStatus::Finalizing {
                &&& same_file(u, v)
                &&& v.status == UploadStatus::Failed
                &&& u.finalization_error is Some ==> v.finalization_error == u.finalization_error
                &&& u.finalization_error is None ==> v.finalization_error == Some(
                    "Server restarted during finalization"@,
                )
                &&& v.finalization_updated_at == Some(now)
                &&& v.updated_at == now
                &&& v.final_path == u.final_path
                &&& v.finalizing_progress_percent == u.finalizing_progress_percent
                &&& v.finalization_started_at == u.finalization_started_at
            } else {
                v == u
            }
        }),
{
    lemma_finalizing(old(db)@.uploads);
}

/// New tables are empty: no upload is known and no part.
pub proof fn new_tables_are_empty(db: Database, id: Seq<char>, number: i32)
    requires
        call_ensures(Database::new, (), db),
    ensures
        db.wf(),
        upload(db@, id) is None,
        part(db@, id, number) is None,
{
    lemma_row_with_id(db@.uploads, id);
    lemma_part_with_key(db@.parts, id, number);
}

/// Only the record of a success, or of a path itself, gives an upload a final path:
/// beginning, moving on, failing, being interrupted or being set to another status
/// leaves it without one where it had none.
pub proof fn only_successes_give_a_final_path(
    a: &mut Database,
    b: &mut Database,
    c: &mut Database,
    d: &mut Database,
    e: &mut Database,
    f: &mut Database,
    id: &str,
    status: UploadStatus,
    percent: i32,
    text: &str,
    threshold: i64,
    now: i64,
    begun: (bool, bool),
    count: usize,
)
    requires
        old(a).wf(),
        *old(b) == *old(a),
        *old(c) == *old(a),
        *old(d) == *old(a),
        *old(e) == *old(a),
        *old(f) == *old(a),
        call_ensures(Database::update_upload_status, (a, id, status, now), ()),
        call_ensures(Database::try_start_finalization, (b, id, now), begun.0),
        call_ensures(Database::restart_stale_finalization, (c, id, threshold, now), begun.1),
        call_ensures(Database::update_finalizing_progress, (d, id, percent, now), ()),
        call_ensures(Database::mark_finalization_failed, (e, id, text, now), ()),
        call_ensures(Database::mark_stale_finalizing_failed_on_boot, (f, now), count),
        upload(old(a)@, id@) matches Some(u) && u.final_path is None,
    ensures
        upload(final(a)@, id@) matches Some(v) && v.final_path is None,
        upload(final(b)@, id@) matches Some(v) && v.final_path is None,
        upload(final(c)@, id@) matches Some(v) && v.final_path is None,
        upload(final(d)@, id@) matches Some(v) && v.final_path is None,
        upload(final(e)@, id@) matches Some(v) && v.final_path is None,
        upload(final(f)@, id@) matches Some(v) && v.final_path is None,
{
    statuses_are_set(a, id, status, now);
    finalization_begins_once(b, id, now, begun.0);
    only_dead_finalizations_begin_again(c, id, threshold, now, begun.1);
    progress_is_recorded(d, id, percent, now);
    failures_are_recorded(e, id, text, now);
    restart_keeps_the_keys(old(f)@, now);
}

} // verus!
