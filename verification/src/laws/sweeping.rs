//! What becomes of uploads whose time has passed.
use crate::clock::LATEST;
use crate::db::Database;
use crate::db::schema::{Upload, UploadStatus, UploadView};
use crate::db::tables::{
    expired_rows, keys_hold, part, removal_takes_the_upload_alone, upload, Tables,
};
use crate::laws::records::lemma_expired;
use crate::services::cleanup::{
    cleanup_forgets_exactly_the_expired, without_rows, CleanupPass, PassView, CLEANUP_INTERVAL_SECS,
};
use vstd::prelude::*;

verus! {

/// A pass goes over the uploads that are pending and whose second of expiry lies
/// before the time at which it begins, in the order of the table.
pub proof fn passes_go_over_the_expired(db: &Database, at: i64, pass: CleanupPass)
    requires
        call_ensures(CleanupPass::begin_at, (db, at), pass),
    ensures
        pass@.done == 0,
        pass@.uploads == db@.uploads.filter(
            |u: UploadView| u.status == UploadStatus::Pending && u.expires_at < at,
        ),
{
    lemma_expired(db@.uploads, at);
}

/// A pass takes its uploads one by one: the next is the first that is not
/// forgotten yet, and there is none exactly when all are.
pub proof fn passes_go_on_to_the_end(pass: &CleanupPass, row: Option<Upload>)
    requires
        pass.wf(),
        call_ensures(CleanupPass::next, (pass,), row),
    ensures
        row is Some == (pass@.done < pass@.uploads.len()),
        row matches Some(u) ==> u@ == pass@.uploads[pass@.done],
{
}

/// Forgetting the next upload of a pass removes it with its parts and nothing
/// else, and moves the pass on by one.
pub proof fn forgetting_removes_the_next(pass: &mut CleanupPass, db: &mut Database)
    requires
        old(db).wf(),
        call_ensures(CleanupPass::forget, (pass, db), ()),
        0 <= old(pass)@.done < old(pass)@.uploads.len(),
    ensures
        final(pass)@.uploads == old(pass)@.uploads,
        final(pass)@.done == old(pass)@.done + 1,
        ({
            let id = old(pass)@.uploads[old(pass)@.done].id;
            &&& upload(final(db)@, id) is None
            &&& forall|number: i32| (#[trigger] part(final(db)@, id, number)) is None
            &&& forall|other: Seq<char>|
                other != id ==> #[trigger] upload(final(db)@, other) == upload(old(db)@, other)
            &&& forall|other: Seq<char>, number: i32|
                other != id ==> #[trigger] part(final(db)@, other, number) == part(
                    old(db)@,
                    other,
                    number,
                )
        }),
{
    removal_takes_the_upload_alone(old(db)@, old(pass)@.uploads[old(pass)@.done].id);
}

/// A whole pass forgets an upload exactly where it was pending and its second of
/// expiry lay before the pass began. An upload that is being finalized, complete
/// or failed is kept whatever its time, and so is a pending one whose time has not
/// passed.
pub proof fn sweeping_takes_pending_uploads_alone(t: Tables, at: i64, id: Seq<char>)
    requires
        keys_hold(t),
    ensures
        ({
            let rows = expired_rows(t.uploads, at);
            let end = without_rows(t, rows, rows.len() as int);
            match upload(t, id) {
                None => upload(end, id) is None,
                Some(u) => if u.status == UploadStatus::Pending && u.expires_at < at {
                    &&& upload(end, id) is None
                    &&& forall|number: i32| (#[trigger] part(end, id, number)) is None
                } else {
                    &&& upload(end, id) == Some(u)
                    &&& forall|number: i32| #[trigger] part(end, id, number) == part(t, id, number)
                },
            }
        }),
{
    cleanup_forgets_exactly_the_expired(t, at);
}

/// There is a pass every hour.
pub proof fn sweeping_is_hourly()
    ensures
        CLEANUP_INTERVAL_SECS == 60 * 60,
{
}

/// A pass that begins now goes over pending uploads alone, all of them in the table
/// and all of them past their second of expiry at some time up to now.
pub proof fn passes_begin_with_pending_uploads(db: &Database, pass: CleanupPass, i: int)
    requires
        call_ensures(CleanupPass::begin, (db,), pass),
        0 <= i < pass@.uploads.len(),
    ensures
        pass@.done == 0,
        pass@.uploads[i].status == UploadStatus::Pending,
        pass@.uploads[i].expires_at < LATEST,
        db@.uploads.contains(pass@.uploads[i]),
{
    let at = choose|at: i64|
        0 <= at <= LATEST && pass@ == (PassView {
            uploads: #[trigger] expired_rows(db@.uploads, at),
            done: 0,
        });
    lemma_expired(db@.uploads, at);
    let is_past = |u: UploadView| u.status == UploadStatus::Pending && u.expires_at < at;
    db@.uploads.lemma_filter_pred(is_past, i);
    db@.uploads.lemma_filter_contains_rev(is_past, pass@.uploads[i]);
}

} // verus!
