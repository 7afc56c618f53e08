//! Forgetting uploads that were never completed and whose time has passed.
use crate::clock::{now, Instant, LATEST};
use crate::db::repository::upload_views;
use crate::db::schema::{Upload, UploadView};
use crate::db::tables::{
    expired_rows, is_expired, keys_hold, lemma_row_found, lemma_row_with_id, part,
    removal_takes_the_upload_alone, upload, without_upload, Tables,
};
use crate::db::Database;
use vstd::prelude::*;

verus! {

/// How many seconds lie between two passes.
pub const CLEANUP_INTERVAL_SECS: u64 = 3600;

/// One pass over the expired uploads. The files of each are removed and then its
/// rows; that files could not be removed does not keep the rows.
#[derive(Debug)]
pub struct CleanupPass {
    uploads: Vec<Upload>,
    done: usize,
}

/// A [`CleanupPass`] with its rows as views: the first `done` uploads are
/// forgotten.
#[verifier::ext_equal]
pub struct PassView {
    pub uploads: Seq<UploadView>,
    pub done: int,
}

impl View for CleanupPass {
    type V = PassView;

    closed spec fn view(&self) -> PassView {
        PassView { uploads: upload_views(self.uploads@), done: self.done as int }
    }
}

/// The tables without the first `n` of `rows`.
pub open spec fn without_rows(t: Tables, rows: Seq<UploadView>, n: int) -> Tables
    decreases n,
{
    if n <= 0 {
        t
    } else {
        without_upload(without_rows(t, rows, n - 1), rows[n - 1].id)
    }
}

impl CleanupPass {
    /// The pass has not gone past the last upload.
    pub open spec fn wf(&self) -> bool {
        0 <= self@.done <= self@.uploads.len()
    }

    /// Begins a pass over the uploads that are expired at the given time.
    pub fn begin_at(db: &Database, at: i64) -> (pass: CleanupPass)
        ensures
            pass.wf(),
            pass@ == (PassView { uploads: expired_rows(db@.uploads, at), done: 0 }),
    {
        CleanupPass { uploads: db.list_expired_pending_uploads(at), done: 0 }
    }

    /// Begins a pass over the uploads that are expired now.
    pub fn begin(db: &Database) -> (pass: CleanupPass)
        ensures
            pass.wf(),
            exists|at: i64|
                0 <= at <= LATEST && pass@ == (PassView {
                    uploads: #[trigger] expired_rows(db@.uploads, at),
                    done: 0,
                }),
    {
        let at: Instant = now();
        CleanupPass::begin_at(db, at.seconds)
    }

    /// The upload whose files are to be removed next.
    pub fn next(&self) -> (row: Option<Upload>)
        requires
            self.wf(),
        ensures
            match row {
                Some(u) => self@.done < self@.uploads.len() && u@ == self@.uploads[self@.done],
                None => self@.done == self@.uploads.len(),
            },
    {
        if self.done < self.uploads.len() {
            assert(self@.uploads[self.done as int] == self.uploads@[self.done as int]@);
            Some(self.uploads[self.done].clone())
        } else {
            None
        }
    }

    /// Forgets the upload whose files were removed.
    pub fn forget(&mut self, db: &mut Database)
        requires
            old(self).wf(),
            old(self)@.done < old(self)@.uploads.len(),
            old(db).wf(),
        ensures
            final(self).wf(),
            final(db).wf(),
            final(self)@ == (PassView { done: old(self)@.done + 1, ..old(self)@ }),
            final(db)@ == without_upload(old(db)@, old(self)@.uploads[old(self)@.done].id),
    {
        let ghost before = self@;
        assert(before.uploads[self.done as int] == self.uploads@[self.done as int]@);
        assert(self.done < self.uploads.len());
        db.delete_upload(self.uploads[self.done].id.as_str());
        self.done = self.done + 1;
        assert(self@ =~= PassView { done: before.done + 1, ..before });
    }
}

proof fn lemma_expired_rows(uploads: Seq<UploadView>, at: i64)
    ensures
        forall|i: int|
            0 <= i < expired_rows(uploads, at).len() ==> is_expired(
                #[trigger] expired_rows(uploads, at)[i],
                at,
            ) && uploads.contains(expired_rows(uploads, at)[i]),
        forall|i: int|
            0 <= i < uploads.len() && is_expired(#[trigger] uploads[i], at) ==> expired_rows(
                uploads,
                at,
            ).contains(uploads[i]),
    decreases uploads.len(),
{
    if uploads.len() > 0 {
        let front = uploads.drop_last();
        let head = expired_rows(front, at);
        let all = expired_rows(uploads, at);
        lemma_expired_rows(front, at);
        assert forall|i: int| 0 <= i < all.len() implies is_expired(#[trigger] all[i], at)
            && uploads.contains(all[i]) by {
            if i < head.len() {
                assert(all[i] == head[i]);
                let k = choose|k: int| 0 <= k < front.len() && front[k] == head[i];
                assert(uploads[k] == all[i]);
            } else {
                assert(uploads[uploads.len() - 1] == all[i]);
            }
        }
        assert forall|i: int| 0 <= i < uploads.len() && is_expired(
            #[trigger] uploads[i],
            at,
        ) implies all.contains(uploads[i]) by {
            if i < front.len() {
                assert(front[i] == uploads[i]);
                let k = choose|k: int| 0 <= k < head.len() && head[k] == front[i];
                assert(all[k] == uploads[i]);
            } else {
                assert(all[all.len() - 1] == uploads[i]);
            }
        }
    }
}

/// One of the first `n` rows has this id.
pub open spec fn has_id(rows: Seq<UploadView>, n: int, id: Seq<char>) -> bool {
    exists|i: int| 0 <= i < n && (#[trigger] rows[i]).id == id
}

proof fn lemma_without_rows(t: Tables, rows: Seq<UploadView>, n: int)
    requires
        keys_hold(t),
        0 <= n <= rows.len(),
    ensures
        keys_hold(without_rows(t, rows, n)),
        forall|id: Seq<char>| #[trigger]
            upload(without_rows(t, rows, n), id) == if has_id(rows, n, id) {
                None
            } else {
                upload(t, id)
            },
        forall|id: Seq<char>, number: i32| #[trigger]
            part(without_rows(t, rows, n), id, number) == if has_id(rows, n, id) {
                None
            } else {
                part(t, id, number)
            },
    decreases n,
{
    if n > 0 {
        lemma_without_rows(t, rows, n - 1);
        let before = without_rows(t, rows, n - 1);
        let gone = rows[n - 1].id;
        let after = without_rows(t, rows, n);
        removal_takes_the_upload_alone(before, gone);
        assert forall|id: Seq<char>| has_id(rows, n, id) == (has_id(rows, n - 1, id) || id
            == gone) by {
            if has_id(rows, n, id) {
                let i = choose|i: int| 0 <= i < n && (#[trigger] rows[i]).id == id;
                if i < n - 1 {
                    assert(rows[i].id == id);
                }
            }
            if has_id(rows, n - 1, id) {
                let i = choose|i: int| 0 <= i < n - 1 && (#[trigger] rows[i]).id == id;
                assert(rows[i].id == id);
            }
        }
        assert forall|id: Seq<char>| #[trigger] upload(after, id) == if has_id(rows, n, id) {
            None
        } else {
            upload(t, id)
        } by {
            if id != gone {
                assert(upload(after, id) == upload(before, id));
            }
        }
        assert forall|id: Seq<char>, number: i32| #[trigger] part(after, id, number)
            == if has_id(rows, n, id) {
            None
        } else {
            part(t, id, number)
        } by {
            if id != gone {
                assert(part(after, id, number) == part(before, id, number));
            }
        }
    }
}

/// A whole pass forgets exactly the uploads that were pending and expired, with
/// their parts, and leaves every other upload and every other part as it was.
pub proof fn cleanup_forgets_exactly_the_expired(t: Tables, at: i64)
    requires
        keys_hold(t),
    ensures
        ({
            let rows = expired_rows(t.uploads, at);
            let end = without_rows(t, rows, rows.len() as int);
            &&& keys_hold(end)
            &&& forall|id: Seq<char>| #[trigger]
                upload(end, id) == match upload(t, id) {
                    Some(u) => if is_expired(u, at) {
                        None
                    } else {
                        Some(u)
                    },
                    None => None,
                }
            &&& forall|id: Seq<char>, number: i32| #[trigger]
                part(end, id, number) == if upload(t, id) matches Some(u) && is_expired(u, at) {
                    None
                } else {
                    part(t, id, number)
                }
        }),
{
    let rows = expired_rows(t.uploads, at);
    let n = rows.len() as int;
    lemma_expired_rows(t.uploads, at);
    lemma_without_rows(t, rows, n);
    assert forall|id: Seq<char>| has_id(rows, n, id) == (upload(t, id) matches Some(u)
        && is_expired(u, at)) by {
        lemma_row_with_id(t.uploads, id);
        if has_id(rows, n, id) {
            let i = choose|i: int| 0 <= i < n && (#[trigger] rows[i]).id == id;
            assert(t.uploads.contains(rows[i]));
            let k = choose|k: int| 0 <= k < t.uploads.len() && t.uploads[k] == rows[i];
            lemma_row_found(t.uploads, k);
        }
        if upload(t, id) matches Some(u) && is_expired(u, at) {
            let u = upload(t, id)->0;
            let k = choose|k: int| 0 <= k < t.uploads.len() && t.uploads[k] == u;
            assert(rows.contains(t.uploads[k]));
            let i = choose|i: int| 0 <= i < rows.len() && rows[i] == u;
            assert(rows[i].id == id);
        }
    }
    let end = without_rows(t, rows, n);
    assert forall|id: Seq<char>| #[trigger] upload(end, id) == match upload(t, id) {
        Some(u) => if is_expired(u, at) {
            None
        } else {
            Some(u)
        },
        None => None,
    } by {
        assert(has_id(rows, n, id) == (upload(t, id) matches Some(u) && is_expired(u, at)));
    }
    assert forall|id: Seq<char>, number: i32| #[trigger] part(end, id, number) == if upload(
        t,
        id,
    ) matches Some(u) && is_expired(u, at) {
        None
    } else {
        part(t, id, number)
    } by {
        assert(has_id(rows, n, id) == (upload(t, id) matches Some(u) && is_expired(u, at)));
    }
}

} // verus!
