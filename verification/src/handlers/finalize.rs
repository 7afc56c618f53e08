//! The work that a completion request starts.
//!
//! The rows of the parts are checked one by one, then the storage backend checks
//! the parts themselves and puts the file together. What the backend answers is
//! handed to the functions here, which record it and say what comes next.
use crate::clock::{rfc3339, rfc3339_text, Instant, LATEST};
use crate::db::lifecycle::{completed, failed, progressed};
use crate::db::repository::{part_views, upload_not_found};
use crate::db::schema::{PartStatus, PartView, Upload, UploadPart, UploadView};
use crate::db::tables::{put, sorted_parts, upload, Tables};
use crate::db::Database;
use crate::decimal::{decimal, push_decimal};
use crate::error::{message_of, AppError};
use vstd::prelude::*;

verus! {

/// What is sent to the client's webhook when an upload is complete.
#[derive(Debug)]
pub struct WebhookPayload {
    pub event: String,
    pub file_id: String,
    pub filename: String,
    pub total_size: i64,
    pub final_path: String,
    pub storage_backend: String,
    pub completed_at: String,
}

/// A payload and where to send it.
#[derive(Debug)]
pub struct Webhook {
    pub url: String,
    pub payload: WebhookPayload,
}

/// A finalization under way.
#[derive(Debug)]
pub struct Finalization {
    upload: Upload,
    parts: Vec<UploadPart>,
    checked: usize,
    ready: bool,
}

/// A [`Finalization`] with its rows as views: the first `checked` parts were
/// found to have arrived, and `ready` says that the backend found them in order.
#[verifier::ext_equal]
pub struct FinalizationView {
    pub upload: UploadView,
    pub parts: Seq<PartView>,
    pub checked: int,
    pub ready: bool,
}

impl View for Finalization {
    type V = FinalizationView;

    closed spec fn view(&self) -> FinalizationView {
        FinalizationView {
            upload: self.upload@,
            parts: part_views(self.parts@),
            checked: self.checked as int,
            ready: self.ready,
        }
    }
}

/// What came of the check of one part.
#[derive(Debug, Clone, Copy, PartialEq, Eq, Structural)]
pub enum PartCheck {
    /// The part has arrived; there may be more.
    Arrived,
    /// There are no more parts; the backend is to check and store.
    AllArrived,
    /// The part has not arrived, and the finalization has failed.
    Missing,
}

/// The progress when `checked` of `total` parts were checked.
pub open spec fn part_progress(checked: int, total: int) -> int {
    1 + (checked * 89) / (if total > 1 {
        total
    } else {
        1
    })
}

/// The message about a part that has not arrived.
pub open spec fn missing_part_text(number: i32) -> Seq<char> {
    "Finalization verification failed: part "@ + decimal(number as int) + " is not uploaded"@
}

/// The tables with `change` made to the upload, where there is one.
pub open spec fn noted(t: Tables, id: Seq<char>, change: spec_fn(UploadView) -> UploadView) -> Tables {
    match upload(t, id) {
        Some(u) => put(t, change(u)),
        None => t,
    }
}

/// The tables with a new progress of the upload.
pub open spec fn with_progress(t: Tables, id: Seq<char>, percent: i32, at: i64) -> Tables {
    noted(t, id, |u: UploadView| progressed(u, percent, at))
}

/// The tables with the upload failed.
pub open spec fn with_failure(t: Tables, id: Seq<char>, message: Seq<char>, at: i64) -> Tables {
    noted(t, id, |u: UploadView| failed(u, message, at))
}

/// The tables with the upload complete.
pub open spec fn with_completion(t: Tables, id: Seq<char>, path: Seq<char>, at: i64) -> Tables {
    noted(t, id, |u: UploadView| completed(u, path, at))
}

/// `hook` is what is to be sent when `u` was completed.
pub open spec fn announces(
    hook: Option<Webhook>,
    u: UploadView,
    final_path: Seq<char>,
    at: Instant,
) -> bool {
    match u.webhook_url {
        None => hook is None,
        Some(url) => hook matches Some(h) && {
            &&& h.url@ == url
            &&& h.payload.event@ == "upload.complete"@
            &&& h.payload.file_id@ == u.id
            &&& h.payload.filename@ == u.filename
            &&& h.payload.total_size == u.total_size
            &&& h.payload.final_path@ == final_path
            &&& h.payload.storage_backend@ == u.storage_backend
            &&& h.payload.completed_at@ == rfc3339_text(at.seconds, at.nanos)
        },
    }
}

impl Finalization {
    /// The checked parts are parts of the upload and have arrived, and the backend
    /// was asked after all of them were checked.
    pub open spec fn wf(&self) -> bool {
        &&& self@.ready ==> self.all_checked()
        &&& 0 <= self@.checked <= self@.parts.len()
        &&& forall|i: int|
            0 <= i < self@.checked ==> (#[trigger] self@.parts[i]).status == PartStatus::Uploaded
    }

    /// Every part was checked.
    pub open spec fn all_checked(&self) -> bool {
        self@.checked == self@.parts.len()
    }

    /// Loads the upload and its parts, and records that the work has begun.
    pub fn begin(db: &mut Database, upload_id: &str, at: i64) -> (outcome: Result<
        Finalization,
        AppError,
    >)
        requires
            old(db).wf(),
        ensures
            final(db).wf(),
            match outcome {
                Ok(work) => {
                    &&& work.wf()
                    &&& Some(work@.upload) == upload(old(db)@, upload_id@)
                    &&& work@.parts == sorted_parts(old(db)@, upload_id@)
                    &&& work@.checked == 0
                    &&& !work@.ready
                    &&& final(db)@ == with_progress(old(db)@, upload_id@, 1, at)
                },
                Err(e) => upload(old(db)@, upload_id@) is None && final(db)@ == old(db)@ && e@
                    == upload_not_found(upload_id@),
            },
    {
        let row: Upload = match db.get_upload(upload_id) {
            Ok(row) => row,
            Err(e) => return Err(e),
        };
        db.update_finalizing_progress(upload_id, 1, at);
        let parts: Vec<UploadPart> = db.get_all_parts(upload_id);
        Ok(Finalization { upload: row, parts, checked: 0, ready: false })
    }

    /// Records that the parts of an upload could not be loaded, with which its
    /// finalization has failed.
    pub fn parts_unavailable(db: &mut Database, upload_id: &str, error: &str, at: i64)
        requires
            old(db).wf(),
        ensures
            final(db).wf(),
            final(db)@ == with_failure(
                old(db)@,
                upload_id@,
                "Failed to load parts: "@ + error@,
                at,
            ),
    {
        let mut message: String = "Failed to load parts: ".to_owned();
        message.append(error);
        db.mark_finalization_failed(upload_id, message.as_str(), at);
    }

    /// The upload as it was when the work began.
    pub fn upload(&self) -> (row: Upload)
        ensures
            row@ == self@.upload,
    {
        self.upload.clone()
    }

    /// The number of parts.
    pub fn part_count(&self) -> (count: usize)
        ensures
            count == self@.parts.len(),
    {
        self.parts.len()
    }

    /// Checks the next part and records the progress, or the failure where the
    /// part has not arrived.
    pub fn check_part(&mut self, db: &mut Database, at: i64) -> (outcome: PartCheck)
        requires
            old(self).wf(),
            old(db).wf(),
            old(self)@.parts.len() * 89 <= i32::MAX,
        ensures
            final(self).wf(),
            final(db).wf(),
            final(self)@.upload == old(self)@.upload,
            final(self)@.parts == old(self)@.parts,
            final(self)@.ready == old(self)@.ready,
            ({
                let i = old(self)@.checked;
                let id = old(self)@.upload.id;
                if i == old(self)@.parts.len() {
                    &&& outcome == PartCheck::AllArrived
                    &&& final(self)@.checked == i
                    &&& final(db)@ == old(db)@
                } else if old(self)@.parts[i].status != PartStatus::Uploaded {
                    &&& outcome == PartCheck::Missing
                    &&& final(self)@.checked == i
                    &&& final(db)@ == with_failure(
                        old(db)@,
                        id,
                        missing_part_text(old(self)@.parts[i].part_number),
                        at,
                    )
                } else {
                    &&& outcome == PartCheck::Arrived
                    &&& final(self)@.checked == i + 1
                    &&& final(db)@ == with_progress(
                        old(db)@,
                        id,
                        part_progress(i + 1, old(self)@.parts.len() as int) as i32,
                        at,
                    )
                }
            }),
    {
        if self.checked == self.parts.len() {
            return PartCheck::AllArrived;
        }
        let ghost before = self@;
        let i: usize = self.checked;
        assert(before.parts[i as int] == self.parts@[i as int]@);
        if self.parts[i].status != PartStatus::Uploaded {
            let mut message: String = "Finalization verification failed: part ".to_owned();
            push_decimal(&mut message, self.parts[i].part_number as i64);
            message.append(" is not uploaded");
            db.mark_finalization_failed(self.upload.id.as_str(), message.as_str(), at);
            return PartCheck::Missing;
        }
        let total: usize = self.parts.len();
        let done: i32 = (i + 1) as i32;
        proof {
            progress_stays_in_range(done as int, total as int);
        }
        let progress: i32 = 1 + ((done * 89) / (total as i32));
        db.update_finalizing_progress(self.upload.id.as_str(), progress, at);
        self.checked = i + 1;
        assert(self@.parts =~= before.parts);
        PartCheck::Arrived
    }

    /// Records what the backend says of the parts, and whether the file is now
    /// to be put together.
    pub fn verified(&mut self, db: &mut Database, verdict: Result<(), AppError>, at: i64) -> (
    proceed: bool)
        requires
            old(self).wf(),
            old(self).all_checked(),
            old(db).wf(),
        ensures
            final(self).wf(),
            final(db).wf(),
            proceed == verdict is Ok,
            final(self)@ == (FinalizationView { ready: verdict is Ok, ..old(self)@ }),
            final(db)@ == match verdict {
                Ok(()) => with_progress(old(db)@, old(self)@.upload.id, 95, at),
                Err(e) => with_failure(
                    old(db)@,
                    old(self)@.upload.id,
                    "Finalization verification failed: "@ + message_of(e@),
                    at,
                ),
            },
    {
        self.ready = verdict.is_ok();
        match verdict {
            Ok(()) => {
                db.update_finalizing_progress(self.upload.id.as_str(), 95, at);
                true
            },
            Err(e) => {
                let mut message: String = "Finalization verification failed: ".to_owned();
                let reason: String = e.message();
                message.append(reason.as_str());
                db.mark_finalization_failed(self.upload.id.as_str(), message.as_str(), at);
                false
            },
        }
    }

    /// Records what came of putting the file together, which is done only where
    /// the backend found the parts in order. Where it succeeded, the client's
    /// webhook is to be told.
    pub fn stored(&self, db: &mut Database, result: Result<String, AppError>, at: Instant) -> (hook:
        Option<Webhook>)
        requires
            self.wf(),
            self@.ready,
            old(db).wf(),
            0 <= at.seconds <= LATEST,
            at.nanos < 1_000_000_000,
        ensures
            final(db).wf(),
            match result {
                Ok(path) => {
                    &&& final(db)@ == with_completion(
                        old(db)@,
                        self@.upload.id,
                        path@,
                        at.seconds,
                    )
                    &&& announces(hook, self@.upload, path@, at)
                },
                Err(e) => {
                    &&& final(db)@ == with_failure(
                        old(db)@,
                        self@.upload.id,
                        "Finalization failed: "@ + message_of(e@),
                        at.seconds,
                    )
                    &&& hook is None
                },
            },
    {
        let path: String = match result {
            Ok(path) => path,
            Err(e) => {
                let mut message: String = "Finalization failed: ".to_owned();
                let reason: String = e.message();
                message.append(reason.as_str());
                db.mark_finalization_failed(self.upload.id.as_str(), message.as_str(), at.seconds);
                return None;
            },
        };
        db.mark_finalization_complete(self.upload.id.as_str(), path.as_str(), at.seconds);
        let url: String = match &self.upload.webhook_url {
            Some(url) => url.clone(),
            None => return None,
        };
        let completed_at: String = match rfc3339(at.seconds, at.nanos) {
            Some(text) => text,
            None => String::new(),
        };
        Some(
            Webhook {
                url,
                payload: WebhookPayload {
                    event: "upload.complete".to_owned(),
                    file_id: self.upload.id.clone(),
                    filename: self.upload.filename.clone(),
                    total_size: self.upload.total_size,
                    final_path: path,
                    storage_backend: self.upload.storage_backend.clone(),
                    completed_at,
                },
            },
        )
    }
}

/// While the parts are checked, the progress lies from 1 to 90.
pub proof fn progress_stays_in_range(checked: int, total: int)
    requires
        0 <= checked <= total,
    ensures
        1 <= part_progress(checked, total) <= 90,
{
    let n = if total > 1 {
        total
    } else {
        1
    };
    assert(0 <= (checked * 89) / n <= 89) by (nonlinear_arith)
        requires
            0 <= checked <= n,
            n > 0,
    ;
}

/// Checking more parts never lowers the progress, and checking all of at least
/// one brings it to 90.
pub proof fn progress_grows(a: int, b: int, total: int)
    requires
        0 <= a <= b <= total,
    ensures
        part_progress(a, total) <= part_progress(b, total),
        total > 0 ==> part_progress(total, total) == 90,
{
    let n = if total > 1 {
        total
    } else {
        1
    };
    assert((a * 89) / n <= (b * 89) / n) by (nonlinear_arith)
        requires
            0 <= a <= b,
            n > 0,
    ;
    if total > 0 {
        assert((total * 89) / n == 89) by (nonlinear_arith)
            requires
                total == n,
                n > 0,
        ;
    }
}

} // verus!
