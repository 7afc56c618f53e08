//! How the row of an upload changes over its life.
use crate::db::schema::{PartStatus, PartView, UploadStatus, UploadView};
use vstd::prelude::*;

verus! {

/// The row with another status.
pub open spec fn with_status(u: UploadView, status: UploadStatus, now: i64) -> UploadView {
    UploadView { status, updated_at: now, ..u }
}

/// Finalization may begin: the upload is pending, or an earlier attempt failed.
pub open spec fn may_start(u: UploadView) -> bool {
    u.status == UploadStatus::Pending || u.status == UploadStatus::Failed
}

/// The row when finalization begins.
pub open spec fn started(u: UploadView, now: i64) -> UploadView {
    UploadView {
        status: UploadStatus::Finalizing,
        finalization_started_at: Some(now),
        finalization_updated_at: Some(now),
        finalization_error: None,
        finalizing_progress_percent: 0,
        updated_at: now,
        ..u
    }
}

/// Finalization is under way and has not moved for more than `threshold`
/// seconds.
pub open spec fn is_stale(u: UploadView, now: i64, threshold: i64) -> bool {
    &&& u.status == UploadStatus::Finalizing
    &&& u.finalization_updated_at matches Some(at) && at < now - threshold
}

/// The row when a stale finalization begins again.
pub open spec fn restarted(u: UploadView, now: i64) -> UploadView {
    UploadView {
        finalization_started_at: Some(now),
        finalization_updated_at: Some(now),
        finalization_error: None,
        finalizing_progress_percent: 0,
        updated_at: now,
        ..u
    }
}

/// `percent`, brought into the range from 0 to 100.
pub open spec fn clamped(percent: i32) -> i32 {
    if percent < 0 {
        0
    } else if percent > 100 {
        100
    } else {
        percent
    }
}

/// The row when finalization has come this far.
pub open spec fn progressed(u: UploadView, percent: i32, now: i64) -> UploadView {
    UploadView {
        finalizing_progress_percent: clamped(percent),
        finalization_updated_at: Some(now),
        updated_at: now,
        ..u
    }
}

/// The row when finalization has succeeded.
pub open spec fn completed(u: UploadView, final_path: Seq<char>, now: i64) -> UploadView {
    UploadView {
        status: UploadStatus::Complete,
        final_path: Some(final_path),
        finalizing_progress_percent: 100,
        finalization_error: None,
        finalization_updated_at: Some(now),
        updated_at: now,
        ..u
    }
}

/// The row when finalization has failed.
pub open spec fn failed(u: UploadView, error: Seq<char>, now: i64) -> UploadView {
    UploadView {
        status: UploadStatus::Failed,
        finalization_error: Some(error),
        finalization_updated_at: Some(now),
        updated_at: now,
        ..u
    }
}

/// The row with a final path.
pub open spec fn with_final_path(u: UploadView, final_path: Seq<char>, now: i64) -> UploadView {
    UploadView { final_path: Some(final_path), updated_at: now, ..u }
}

/// The row of a part that has reached a status.
pub open spec fn part_reached(
    p: PartView,
    status: PartStatus,
    checksum: Option<Seq<char>>,
    now: i64,
) -> PartView {
    PartView { status, uploaded_at: Some(now), checksum_sha256: checksum, ..p }
}

/// The row after a restart of the service: a finalization that was under way has
/// failed, with the error it had or else with the restart as its error.
pub open spec fn after_restart(u: UploadView, now: i64) -> UploadView {
    if u.status == UploadStatus::Finalizing {
        UploadView {
            status: UploadStatus::Failed,
            finalization_error: match u.finalization_error {
                Some(e) => Some(e),
                None => Some("Server restarted during finalization"@),
            },
            finalization_updated_at: Some(now),
            updated_at: now,
            ..u
        }
    } else {
        u
    }
}

} // verus!
