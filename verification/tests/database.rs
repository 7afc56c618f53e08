use chunked_uploader::db::schema::{PartStatus, Upload, UploadPart, UploadStatus};
use chunked_uploader::db::Database;

fn upload(id: &str, status: UploadStatus, expires_at: i64) -> Upload {
    Upload {
        id: id.to_string(),
        filename: "clip.mp4".to_string(),
        total_size: 11,
        chunk_size: 6,
        total_parts: 2,
        status,
        storage_backend: "local".to_string(),
        target_path: Some("sermons/2026".to_string()),
        final_path: None,
        checksum_sha256: None,
        webhook_url: Some("https://example.com/hook".to_string()),
        finalization_started_at: None,
        finalization_updated_at: None,
        finalization_error: None,
        finalizing_progress_percent: 0,
        created_at: 100,
        updated_at: 100,
        expires_at,
    }
}

fn part(id: &str, number: i32) -> UploadPart {
    UploadPart {
        upload_id: id.to_string(),
        part_number: number,
        token_hash: format!("hash-{number}"),
        status: PartStatus::Pending,
        size: 6,
        checksum_sha256: None,
        uploaded_at: None,
    }
}

fn sample() -> Database {
    let mut db = Database::new();
    db.create_upload(&upload("a", UploadStatus::Pending, 1000)).unwrap();
    db.create_upload(&upload("b", UploadStatus::Complete, 1000)).unwrap();
    db.create_parts(&vec![part("a", 1), part("b", 0), part("a", 0)]).unwrap();
    db
}

#[test]
fn statuses_are_written_and_read_back() {
    for status in [
        UploadStatus::Pending,
        UploadStatus::Finalizing,
        UploadStatus::Complete,
        UploadStatus::Failed,
    ] {
        assert_eq!(UploadStatus::from(status.to_string()), status);
    }
    assert_eq!(UploadStatus::Finalizing.to_string(), "finalizing");
    assert_eq!(UploadStatus::from("COMPLETE".to_string()), UploadStatus::Complete);
    assert_eq!(UploadStatus::from("Failed".to_string()), UploadStatus::Failed);
    assert_eq!(UploadStatus::from("nonsense".to_string()), UploadStatus::Pending);
    for status in [PartStatus::Pending, PartStatus::Uploaded] {
        assert_eq!(PartStatus::from(status.to_string()), status);
    }
    assert_eq!(PartStatus::from("UPLOADED".to_string()), PartStatus::Uploaded);
    assert_eq!(PartStatus::from("".to_string()), PartStatus::Pending);
}

#[test]
fn created_uploads_are_found() {
    let db = sample();
    let row = db.get_upload("a").unwrap();
    assert_eq!(row.id, "a");
    assert_eq!(row.filename, "clip.mp4");
    assert_eq!(row.target_path.as_deref(), Some("sermons/2026"));
    assert_eq!(row.status, UploadStatus::Pending);
    let missing = db.get_upload("c").unwrap_err();
    assert_eq!(missing.message(), "Upload c not found");
    assert_eq!(missing.status_code(), 404);
}

#[test]
fn an_id_is_taken_once() {
    let mut db = sample();
    let refused = db.create_upload(&upload("a", UploadStatus::Failed, 5)).unwrap_err();
    assert_eq!(refused.message(), "UNIQUE constraint failed: uploads.id");
    assert_eq!(db.get_upload("a").unwrap().status, UploadStatus::Pending);
}

#[test]
fn parts_come_by_number() {
    let db = sample();
    let numbers: Vec<i32> = db.get_all_parts("a").iter().map(|p| p.part_number).collect();
    assert_eq!(numbers, vec![0, 1]);
    assert!(db.get_all_parts("c").is_empty());
    assert_eq!(db.get_part("a", 1).unwrap().token_hash, "hash-1");
    let missing = db.get_part("a", 7).unwrap_err();
    assert_eq!(missing.message(), "Part 7 not found for upload a");
}

#[test]
fn refused_parts_leave_those_before_them() {
    let mut db = sample();
    let refused = db
        .create_parts(&vec![part("a", 2), part("a", 0), part("a", 3)])
        .unwrap_err();
    assert_eq!(
        refused.message(),
        "UNIQUE constraint failed: upload_parts.upload_id, upload_parts.part_number"
    );
    assert!(db.get_part("a", 2).is_ok());
    assert!(db.get_part("a", 3).is_err());

    let refused = db.create_parts(&vec![part("nobody", 0)]).unwrap_err();
    assert_eq!(refused.message(), "FOREIGN KEY constraint failed");
}

#[test]
fn uploaded_parts_are_counted() {
    let mut db = sample();
    assert_eq!(db.count_uploaded_parts("a").unwrap(), 0);
    db.update_part_status("a", 0, PartStatus::Uploaded, Some("sum"), 77);
    let row = db.get_part("a", 0).unwrap();
    assert_eq!(row.status, PartStatus::Uploaded);
    assert_eq!(row.checksum_sha256.as_deref(), Some("sum"));
    assert_eq!(row.uploaded_at, Some(77));
    assert_eq!(db.count_uploaded_parts("a").unwrap(), 1);
    assert_eq!(db.count_uploaded_parts("b").unwrap(), 0);
    assert!(!db.all_parts_uploaded("a").unwrap());
    db.update_part_status("a", 1, PartStatus::Uploaded, None, 78);
    assert!(db.all_parts_uploaded("a").unwrap());
    assert_eq!(db.all_parts_uploaded("c").unwrap_err().message(), "Upload c not found");
    db.update_part_status("c", 1, PartStatus::Uploaded, None, 78);
}

#[test]
fn deleting_takes_the_upload_alone() {
    let mut db = sample();
    db.delete_upload("a");
    assert!(db.get_upload("a").is_err());
    assert!(db.get_all_parts("a").is_empty());
    assert!(db.get_upload("b").is_ok());
    assert_eq!(db.get_all_parts("b").len(), 1);
    db.delete_upload("nobody");
    assert!(db.get_upload("b").is_ok());
}

#[test]
fn finalization_starts_from_pending_or_failed() {
    let mut db = sample();
    assert!(db.try_start_finalization("a", 200));
    let row = db.get_upload("a").unwrap();
    assert_eq!(row.status, UploadStatus::Finalizing);
    assert_eq!(row.finalization_started_at, Some(200));
    assert_eq!(row.finalization_updated_at, Some(200));
    assert_eq!(row.updated_at, 200);
    assert!(!db.try_start_finalization("a", 201));
    assert!(!db.try_start_finalization("b", 201));
    assert!(!db.try_start_finalization("nobody", 201));

    db.mark_finalization_failed("a", "broken", 202);
    let row = db.get_upload("a").unwrap();
    assert_eq!(row.status, UploadStatus::Failed);
    assert_eq!(row.finalization_error.as_deref(), Some("broken"));
    assert!(db.try_start_finalization("a", 203));
    assert_eq!(db.get_upload("a").unwrap().finalization_error, None);
}

#[test]
fn stale_finalization_is_restarted() {
    let mut db = sample();
    assert!(!db.restart_stale_finalization("a", 300, 10_000));
    db.try_start_finalization("a", 1000);
    db.update_finalizing_progress("a", 40, 1000);
    assert!(!db.restart_stale_finalization("a", 300, 1300));
    assert!(db.restart_stale_finalization("a", 300, 1301));
    let row = db.get_upload("a").unwrap();
    assert_eq!(row.status, UploadStatus::Finalizing);
    assert_eq!(row.finalizing_progress_percent, 0);
    assert_eq!(row.finalization_started_at, Some(1301));
}

#[test]
fn progress_is_kept_between_0_and_100() {
    let mut db = sample();
    for (given, kept) in [(-5, 0), (0, 0), (42, 42), (100, 100), (101, 100), (i32::MAX, 100)] {
        db.update_finalizing_progress("a", given, 5);
        assert_eq!(db.get_upload("a").unwrap().finalizing_progress_percent, kept);
    }
}

#[test]
fn completion_is_recorded() {
    let mut db = sample();
    db.try_start_finalization("a", 5);
    db.mark_finalization_complete("a", "./uploads/a_clip.mp4", 9);
    let row = db.get_upload("a").unwrap();
    assert_eq!(row.status, UploadStatus::Complete);
    assert_eq!(row.final_path.as_deref(), Some("./uploads/a_clip.mp4"));
    assert_eq!(row.finalizing_progress_percent, 100);
    assert_eq!(row.updated_at, 9);
    db.update_upload_final_path("a", "elsewhere", 10);
    assert_eq!(db.get_upload("a").unwrap().final_path.as_deref(), Some("elsewhere"));
    db.update_upload_status("a", UploadStatus::Failed, 11);
    assert_eq!(db.get_upload("a").unwrap().status, UploadStatus::Failed);
}

#[test]
fn expired_pending_uploads_are_listed() {
    let mut db = sample();
    db.create_upload(&upload("c", UploadStatus::Pending, 2000)).unwrap();
    let ids = |now: i64| -> Vec<String> {
        db.list_expired_pending_uploads(now).into_iter().map(|u| u.id).collect()
    };
    assert!(ids(1000).is_empty());
    assert_eq!(ids(1001), vec!["a"]);
    assert_eq!(ids(5000), vec!["a", "c"]);
}

#[test]
fn restart_fails_what_was_being_finalized() {
    let mut db = sample();
    db.create_upload(&upload("c", UploadStatus::Pending, 2000)).unwrap();
    db.try_start_finalization("a", 5);
    assert_eq!(db.mark_stale_finalizing_failed_on_boot(50), 1);
    let row = db.get_upload("a").unwrap();
    assert_eq!(row.status, UploadStatus::Failed);
    assert_eq!(
        row.finalization_error.as_deref(),
        Some("Server restarted during finalization")
    );
    assert_eq!(db.get_upload("c").unwrap().status, UploadStatus::Pending);
    assert_eq!(db.mark_stale_finalizing_failed_on_boot(51), 0);

    db.create_upload(&Upload {
        finalization_error: Some("earlier".to_string()),
        ..upload("d", UploadStatus::Finalizing, 1)
    })
    .unwrap();
    db.mark_stale_finalizing_failed_on_boot(52);
    let row = db.get_upload("d").unwrap();
    assert_eq!(row.finalization_error.as_deref(), Some("earlier"));
}
