use axum::http::{HeaderMap, HeaderValue};
use chunked_uploader::auth::jwt::{PartClaims, PartTokenGenerator};
use chunked_uploader::clock::{Instant, LATEST};
use chunked_uploader::config::{Config, StorageBackendType};
use chunked_uploader::db::schema::{PartStatus, Upload, UploadStatus};
use chunked_uploader::db::Database;
use chunked_uploader::error::{AppError, JwtError};
use chunked_uploader::handlers::cancel::{cancel_upload, finish_cancel, CancelAction};
use chunked_uploader::handlers::complete::{complete_upload, complete_upload_at};
use chunked_uploader::handlers::finalize::{Finalization, PartCheck};
use chunked_uploader::handlers::health::health_check;
use chunked_uploader::handlers::init::{
    init_upload, init_upload_at, init_upload_with, InitUploadRequest, InitUploadResponse,
};
use chunked_uploader::handlers::part::{
    check_part, check_token, check_token_at, read_bearer_token, record_part, record_part_at,
    upload_part, upload_part_at,
};
use chunked_uploader::handlers::plan::{can_divide, count_parts, size_of_part};
use chunked_uploader::handlers::status::{get_status, StatusQuery};
use chunked_uploader::services::cleanup::CleanupPass;

const ID: &str = "550e8400-e29b-41d4-a716-446655440000";

fn config(chunk_size_bytes: u64) -> Config {
    Config {
        api_key: "key".to_string(),
        jwt_secret: "test-secret".to_string(),
        storage_backend: StorageBackendType::Local,
        local_storage_path: "./uploads".to_string(),
        temp_storage_path: "/tmp".to_string(),
        smb_host: "localhost".to_string(),
        smb_port: 445,
        smb_user: String::new(),
        smb_pass: String::new(),
        smb_share: "share".to_string(),
        smb_path: String::new(),
        smb_mount_point: "/Volumes/uploads".to_string(),
        s3_endpoint: None,
        s3_bucket: "uploads".to_string(),
        s3_region: "us-east-1".to_string(),
        chunk_size_mb: 0,
        chunk_size_bytes,
        upload_ttl_hours: 24,
        max_concurrent_finalizations: 4,
        database_path: "./uploads.db".to_string(),
        server_port: 3000,
    }
}

fn request(filename: &str, total_size: i64) -> InitUploadRequest {
    InitUploadRequest {
        filename: filename.to_string(),
        total_size,
        checksum_sha256: Some("sum".to_string()),
        webhook_url: Some("https://example.com/hook".to_string()),
    }
}

fn api_key(key: &'static str) -> HeaderMap {
    let mut headers = HeaderMap::new();
    headers.insert("X-API-Key", HeaderValue::from_static(key));
    headers
}

fn bearer(token: &str) -> HeaderMap {
    let mut headers = HeaderMap::new();
    headers.insert("Authorization", format!("Bearer {token}").parse().unwrap());
    headers
}

fn now() -> Instant {
    Instant { seconds: chrono::Utc::now().timestamp(), nanos: 0 }
}

fn announced(db: &mut Database, filename: &str, total_size: i64) -> InitUploadResponse {
    init_upload_with(db, &config(6), "local", &request(filename, total_size), ID, now()).unwrap()
}

#[test]
fn files_are_divided_into_chunks() {
    assert_eq!(count_parts(10737418240, 52428800), 205);
    assert_eq!(count_parts(0, 6), 0);
    assert_eq!(count_parts(1, 6), 1);
    assert_eq!(count_parts(6, 6), 1);
    assert_eq!(count_parts(7, 6), 2);
    assert_eq!(count_parts(i64::MAX, 1), i32::MAX);
    assert_eq!(count_parts(0, 0), 0);
    assert_eq!(count_parts(-3, 6), 0);
    assert_eq!(count_parts(-10, -3), 4);
    assert_eq!(size_of_part(11, 6, 0, 2), 6);
    assert_eq!(size_of_part(11, 6, 1, 2), 5);
    assert_eq!(size_of_part(12, 6, 1, 2), 6);
    assert_eq!(size_of_part(-10, -3, 3, 4), -1);
    assert_eq!(size_of_part(10737418240, 52428800, 204, 205), 41943040);
}

#[test]
fn counts_agree_with_a_division_in_floating_point() {
    for size in [0i64, 1, 5, 6, 7, 99, 100, 101, 123456789, 9007199254740991] {
        for chunk in [1i64, 2, 6, 7, 100, 52428800] {
            let expected = ((size as f64) / (chunk as f64)).ceil() as i32;
            assert_eq!(count_parts(size, chunk), expected, "{size} {chunk}");
        }
    }
}

#[test]
fn counts_of_enormous_files_are_rounded_as_floating_point_is() {
    assert_eq!(count_parts((1 << 53) + 1, 1 << 23), 1 << 30);
    let check = |size: i64, chunk: i64| {
        let expected = ((size as f64) / (chunk as f64)).ceil() as i32;
        assert_eq!(can_divide(size, chunk), expected >= 0, "{size} {chunk}");
        if expected >= 0 {
            assert_eq!(count_parts(size, chunk), expected, "{size} {chunk}");
        }
    };
    let mut seed: u64 = 1;
    let mut next = || {
        seed = seed.wrapping_mul(6364136223846793005).wrapping_add(1442695040888963407);
        seed ^ (seed >> 29)
    };
    for _ in 0..200_000 {
        let size = (next() >> (next() % 12)) as i64;
        let chunk = (next() >> (next() % 64)) as i64;
        if chunk != 0 {
            check(size, chunk);
        }
    }
    for _ in 0..200_000 {
        let count = (next() >> (33 + next() % 31)) as i64;
        let chunk = (next() >> (1 + next() % 63)) as i64;
        if chunk != 0 {
            if let Some(size) = count.checked_mul(chunk) {
                for near in [-2, -1, 0, 1, 2, 3, 1024] {
                    check(size.saturating_add(near), chunk);
                    check(size.saturating_add(near), chunk.saturating_add(near).max(1));
                }
            }
        }
    }
    for power in 50..63 {
        for near in -5..6 {
            for chunk in [1i64, 3, 1 << 20, (1 << 23) + 1, 1 << 31, 1 << 40, 1 << 53, i64::MAX] {
                check((1i64 << power) + near, chunk);
                check(-((1i64 << power) + near), chunk);
                check(chunk, (1i64 << power) + near);
            }
        }
    }
}

#[test]
fn part_sizes_add_up() {
    for (size, chunk) in [(11i64, 6i64), (12, 6), (1, 6), (0, 6), (1000, 7)] {
        let count = count_parts(size, chunk);
        let sum: i64 = (0..count).map(|n| size_of_part(size, chunk, n, count)).sum();
        assert_eq!(sum, size);
    }
}

#[test]
fn only_sensible_sizes_can_be_divided() {
    assert!(can_divide(0, 0));
    assert!(!can_divide(1, 0));
    assert!(!can_divide(-1, 0));
    assert!(can_divide(10, 6));
    assert!(!can_divide(-6, 6));
    assert!(can_divide(-5, 6));
    assert!(can_divide(i64::MIN, i64::MIN));
}

#[test]
fn announcement_is_recorded_and_answered() {
    let mut db = Database::new();
    let start = Instant { seconds: 1431648000, nanos: 0 };
    let response = init_upload_with(
        &mut db,
        &config(6),
        "local",
        &request("videos/2024/movie.mp4", 11),
        ID,
        start,
    )
    .unwrap();
    assert_eq!(response.file_id, ID);
    assert_eq!(response.total_parts, 2);
    assert_eq!(response.chunk_size, 6);
    assert_eq!(response.expires_at, "2015-05-16T00:00:00Z");
    assert_eq!(response.parts.len(), 2);
    assert_eq!(response.parts[1].part, 1);
    assert_eq!(response.parts[1].status, "pending");

    let row = db.get_upload(ID).unwrap();
    assert_eq!(row.filename, "movie.mp4");
    assert_eq!(row.target_path.as_deref(), Some("videos/2024"));
    assert_eq!(row.status, UploadStatus::Pending);
    assert_eq!(row.storage_backend, "local");
    assert_eq!(row.created_at, 1431648000);
    assert_eq!(row.expires_at, 1431648000 + 24 * 3600);
    assert_eq!(row.checksum_sha256.as_deref(), Some("sum"));
    let parts = db.get_all_parts(ID);
    assert_eq!(parts.len(), 2);
    assert_eq!(parts[0].size, 6);
    assert_eq!(parts[1].size, 5);
    assert_eq!(
        parts[1].token_hash,
        PartTokenGenerator::hash_token(&response.parts[1].token)
    );
    assert_ne!(response.parts[0].token, response.parts[1].token);
}

#[test]
fn name_without_a_path_has_no_target() {
    for (name, filename, target) in [
        ("movie.mp4", "movie.mp4", None),
        ("/movie.mp4", "movie.mp4", Some("/")),
        ("a/b/", "b", Some("a")),
        ("..", "..", None),
        ("a/..", "a/..", Some("a")),
        ("", "", None),
    ] {
        let mut db = Database::new();
        announced(&mut db, name, 1);
        let row = db.get_upload(ID).unwrap();
        assert_eq!(row.filename, filename, "{name:?}");
        assert_eq!(row.target_path.as_deref(), target, "{name:?}");
    }
}

#[test]
fn announcement_under_a_used_id_is_refused() {
    let mut db = Database::new();
    announced(&mut db, "a", 11);
    let refused = init_upload_with(&mut db, &config(6), "local", &request("b", 1), ID, now());
    assert_eq!(
        refused.unwrap_err().message(),
        "UNIQUE constraint failed: uploads.id"
    );
    assert_eq!(db.get_upload(ID).unwrap().filename, "a");
}

#[test]
fn announcement_without_a_date_to_expire_has_no_answer() {
    let mut db = Database::new();
    let settings = config(6);
    for (seconds, answered) in [(0, true), (LATEST - 86400, true), (LATEST - 86399, false)] {
        let start = Instant { seconds, nanos: 0 };
        let id = format!("id {seconds}");
        let answer = init_upload_at(&mut db, &settings, "local", &request("a", 11), &id, start);
        assert_eq!(answer.is_some(), answered);
        assert_eq!(db.get_upload(&id).is_ok(), answered);
    }
    let start = Instant { seconds: 0, nanos: 0 };
    let again = init_upload_at(&mut db, &settings, "local", &request("a", 11), "id 0", start);
    assert_eq!(again.unwrap().unwrap_err().message(), "UNIQUE constraint failed: uploads.id");
}

#[test]
fn announcement_needs_the_api_key() {
    let mut db = Database::new();
    let refused = init_upload(&mut db, &config(6), "local", &HeaderMap::new(), &request("a", 11));
    assert_eq!(refused.unwrap().unwrap_err().message(), "Missing API key");
    let refused = init_upload(&mut db, &config(6), "local", &api_key("no"), &request("a", 11));
    assert_eq!(refused.unwrap().unwrap_err().message(), "Invalid API key");
}

#[test]
fn announcement_now_gets_a_random_id() {
    let mut db = Database::new();
    let before = chrono::Utc::now().timestamp();
    let mut ids = Vec::new();
    for _ in 0..2 {
        let answer = init_upload(&mut db, &config(6), "local", &api_key("key"), &request("a", 11));
        let response = answer.unwrap().unwrap();
        let id = response.file_id;
        assert_eq!(id.len(), 36);
        for (i, c) in id.chars().enumerate() {
            if [8, 13, 18, 23].contains(&i) {
                assert_eq!(c, '-');
            } else {
                assert!(c.is_ascii_hexdigit() && !c.is_ascii_uppercase());
            }
        }
        assert_eq!(&id[14..15], "4");
        let row = db.get_upload(&id).unwrap();
        assert!(row.created_at >= before);
        assert_eq!(row.expires_at - row.created_at, 24 * 3600);
        ids.push(id);
    }
    assert_ne!(ids[0], ids[1]);
}

#[test]
fn announcement_that_would_outlive_the_calendar_has_no_answer() {
    let mut db = Database::new();
    let mut settings = config(6);
    settings.upload_ttl_hours = (LATEST / 3600) as u64;
    let answer = init_upload(&mut db, &settings, "local", &api_key("key"), &request("a", 11));
    assert!(answer.is_none());
    assert!(db.list_expired_pending_uploads(i64::MAX).is_empty());
}

#[test]
fn bearer_token_is_read_from_its_header() {
    assert_eq!(read_bearer_token(&bearer("abc")).unwrap(), "abc");
    let mut headers = HeaderMap::new();
    for value in ["Basic abc", "bearer abc", "Bearer"] {
        headers.insert("Authorization", HeaderValue::from_static(value));
        let refused = read_bearer_token(&headers).unwrap_err();
        assert_eq!(refused.message(), "Missing or invalid Authorization header");
        assert_eq!(refused.status_code(), 401);
    }
    assert!(read_bearer_token(&HeaderMap::new()).is_err());
}

#[test]
fn part_with_its_token_is_accepted_and_recorded_once() {
    let mut db = Database::new();
    let response = announced(&mut db, "clip.mp4", 11);
    let token = response.parts[0].token.clone();
    let accepted =
        upload_part(&db, "test-secret", ID, 0, &bearer(&token), b"hello ").unwrap();
    assert_eq!(accepted.upload.id, ID);
    assert_eq!(accepted.part_number, 0);
    assert_eq!(
        accepted.checksum_sha256,
        "5e3235a8346e5a4585f8c58562f5052b8fe26a3bb122e1e96c76784964dfc461"
    );
    let answer = record_part_at(&mut db, &accepted, 777).unwrap();
    assert_eq!(answer.upload_id, ID);
    assert_eq!(answer.part_number, 0);
    assert_eq!(answer.status, "uploaded");
    assert_eq!(answer.checksum_sha256, accepted.checksum_sha256);
    assert_eq!(answer.uploaded_parts, 1);
    assert_eq!(answer.total_parts, 2);
    assert_eq!(db.get_part(ID, 0).unwrap().uploaded_at, Some(777));

    let refused = upload_part(&db, "test-secret", ID, 0, &bearer(&token), b"hello ").unwrap_err();
    assert_eq!(refused.message(), "Part already uploaded");
    assert_eq!(refused.status_code(), 409);
}

#[test]
fn recording_now_uses_the_clock() {
    let mut db = Database::new();
    let response = announced(&mut db, "clip.mp4", 11);
    let token = response.parts[1].token.clone();
    let accepted = upload_part(&db, "test-secret", ID, 1, &bearer(&token), b"world").unwrap();
    let before = chrono::Utc::now().timestamp();
    assert_eq!(record_part(&mut db, &accepted).unwrap().uploaded_parts, 1);
    let at = db.get_part(ID, 1).unwrap().uploaded_at.unwrap();
    assert!(before <= at && at <= chrono::Utc::now().timestamp());
}

#[test]
fn part_is_refused_for_the_first_thing_that_is_wrong() {
    let mut db = Database::new();
    let response = announced(&mut db, "clip.mp4", 11);
    let token = response.parts[0].token.clone();

    let refused = upload_part(&db, "test-secret", ID, 0, &HeaderMap::new(), b"hello ").unwrap_err();
    assert_eq!(refused.message(), "Missing or invalid Authorization header");
    let refused = upload_part(&db, "other", ID, 0, &bearer(&token), b"hello ").unwrap_err();
    assert!(matches!(refused, AppError::Jwt(JwtError::Invalid)));
    let refused = upload_part(&db, "test-secret", ID, 1, &bearer(&token), b"hello ").unwrap_err();
    assert_eq!(refused.message(), "Token does not match upload/part");
    let refused = upload_part(&db, "test-secret", "x", 0, &bearer(&token), b"hello ").unwrap_err();
    assert_eq!(refused.message(), "Token does not match upload/part");
    let refused = upload_part(&db, "test-secret", ID, 0, &bearer(&token), b"hello").unwrap_err();
    assert_eq!(refused.message(), "Part size mismatch: expected 6, got 5");
    assert_eq!(refused.status_code(), 400);

    let grant = check_token("test-secret", ID, 0, &bearer(&token)).unwrap();
    assert_eq!(grant.token, token);
    assert_eq!(grant.claims.upload_id, ID);
    assert_eq!(grant.claims.expected_size, 6);
    let refused = check_token("test-secret", ID, 1, &bearer(&token)).unwrap_err();
    assert_eq!(refused.message(), "Token does not match upload/part");
    let refused = check_token("test-secret", ID, 0, &HeaderMap::new()).unwrap_err();
    assert_eq!(refused.status_code(), 401);

    let expires = db.get_upload(ID).unwrap().expires_at;
    for at in [0, expires, expires + 60] {
        let grant = check_token_at("test-secret", ID, 0, &bearer(&token), at).unwrap();
        assert_eq!(grant.claims.exp as i64, expires);
        let stored = upload_part_at(&db, "test-secret", ID, 0, &bearer(&token), b"hello ", at);
        assert_eq!(stored.unwrap().part_number, 0);
    }
    let late = upload_part_at(&db, "test-secret", ID, 0, &bearer(&token), b"", expires + 61);
    assert!(matches!(late, Err(AppError::Jwt(JwtError::Expired))));

    let empty = Database::new();
    let refused = upload_part(&empty, "test-secret", ID, 0, &bearer(&token), b"hello ").unwrap_err();
    assert_eq!(refused.message(), format!("Upload {ID} not found"));

    db.try_start_finalization(ID, 5);
    let refused = upload_part(&db, "test-secret", ID, 0, &bearer(&token), b"hello ").unwrap_err();
    assert_eq!(refused.message(), "Upload is already finalizing");
    assert_eq!(refused.status_code(), 409);
}

#[test]
fn token_that_was_not_handed_out_is_refused() {
    let mut db = Database::new();
    announced(&mut db, "clip.mp4", 11);
    let claims = PartClaims {
        upload_id: ID.to_string(),
        part_number: 0,
        expected_size: 6,
        exp: u64::MAX,
    };
    let refused = check_part(&db, &claims, "made up", ID, 0, b"hello ").unwrap_err();
    assert_eq!(refused.message(), "Invalid token for this part");
    assert_eq!(refused.status_code(), 401);
    let far = PartClaims { part_number: 9, upload_id: ID.to_string(), expected_size: 6, exp: 0 };
    let refused = check_part(&db, &far, "made up", ID, 9, b"hello ").unwrap_err();
    assert_eq!(refused.message(), format!("Part 9 not found for upload {ID}"));
}

#[test]
fn status_tells_how_far_an_upload_is() {
    let mut db = Database::new();
    let start = Instant { seconds: 1431648000, nanos: 0 };
    init_upload_with(&mut db, &config(6), "local", &request("clip.mp4", 11), ID, start).unwrap();
    db.update_part_status(ID, 1, PartStatus::Uploaded, Some("sum"), 1431648001);

    let query = StatusQuery { include_parts: true };
    let status = get_status(&db, "key", ID, &query, &api_key("key")).unwrap();
    assert_eq!(status.file_id, ID);
    assert_eq!(status.total_parts, 2);
    assert_eq!(status.uploaded_parts, 1);
    assert_eq!(status.status, "pending");
    assert_eq!(status.phase, "uploading");
    assert_eq!(status.created_at, "2015-05-15T00:00:00Z");
    assert_eq!(status.expires_at, "2015-05-16T00:00:00Z");
    let parts = status.parts.unwrap();
    assert_eq!(parts.len(), 2);
    assert_eq!(parts[0].part, 0);
    assert_eq!(parts[0].status, "pending");
    assert_eq!(parts[0].uploaded_at, None);
    assert_eq!(parts[1].status, "uploaded");
    assert_eq!(parts[1].checksum_sha256.as_deref(), Some("sum"));
    assert_eq!(parts[1].uploaded_at.as_deref(), Some("2015-05-15T00:00:01Z"));

    let query = StatusQuery { include_parts: false };
    let status = get_status(&db, "key", ID, &query, &api_key("key")).unwrap();
    assert!(status.parts.is_none());
    let missing = get_status(&db, "key", "x", &query, &api_key("key")).unwrap_err();
    assert_eq!(missing.status_code(), 404);
    let refused = get_status(&db, "key", ID, &query, &HeaderMap::new()).unwrap_err();
    assert_eq!(refused.status_code(), 401);
}

#[test]
fn phases_follow_the_status() {
    let query = StatusQuery { include_parts: false };
    for (status, phase) in [
        (UploadStatus::Pending, "uploading"),
        (UploadStatus::Finalizing, "finalizing"),
        (UploadStatus::Complete, "complete"),
        (UploadStatus::Failed, "failed"),
    ] {
        let mut db = Database::new();
        announced(&mut db, "clip.mp4", 11);
        db.update_upload_status(ID, status, 5);
        let told = get_status(&db, "key", ID, &query, &api_key("key")).unwrap();
        assert_eq!(told.phase, phase);
    }
}

#[test]
fn completion_waits_for_every_part() {
    let mut db = Database::new();
    announced(&mut db, "clip.mp4", 11);
    db.update_part_status(ID, 0, PartStatus::Uploaded, None, 5);
    let refused = complete_upload_at(&mut db, ID, 10).unwrap_err();
    assert_eq!(refused.message(), "Not all parts uploaded: 1/2 complete");
    assert_eq!(refused.status_code(), 400);
    assert_eq!(db.get_upload(ID).unwrap().status, UploadStatus::Pending);

    db.update_part_status(ID, 1, PartStatus::Uploaded, None, 6);
    let answer = complete_upload_at(&mut db, ID, 10).unwrap();
    assert_eq!(answer.status_code, 202);
    assert!(answer.start_task);
    assert_eq!(answer.response.status, "finalizing");
    assert_eq!(answer.response.phase, "finalizing");
    assert_eq!(answer.response.finalizing_progress_percent, 0);

    db.update_finalizing_progress(ID, 15, 20);
    let again = complete_upload_at(&mut db, ID, 320).unwrap();
    assert_eq!(again.status_code, 202);
    assert!(!again.start_task);
    assert_eq!(again.response.finalizing_progress_percent, 15);

    let revived = complete_upload_at(&mut db, ID, 321).unwrap();
    assert!(revived.start_task);
    assert_eq!(revived.response.finalizing_progress_percent, 0);

    db.mark_finalization_complete(ID, "there", 400);
    let done = complete_upload_at(&mut db, ID, 9999).unwrap();
    assert_eq!(done.status_code, 200);
    assert!(!done.start_task);
    assert_eq!(done.response.status, "complete");
    assert_eq!(done.response.final_path.as_deref(), Some("there"));
    assert_eq!(done.response.finalizing_progress_percent, 100);
    assert_eq!(complete_upload_at(&mut db, "x", 1).unwrap_err().status_code(), 404);
}

#[test]
fn completion_now_needs_the_api_key() {
    let mut db = Database::new();
    announced(&mut db, "empty", 0);
    let refused = complete_upload(&mut db, "key", ID, &api_key("no")).unwrap_err();
    assert_eq!(refused.message(), "Invalid API key");
    assert_eq!(db.get_upload(ID).unwrap().status, UploadStatus::Pending);
    let before = chrono::Utc::now().timestamp();
    let answer = complete_upload(&mut db, "key", ID, &api_key("key")).unwrap();
    assert!(answer.start_task);
    assert!(db.get_upload(ID).unwrap().finalization_started_at.unwrap() >= before);
}

fn uploaded(parts: i64) -> Database {
    let mut db = Database::new();
    announced(&mut db, "clip.mp4", 6 * parts);
    for n in 0..parts {
        db.update_part_status(ID, n as i32, PartStatus::Uploaded, None, 5);
    }
    db.try_start_finalization(ID, 6);
    db
}

#[test]
fn finalization_goes_through_its_stages() {
    let mut db = uploaded(3);
    let mut work = Finalization::begin(&mut db, ID, 10).unwrap();
    assert_eq!(work.part_count(), 3);
    assert_eq!(work.upload().id, ID);
    let progress = |db: &Database| db.get_upload(ID).unwrap().finalizing_progress_percent;
    assert_eq!(progress(&db), 1);
    let mut seen = Vec::new();
    while work.check_part(&mut db, 11) == PartCheck::Arrived {
        seen.push(progress(&db));
    }
    assert_eq!(seen, vec![30, 60, 90]);
    assert!(work.verified(&mut db, Ok(()), 12));
    assert_eq!(progress(&db), 95);
    let at = Instant { seconds: 1431648000, nanos: 500_000_000 };
    let hook = work.stored(&mut db, Ok("there".to_string()), at).unwrap();
    assert_eq!(hook.url, "https://example.com/hook");
    assert_eq!(hook.payload.event, "upload.complete");
    assert_eq!(hook.payload.file_id, ID);
    assert_eq!(hook.payload.filename, "clip.mp4");
    assert_eq!(hook.payload.total_size, 18);
    assert_eq!(hook.payload.final_path, "there");
    assert_eq!(hook.payload.storage_backend, "local");
    assert_eq!(hook.payload.completed_at, "2015-05-15T00:00:00.500Z");
    let row = db.get_upload(ID).unwrap();
    assert_eq!(row.status, UploadStatus::Complete);
    assert_eq!(row.finalizing_progress_percent, 100);
    assert_eq!(row.final_path.as_deref(), Some("there"));
}

#[test]
fn finalization_fails_on_a_missing_part() {
    let mut db = uploaded(2);
    db.update_part_status(ID, 1, PartStatus::Pending, None, 7);
    let mut work = Finalization::begin(&mut db, ID, 10).unwrap();
    assert_eq!(work.check_part(&mut db, 11), PartCheck::Arrived);
    assert_eq!(work.check_part(&mut db, 12), PartCheck::Missing);
    let row = db.get_upload(ID).unwrap();
    assert_eq!(row.status, UploadStatus::Failed);
    assert_eq!(
        row.finalization_error.as_deref(),
        Some("Finalization verification failed: part 1 is not uploaded")
    );
}

#[test]
fn finalization_fails_when_storage_fails() {
    let mut db = uploaded(0);
    let mut work = Finalization::begin(&mut db, ID, 10).unwrap();
    assert_eq!(work.check_part(&mut db, 11), PartCheck::AllArrived);
    let broken = AppError::Storage("disk full".to_string());
    assert!(!work.verified(&mut db, Err(broken), 12));
    assert_eq!(
        db.get_upload(ID).unwrap().finalization_error.as_deref(),
        Some("Finalization verification failed: disk full")
    );
    let at = Instant { seconds: 13, nanos: 0 };
    assert!(work.verified(&mut db, Ok(()), 12));
    let broken = AppError::Storage("disk full".to_string());
    assert!(work.stored(&mut db, Err(broken), at).is_none());
    let row = db.get_upload(ID).unwrap();
    assert_eq!(row.status, UploadStatus::Failed);
    assert_eq!(row.finalization_error.as_deref(), Some("Finalization failed: disk full"));
    assert_eq!(Finalization::begin(&mut db, "x", 1).unwrap_err().status_code(), 404);
}

#[test]
fn finalization_fails_when_the_parts_cannot_be_loaded() {
    let mut db = uploaded(1);
    Finalization::parts_unavailable(&mut db, ID, "disk I/O error", 9);
    let row = db.get_upload(ID).unwrap();
    assert_eq!(row.status, UploadStatus::Failed);
    assert_eq!(row.finalization_error.as_deref(), Some("Failed to load parts: disk I/O error"));
    assert_eq!(row.finalization_updated_at, Some(9));
}

#[test]
fn upload_without_a_webhook_tells_nobody() {
    let mut db = Database::new();
    let quiet = InitUploadRequest { webhook_url: None, ..request("clip.mp4", 0) };
    init_upload_with(&mut db, &config(6), "local", &quiet, ID, now()).unwrap();
    let mut work = Finalization::begin(&mut db, ID, 10).unwrap();
    assert_eq!(work.check_part(&mut db, 11), PartCheck::AllArrived);
    assert!(work.verified(&mut db, Ok(()), 12));
    let at = Instant { seconds: 13, nanos: 0 };
    assert!(work.stored(&mut db, Ok("there".to_string()), at).is_none());
    assert_eq!(db.get_upload(ID).unwrap().status, UploadStatus::Complete);
}

#[test]
fn cancelling_removes_what_there_is() {
    let mut db = Database::new();
    announced(&mut db, "clip.mp4", 11);
    let action = cancel_upload(&db, "key", ID, &api_key("key")).unwrap();
    assert!(matches!(&action, CancelAction::CleanUp(row) if row.id == ID));
    db.try_start_finalization(ID, 5);
    let refused = cancel_upload(&db, "key", ID, &api_key("key")).unwrap_err();
    assert_eq!(refused.message(), "Upload is finalizing and cannot be cancelled");
    assert_eq!(refused.status_code(), 409);
    db.update_upload_status(ID, UploadStatus::Complete, 6);
    let action = cancel_upload(&db, "key", ID, &api_key("key")).unwrap();
    assert!(matches!(action, CancelAction::Nothing));
    db.mark_finalization_complete(ID, "there", 6);
    let action = cancel_upload(&db, "key", ID, &api_key("key")).unwrap();
    assert!(matches!(action, CancelAction::DeleteFile(path) if path == "there"));
    assert_eq!(cancel_upload(&db, "key", "x", &api_key("key")).unwrap_err().status_code(), 404);
    assert_eq!(cancel_upload(&db, "key", ID, &HeaderMap::new()).unwrap_err().status_code(), 401);

    let answer = finish_cancel(&mut db, ID);
    assert_eq!(answer.file_id, ID);
    assert_eq!(answer.status, "cancelled");
    assert_eq!(answer.message, "Upload cancelled and cleaned up");
    assert!(db.get_upload(ID).is_err());
    assert!(db.get_all_parts(ID).is_empty());
}

#[test]
fn health_follows_the_storage() {
    let (code, answer) = health_check("smb", true, Some("SMB connected".to_string()));
    assert_eq!(code, 200);
    assert_eq!(answer.status, "OK");
    assert_eq!(answer.storage.backend_type, "smb");
    assert_eq!(answer.storage.status, "healthy");
    assert_eq!(answer.storage.message.as_deref(), Some("SMB connected"));
    let (code, answer) = health_check("local", false, None);
    assert_eq!(code, 503);
    assert_eq!(answer.status, "DEGRADED");
    assert_eq!(answer.storage.status, "unavailable");
    assert_eq!(answer.storage.message, None);
}

fn expiring(id: &str, status: UploadStatus, expires_at: i64) -> Upload {
    Upload {
        id: id.to_string(),
        filename: "f".to_string(),
        total_size: 0,
        chunk_size: 6,
        total_parts: 0,
        status,
        storage_backend: "local".to_string(),
        target_path: None,
        final_path: None,
        checksum_sha256: None,
        webhook_url: None,
        finalization_started_at: None,
        finalization_updated_at: None,
        finalization_error: None,
        finalizing_progress_percent: 0,
        created_at: 0,
        updated_at: 0,
        expires_at,
    }
}

#[test]
fn cleanup_forgets_exactly_the_expired() {
    let mut db = Database::new();
    db.create_upload(&expiring("old", UploadStatus::Pending, 10)).unwrap();
    db.create_upload(&expiring("done", UploadStatus::Complete, 10)).unwrap();
    db.create_upload(&expiring("older", UploadStatus::Pending, 5)).unwrap();
    db.create_upload(&expiring("new", UploadStatus::Pending, 100)).unwrap();
    let mut pass = CleanupPass::begin_at(&db, 50);
    let mut removed = Vec::new();
    while let Some(upload) = pass.next() {
        removed.push(upload.id);
        pass.forget(&mut db);
    }
    assert_eq!(removed, vec!["old", "older"]);
    assert!(db.get_upload("old").is_err());
    assert!(db.get_upload("older").is_err());
    assert!(db.get_upload("done").is_ok());
    assert!(db.get_upload("new").is_ok());
    assert_eq!(CleanupPass::begin(&db).next().unwrap().id, "new");
}
