use chunked_uploader::config::{Config, StorageBackendType};
use chunked_uploader::db::schema::{Upload, UploadStatus};
use chunked_uploader::error::AppError;
use chunked_uploader::storage::smb::directories::{DirectoryAction, DirectoryWalk};
use chunked_uploader::storage::smb::finalize::{FinalizeAction, FinalizeEvent, SmbFinalization};
use chunked_uploader::storage::smb::ready::ReadyCheck;
use chunked_uploader::storage::smb::requests::{
    delete_failure, file_size, opened_existing, opened_for_delete, opened_for_write,
    rename_failure, DeleteStep,
};
use chunked_uploader::storage::smb::sync::{offset_of_part, PartSync, SyncAction, SyncEvent};
use chunked_uploader::storage::smb::writer::{advance, range_after, SMB_WRITE_CHUNK};
use chunked_uploader::storage::smb::{ResourceKind, SmbConfig, SmbStorage};

fn settings(port: u16, path: &str) -> Config {
    Config {
        api_key: "key".to_string(),
        jwt_secret: "jwt".to_string(),
        storage_backend: StorageBackendType::Smb,
        local_storage_path: "./uploads".to_string(),
        temp_storage_path: "/tmp".to_string(),
        smb_host: "nas".to_string(),
        smb_port: port,
        smb_user: "user".to_string(),
        smb_pass: "pass".to_string(),
        smb_share: "share".to_string(),
        smb_path: path.to_string(),
        smb_mount_point: "/Volumes/uploads".to_string(),
        s3_endpoint: None,
        s3_bucket: "uploads".to_string(),
        s3_region: "us-east-1".to_string(),
        chunk_size_mb: 0,
        chunk_size_bytes: 6,
        upload_ttl_hours: 24,
        max_concurrent_finalizations: 4,
        database_path: "./uploads.db".to_string(),
        server_port: 3000,
    }
}

fn upload(total_size: i64, chunk_size: i64, total_parts: i32) -> Upload {
    Upload {
        id: "u".to_string(),
        filename: "m.mp4".to_string(),
        total_size,
        chunk_size,
        total_parts,
        status: UploadStatus::Finalizing,
        storage_backend: "smb".to_string(),
        target_path: Some("videos".to_string()),
        final_path: None,
        checksum_sha256: None,
        webhook_url: None,
        finalization_started_at: None,
        finalization_updated_at: None,
        finalization_error: None,
        finalizing_progress_percent: 0,
        created_at: 0,
        updated_at: 0,
        expires_at: 0,
    }
}

fn storage(base: &str) -> SmbStorage {
    SmbStorage::new(&settings(445, base), "/tmp")
}

#[test]
fn share_is_reached_by_its_unc_path() {
    let config = SmbConfig::new(&settings(445, "/Sermons/files/"));
    assert_eq!(config.unc_path, "\\\\nas\\share");
    assert_eq!(config.base_path, "Sermons/files");
    assert_eq!(config.username, "user");
    let config = SmbConfig::new(&settings(1445, ""));
    assert_eq!(config.unc_path, "\\\\nas:1445\\share");
    let address = config.share_address().unwrap();
    assert_eq!(address.server, "nas:1445");
    assert_eq!(address.share.as_deref(), Some("share"));
    assert_eq!(address.path, None);
}

#[test]
fn bad_unc_path_is_reported() {
    let mut config = SmbConfig::new(&settings(445, ""));
    config.unc_path = "nas".to_string();
    let error = config.build_unc_path_from_relative("a").unwrap_err();
    assert_eq!(
        error.message(),
        "Invalid UNC path nas: Invalid argument: UNC path must start with two slashes/backslashes"
    );
    let error = DirectoryWalk::begin(&config, "a/b").unwrap_err();
    assert_eq!(
        error.message(),
        "Invalid UNC path: Invalid argument: UNC path must start with two slashes/backslashes"
    );
    assert!(DirectoryWalk::begin(&config, "b").is_ok());
}

#[test]
fn smb_paths_have_their_form() {
    let s = storage("/base/");
    assert_eq!(s.get_local_part_path("u", 3), "/tmp/parts/u/part_000003");
    assert_eq!(s.get_upload_parts_dir("u"), "/tmp/parts/u");
    assert_eq!(s.get_smb_file_path("u", "m.mp4", None), "base/files/u_m.mp4");
    assert_eq!(s.get_smb_file_path("u", "m.mp4", Some("/v/")), "base/v/u_m.mp4");
    assert_eq!(s.get_smb_file_path("u", "m.mp4", Some("/")), "base/u_m.mp4");
    assert_eq!(s.get_smb_partial_path("u", "m.mp4", None), "base/files/u_m.mp4.partial");
    let s = storage("");
    assert_eq!(s.get_smb_file_path("u", "m.mp4", None), "files/u_m.mp4");
    assert_eq!(s.get_smb_file_path("u", "m.mp4", Some("v")), "v/u_m.mp4");
    assert_eq!(s.get_smb_file_path("u", "..", Some("")), "u_unnamed");
    assert_eq!(s.backend_type(), "smb");
    assert_eq!(
        SmbStorage::assemble_parts().message(),
        "SMB backend uses finalize_upload directly; assemble_parts not supported"
    );
}

#[test]
fn relative_paths_are_put_below_the_base() {
    let normalize = |base: &str, path: &str| storage(base).smb_config.normalize_relative_path(path);
    assert_eq!(normalize("base", "/a\\b/"), "base/a\\b");
    assert_eq!(normalize("base", "base/a"), "base/a");
    assert_eq!(normalize("base", "base"), "base");
    assert_eq!(normalize("base", "based/a"), "base/based/a");
    assert_eq!(normalize("base", "//"), "base");
    assert_eq!(normalize("", "a/b"), "a/b");
    assert_eq!(normalize("", ""), "");
    assert_eq!(normalize("my/files", "files"), "my/files");
    assert_eq!(normalize("my/files", "files/x"), "my/files/x");
    assert_eq!(normalize("my/files", "x"), "my/files/x");
}

#[test]
fn delete_targets_may_be_unc_paths() {
    let config = storage("base").smb_config;
    let address = config.delete_target("//other/s/a/b").unwrap();
    assert_eq!(address.server, "other");
    assert_eq!(address.share.as_deref(), Some("s"));
    assert_eq!(address.path.as_deref(), Some("a\\b"));
    let address = config.delete_target("\\\\other").unwrap();
    assert_eq!(address.server, "other");
    assert_eq!(address.share, None);
    assert_eq!(address.path, None);
    let address = config.delete_target("v/u_m.mp4").unwrap();
    assert_eq!(address.server, "nas");
    assert_eq!(address.path.as_deref(), Some("base/v/u_m.mp4"));
    assert!(config.delete_target("/\\x").unwrap().path.is_some());
}

#[test]
fn connection_errors_are_diagnosed() {
    let config = storage("").smb_config;
    for (error, diagnosis) in [
        ("No route to host", "Network connectivity issue. Cannot reach SMB server at \\\\nas\\share"),
        ("Connection REFUSED (os error 111)", "Network connectivity issue. Cannot reach SMB server at \\\\nas\\share"),
        ("operation timed out", "Connection timeout. Server may be unreachable or firewall blocking port"),
        ("Access Denied", "Authentication failed. Check username 'user' and password"),
        ("login failed", "Authentication failed. Check username 'user' and password"),
        ("share does not exist", "SMB share 'share' not found on server nas"),
        ("no permission", "Permission denied. User 'user' may not have access to this share"),
        ("odd", "Connection error: odd"),
    ] {
        assert_eq!(config.diagnose_connection_error(error), diagnosis);
    }
    assert_eq!(
        config.connection_failure("odd").message(),
        "Failed to connect to SMB server: odd\n\nDiagnosis: Connection error: odd\n\nConfiguration:\n  - Host: nas:445\n  - Share: share\n  - User: user\n  - UNC Path: \\\\nas\\share"
    );
    assert_eq!(SmbConfig::connected_message(), "SMB connected");
    assert_eq!(config.health_message(None), (true, "SMB connection established".to_string()));
    assert_eq!(
        config.health_message(Some("e")),
        (false, "SMB unavailable: e (nas:445)".to_string())
    );
}

fn shown(action: DirectoryAction) -> String {
    match action {
        DirectoryAction::Open(path) => format!("open {path}"),
        DirectoryAction::Create(path) => format!("create {path}"),
        DirectoryAction::Done => "done".to_string(),
    }
}

#[test]
fn directories_are_made_from_the_outermost_inwards() {
    let config = storage("").smb_config;
    let mut walk = DirectoryWalk::begin(&config, "a\\b//c/file.txt").unwrap();
    assert_eq!(shown(walk.next()), "open a");
    walk.opened(Some(ResourceKind::Directory)).unwrap();
    assert_eq!(shown(walk.next()), "open a/b");
    walk.opened(None).unwrap();
    assert_eq!(shown(walk.next()), "create a/b");
    walk.created(Ok(ResourceKind::Directory)).unwrap();
    assert_eq!(shown(walk.next()), "open a/b/c");
    walk.opened(None).unwrap();
    walk.created(Err("Object Name Collision".to_string())).unwrap();
    assert_eq!(shown(walk.next()), "done");
    let walk = DirectoryWalk::begin(&config, "file.txt").unwrap();
    assert_eq!(shown(walk.next()), "done");
}

#[test]
fn directories_that_cannot_be_made_are_reported() {
    let config = storage("").smb_config;
    let begin = || DirectoryWalk::begin(&config, "a/file.txt").unwrap();
    let mut walk = begin();
    let error = walk.opened(Some(ResourceKind::File)).unwrap_err();
    assert_eq!(error.message(), "Path exists but is a file, not directory: a");
    let mut walk = begin();
    walk.opened(Some(ResourceKind::Other)).unwrap();
    assert_eq!(shown(walk.next()), "done");
    let mut walk = begin();
    walk.opened(None).unwrap();
    let error = walk.created(Ok(ResourceKind::File)).unwrap_err();
    assert_eq!(error.message(), "Failed to create directory a: unexpected resource type");
    let error = walk.created(Err("full".to_string())).unwrap_err();
    assert_eq!(error.message(), "Failed to create SMB directory a: full");
}

#[test]
fn answers_to_single_requests_are_read() {
    assert!(opened_for_write("p", Ok(ResourceKind::File)).is_ok());
    assert_eq!(
        opened_for_write("p", Ok(ResourceKind::Directory)).unwrap_err().message(),
        "Expected file resource for p"
    );
    assert_eq!(
        opened_for_write("p", Err("e".to_string())).unwrap_err().message(),
        "Failed to open/create SMB file p: e"
    );
    assert_eq!(
        opened_existing("p", Err("e".to_string())).unwrap_err().message(),
        "Failed to open SMB file p: e"
    );
    assert_eq!(file_size(Some(ResourceKind::File), Ok(9)).unwrap(), 9);
    assert_eq!(file_size(Some(ResourceKind::Directory), Ok(9)).unwrap(), 0);
    assert_eq!(file_size(None, Err("e".to_string())).unwrap(), 0);
    assert_eq!(
        file_size(Some(ResourceKind::File), Err("e".to_string())).unwrap_err().message(),
        "Failed to query SMB file info: e"
    );
    assert!(matches!(opened_for_delete(Ok(ResourceKind::File)), DeleteStep::Mark { is_file: true }));
    assert!(matches!(
        opened_for_delete(Ok(ResourceKind::Directory)),
        DeleteStep::Mark { is_file: false }
    ));
    assert!(matches!(opened_for_delete(Err("Object Not Found".to_string())), DeleteStep::Gone));
    assert!(matches!(
        opened_for_delete(Err("e".to_string())),
        DeleteStep::Fail(AppError::Storage(m)) if m == "Failed to open SMB path for delete: e"
    ));
    assert!(matches!(
        opened_for_delete(Ok(ResourceKind::Other)),
        DeleteStep::Fail(AppError::Storage(m)) if m == "Unexpected SMB resource type for delete"
    ));
    assert_eq!(delete_failure(true, "e").message(), "Failed to delete SMB file: e");
    assert_eq!(delete_failure(false, "e").message(), "Failed to delete SMB directory: e");
    assert_eq!(rename_failure("e").message(), "Failed to rename SMB partial file: e");
}

#[test]
fn pieces_are_at_most_a_megabyte() {
    let length = 2 * SMB_WRITE_CHUNK + 5;
    let first = range_after(100, length, 0);
    assert_eq!((first.from, first.to, first.offset), (0, 1048576, 100));
    let last = range_after(100, length, 2 * SMB_WRITE_CHUNK);
    assert_eq!((last.from, last.to, last.offset), (2097152, 2097157, 2097252));
    assert_eq!(advance(10, 3, 4), 7);
    assert_eq!(advance(10, 3, 7), 10);
    assert_eq!(advance(10, 3, 70), 10);
}

#[test]
fn parts_have_their_place_in_the_file() {
    assert_eq!(offset_of_part(0, 52428800), 0);
    assert_eq!(offset_of_part(204, 52428800), 10695475200);
    assert_eq!(offset_of_part(i32::MAX, i64::MAX), 0);
    assert_eq!(offset_of_part(-1, 2), 0);
    assert_eq!(offset_of_part(-1, 1), u64::MAX);
}

/// Lets a sync write to a file in memory, `taken` bytes at most at once.
fn sync_into(file: &mut Vec<u8>, data: &[u8], number: i32, taken: usize) -> Result<(), String> {
    let mut sync = PartSync::begin(&storage("base"), &upload(11, 6, 2), number, data.len());
    loop {
        match sync.next() {
            SyncAction::Connect => sync.handle(SyncEvent::Connected),
            SyncAction::EnsureDirectories(path) => {
                assert_eq!(path, "base/videos/u_m.mp4.partial");
                sync.handle(SyncEvent::DirectoriesReady);
            }
            SyncAction::Open(address) => {
                assert_eq!(address.path.as_deref(), Some("base/videos/u_m.mp4.partial"));
                sync.handle(SyncEvent::Opened(ResourceKind::File));
            }
            SyncAction::Write(range) => {
                let n = taken.min(range.to - range.from);
                let at = range.offset as usize;
                if file.len() < at + n {
                    file.resize(at + n, 0);
                }
                file[at..at + n].copy_from_slice(&data[range.from..range.from + n]);
                sync.handle(SyncEvent::Wrote(n));
            }
            SyncAction::Close => sync.handle(SyncEvent::Closed),
            SyncAction::Finish { keep_connection } => {
                assert_eq!(keep_connection, sync.outcome().is_ok());
                assert_eq!(sync.keep_connection(), keep_connection);
                return sync.outcome();
            }
        }
    }
}

#[test]
fn synced_parts_make_up_the_file_in_any_order() {
    let mut file = Vec::new();
    sync_into(&mut file, b"world", 1, 2).unwrap();
    sync_into(&mut file, b"hello ", 0, 4).unwrap();
    assert_eq!(file, b"hello world");
    sync_into(&mut file, b"", 0, 4).unwrap();
    let error = sync_into(&mut file, b"x", 0, 0).unwrap_err();
    assert_eq!(error, "write_at returned 0 bytes");
}

#[test]
fn failed_syncs_are_reported() {
    let begin = || PartSync::begin(&storage("base"), &upload(11, 6, 2), 0, 6);
    let mut sync = begin();
    sync.handle(SyncEvent::ConnectFailed("e".to_string()));
    assert_eq!(sync.outcome().unwrap_err(), "Sync client connect failed: e");
    let mut sync = begin();
    sync.handle(SyncEvent::Connected);
    sync.handle(SyncEvent::DirectoriesFailed("e".to_string()));
    assert_eq!(sync.outcome().unwrap_err(), "ensure dirs: e");
    for (event, message) in [
        (SyncEvent::OpenFailed("e".to_string()), "open partial file: e"),
        (SyncEvent::Opened(ResourceKind::Directory), "Expected file resource"),
    ] {
        let mut sync = begin();
        sync.handle(SyncEvent::Connected);
        sync.handle(SyncEvent::DirectoriesReady);
        sync.handle(event);
        assert_eq!(sync.outcome().unwrap_err(), message);
    }
    let mut sync = begin();
    sync.handle(SyncEvent::Connected);
    sync.handle(SyncEvent::DirectoriesReady);
    sync.handle(SyncEvent::Opened(ResourceKind::File));
    sync.handle(SyncEvent::WriteFailed("e".to_string()));
    assert_eq!(sync.outcome().unwrap_err(), "write_at: e");

    let mut bad = storage("base");
    bad.smb_config.unc_path = "nas".to_string();
    let mut sync = PartSync::begin(&bad, &upload(11, 6, 2), 0, 6);
    sync.handle(SyncEvent::Connected);
    sync.handle(SyncEvent::DirectoriesReady);
    assert!(sync.outcome().unwrap_err().starts_with("build UNC: Invalid UNC path nas: "));
    assert_eq!(PartSync::timed_out(), "Background sync timed out after 120s");
}

#[test]
fn parts_must_add_up_to_the_file() {
    let s = storage("");
    let mut check = ReadyCheck::begin(&s, &upload(11, 6, 2));
    assert_eq!(check.next_part().as_deref(), Some("/tmp/parts/u/part_000000"));
    check.answered(Ok(6)).unwrap();
    assert_eq!(check.next_part().as_deref(), Some("/tmp/parts/u/part_000001"));
    check.answered(Ok(5)).unwrap();
    assert_eq!(check.next_part(), None);
    assert_eq!(check.total(), 11);
    assert!(check.finish().is_ok());

    let mut check = ReadyCheck::begin(&s, &upload(11, 6, 1));
    check.answered(Ok(6)).unwrap();
    assert_eq!(
        check.finish().unwrap_err().message(),
        "Finalization verification failed: total parts size mismatch for upload u (expected 11, got 6)"
    );
    let mut check = ReadyCheck::begin(&s, &upload(11, 6, 2));
    assert_eq!(
        check.answered(Err("gone".to_string())).unwrap_err().message(),
        "Finalization verification failed: part 0 missing for upload u: gone"
    );
    assert!(ReadyCheck::begin(&s, &upload(0, 6, -1)).finish().is_ok());
}

/// Runs a finalization against a file in memory. Returns what it did.
fn finalize(
    upload: &Upload,
    parts: &[&[u8]],
    synced: &Vec<bool>,
    file: &mut Vec<u8>,
    taken: usize,
) -> (Vec<String>, Result<String, AppError>) {
    let mut run = SmbFinalization::begin(&storage("base"), upload, synced);
    let mut log = Vec::new();
    let mut data: Vec<u8> = Vec::new();
    loop {
        match run.next() {
            FinalizeAction::Wait(seconds) => {
                log.push(format!("wait {seconds}"));
                run.handle(FinalizeEvent::Waited);
            }
            FinalizeAction::Connect => run.handle(FinalizeEvent::Connected),
            FinalizeAction::Measure(_) => {
                run.handle(FinalizeEvent::Measured(file.len() as u64));
            }
            FinalizeAction::Open(_) => run.handle(FinalizeEvent::Opened),
            FinalizeAction::Read { part_number, path } => {
                assert_eq!(path, format!("/tmp/parts/u/part_{part_number:06}"));
                match parts.get(part_number as usize) {
                    Some(part) => {
                        log.push(format!("read {part_number}"));
                        data = part.to_vec();
                        run.handle(FinalizeEvent::PartRead(data.len()));
                    }
                    None => run.handle(FinalizeEvent::ReadFailed("gone".to_string())),
                }
            }
            FinalizeAction::Write(range) => {
                let n = taken.min(range.to - range.from);
                let at = range.offset as usize;
                if file.len() < at + n {
                    file.resize(at + n, 0);
                }
                file[at..at + n].copy_from_slice(&data[range.from..range.from + n]);
                run.handle(FinalizeEvent::Wrote(n));
            }
            FinalizeAction::Close => run.handle(FinalizeEvent::Closed),
            FinalizeAction::Rename { from, to } => {
                log.push(format!("rename {from} {to}"));
                run.handle(FinalizeEvent::Renamed);
            }
            FinalizeAction::RemoveParts(path) => {
                log.push(format!("remove {path}"));
                run.handle(FinalizeEvent::PartsRemoved);
            }
            FinalizeAction::Finish { keep_connection } => {
                log.push(format!("keep {keep_connection}"));
                return (log, run.into_outcome());
            }
        }
    }
}

const RENAME: &str = "rename base/videos/u_m.mp4.partial base/videos/u_m.mp4";

#[test]
fn complete_partial_file_is_only_renamed() {
    let mut file = b"hello world".to_vec();
    let (log, outcome) = finalize(&upload(11, 6, 2), &[], &vec![true, true], &mut file, 9);
    assert_eq!(log, vec![RENAME, "remove /tmp/parts/u", "keep true"]);
    assert_eq!(outcome.unwrap(), "videos/u_m.mp4");
}

#[test]
fn file_with_a_hole_is_filled_from_the_parts() {
    let parts: [&[u8]; 2] = [b"hello ", b"world"];
    for (synced, read) in [
        (vec![false, true], vec!["read 0", "read 1"]),
        (vec![true, false], vec!["read 1"]),
        (vec![], vec!["read 0", "read 1"]),
    ] {
        let mut file = if synced.first() == Some(&true) {
            b"hello \0\0\0\0\0".to_vec()
        } else {
            b"\0\0\0\0\0\0world".to_vec()
        };
        let (log, outcome) = finalize(&upload(11, 6, 2), &parts, &synced, &mut file, 4);
        assert_eq!(file, b"hello world");
        assert_eq!(&log[..read.len()], &read[..]);
        assert_eq!(&log[read.len()..], &[RENAME, "remove /tmp/parts/u", "keep true"]);
        assert_eq!(outcome.unwrap(), "videos/u_m.mp4");
    }
}

#[test]
fn missing_parts_are_written_from_the_first_that_is_not_there() {
    let parts: [&[u8]; 3] = [b"hello ", b"big wo", b"rld"];
    let all = vec!["read 0", "read 1", "read 2"];
    for (held, synced, skipped) in [
        (0, vec![false, false, false], 0),
        (6, vec![true, false, false], 1),
        (8, vec![true], 1),
        (13, vec![true, true, false], 2),
        (13, vec![true, false, true], 1),
        (6, vec![true, true, true], 1),
    ] {
        for taken in [1, 2, 100] {
            let mut file = b"hello big world"[..held].to_vec();
            let (log, outcome) = finalize(&upload(15, 6, 3), &parts, &synced, &mut file, taken);
            let read = &all[skipped..];
            assert_eq!(file, b"hello big world");
            assert_eq!(&log[..read.len()], read);
            assert_eq!(&log[read.len()..], &[RENAME, "remove /tmp/parts/u", "keep true"]);
            assert_eq!(outcome.unwrap(), "videos/u_m.mp4");
        }
    }
}

#[test]
fn finalization_is_tried_three_times() {
    let mut file = Vec::new();
    let (log, outcome) = finalize(&upload(11, 6, 2), &[b"hello "], &vec![], &mut file, 9);
    assert_eq!(log, vec!["read 0", "wait 2", "wait 4", "keep false"]);
    assert_eq!(
        outcome.unwrap_err().message(),
        "Failed to read part 1 during finalization: gone"
    );
    assert_eq!(file, b"hello ");
}

fn at_writing() -> SmbFinalization {
    let mut run = SmbFinalization::begin(&storage("base"), &upload(11, 6, 2), &vec![true, true]);
    run.handle(FinalizeEvent::Connected);
    run.handle(FinalizeEvent::MeasureFailed);
    run.handle(FinalizeEvent::Opened);
    run.handle(FinalizeEvent::PartRead(6));
    run
}

#[test]
fn finalization_errors_are_reported() {
    let cases: Vec<(FinalizeEvent, &str)> = vec![
        (FinalizeEvent::Wrote(0), "SMB write returned 0 bytes"),
        (FinalizeEvent::WriteFailed("e".to_string()), "SMB write_at failed for part 0: e"),
        (FinalizeEvent::WriteTimedOut, "SMB write timed out for part 0 (60s limit)"),
    ];
    for (event, message) in cases {
        let mut run = at_writing();
        run.handle(event);
        assert!(matches!(run.next(), FinalizeAction::Wait(2)));
        assert_eq!(run.into_outcome().unwrap_err().message(), message);
    }
    let cases: Vec<(FinalizeEvent, &str)> = vec![
        (
            FinalizeEvent::ConnectFailed("e".to_string()),
            "SMB reconnect failed during finalization: e",
        ),
        (FinalizeEvent::ConnectTimedOut, "SMB connection timed out (15s)"),
    ];
    for (event, message) in cases {
        let mut run = SmbFinalization::begin(&storage("base"), &upload(11, 6, 2), &vec![true, true]);
        run.handle(event);
        assert_eq!(run.into_outcome().unwrap_err().message(), message);
    }
    let cases: Vec<(FinalizeEvent, &str)> = vec![
        (FinalizeEvent::OpenFailed("e".to_string()), "Failed to open SMB partial file: e"),
        (FinalizeEvent::OpenTimedOut, "Timeout opening SMB partial file"),
    ];
    for (event, message) in cases {
        let mut run = SmbFinalization::begin(&storage("base"), &upload(11, 6, 2), &vec![true, true]);
        run.handle(FinalizeEvent::Connected);
        run.handle(FinalizeEvent::Measured(10));
        run.handle(event);
        assert_eq!(run.into_outcome().unwrap_err().message(), message);
    }
}

#[test]
fn failed_rename_is_not_tried_again() {
    let cases: Vec<(FinalizeEvent, &str)> = vec![
        (FinalizeEvent::RenameFailed(AppError::Storage("e".to_string())), "e"),
        (FinalizeEvent::RenameTimedOut, "SMB rename timed out (30s)"),
    ];
    for (event, message) in cases {
        let mut run = SmbFinalization::begin(&storage("base"), &upload(11, 6, 2), &vec![true, true]);
        run.handle(FinalizeEvent::Connected);
        run.handle(FinalizeEvent::Measured(11));
        run.handle(event);
        assert!(matches!(run.next(), FinalizeAction::Finish { keep_connection: true }));
        assert_eq!(run.into_outcome().unwrap_err().message(), message);
    }
}

#[test]
fn first_missing_part_is_found_by_size_and_syncs() {
    let begin = |upload: &Upload, synced: Vec<bool>| {
        SmbFinalization::begin(&storage("base"), upload, &synced)
    };
    let run = begin(&upload(11, 6, 2), vec![true, true, true]);
    assert_eq!(run.first_missing_part(0), 0);
    assert_eq!(run.first_missing_part(5), 0);
    assert_eq!(run.first_missing_part(6), 1);
    assert_eq!(run.first_missing_part(600), 2);
    let run = begin(&upload(11, 6, 2), vec![false, true]);
    assert_eq!(run.first_missing_part(11), 0);
    let run = begin(&upload(11, 0, 2), vec![true, true]);
    assert_eq!(run.first_missing_part(6), 0);
    let run = begin(&upload(11, 1, 2), vec![true, true]);
    assert_eq!(run.first_missing_part(4294967296), 2);
    let run = begin(&upload(11, 1, -2), vec![true, true]);
    assert_eq!(run.first_missing_part(9), 0);
    assert_eq!(run.part_offset(), 0);
}

#[test]
fn the_server_is_not_waited_for_without_limit() {
    let mut run = SmbFinalization::begin(&storage("base"), &upload(11, 6, 2), &vec![]);
    assert_eq!(run.limit(), Some(15));
    run.handle(FinalizeEvent::Connected);
    assert_eq!(run.limit(), Some(30));
    run.handle(FinalizeEvent::MeasureFailed);
    assert_eq!(run.limit(), Some(30));
    run.handle(FinalizeEvent::Opened);
    assert_eq!(run.limit(), None);
    run.handle(FinalizeEvent::PartRead(6));
    assert_eq!(run.limit(), Some(60));
    run.handle(FinalizeEvent::Wrote(6));
    run.handle(FinalizeEvent::PartRead(5));
    run.handle(FinalizeEvent::Wrote(5));
    assert!(matches!(run.next(), FinalizeAction::Close));
    assert_eq!(run.limit(), Some(30));
    run.handle(FinalizeEvent::CloseTimedOut);
    assert!(matches!(run.next(), FinalizeAction::Rename { .. }));
    assert_eq!(run.limit(), Some(30));
    run.handle(FinalizeEvent::AttemptTimedOut);
    assert!(matches!(run.next(), FinalizeAction::Finish { keep_connection: true }));

    let mut run = at_writing();
    run.handle(FinalizeEvent::AttemptTimedOut);
    assert!(matches!(run.next(), FinalizeAction::Wait(2)));
    run.handle(FinalizeEvent::Waited);
    run.handle(FinalizeEvent::AttemptTimedOut);
    run.handle(FinalizeEvent::Waited);
    run.handle(FinalizeEvent::AttemptTimedOut);
    assert!(matches!(run.next(), FinalizeAction::Finish { keep_connection: false }));
    assert_eq!(
        run.into_outcome().unwrap_err().message(),
        "SMB finalization attempt timed out (600s)"
    );
}
