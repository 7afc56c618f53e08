use chunked_uploader::storage::local::LocalStorage;
use chunked_uploader::storage::s3::S3Storage;
use chunked_uploader::storage::steps::FileStep;
use chunked_uploader::storage::{build_response_path, sanitize_target_path};
use std::collections::BTreeMap;
use std::path::Path;

/// Files and objects in memory, and the bytes at hand.
struct Disk {
    files: BTreeMap<String, Vec<u8>>,
    objects: BTreeMap<String, Vec<u8>>,
    at_hand: Vec<u8>,
}

impl Disk {
    fn new() -> Disk {
        Disk { files: BTreeMap::new(), objects: BTreeMap::new(), at_hand: Vec::new() }
    }

    fn run(&mut self, steps: &[FileStep]) -> Result<(), String> {
        for step in steps {
            if let Err(error) = self.step(step) {
                if let Some(report) = step.failure(&error) {
                    return Err(report.message());
                }
            }
        }
        Ok(())
    }

    fn step(&mut self, step: &FileStep) -> Result<(), String> {
        let missing = || "no such file".to_string();
        match step {
            FileStep::CreatePartsDirectory { .. } | FileStep::CreateTargetDirectory { .. } => {}
            FileStep::CreatePart { path } | FileStep::CreateStaging { path } => {
                self.files.insert(path.clone(), Vec::new());
            }
            FileStep::WritePart { path } | FileStep::AppendPart { path } => {
                let data = self.at_hand.clone();
                self.files.get_mut(path).ok_or_else(missing)?.extend(data);
            }
            FileStep::FlushPart { path }
            | FileStep::FlushStaging { path }
            | FileStep::Measure { path }
            | FileStep::OpenForUpload { path } => {
                self.files.get(path).ok_or_else(missing)?;
            }
            FileStep::ReadBack { path, .. } | FileStep::ReadPart { path, .. } => {
                self.at_hand = self.files.get(path).ok_or_else(missing)?.clone();
            }
            FileStep::Rename { from, to } => {
                let data = self.files.remove(from).ok_or_else(missing)?;
                self.files.insert(to.clone(), data);
            }
            FileStep::PutObject { key, path, .. } => {
                let data = self.files.get(path).ok_or_else(missing)?.clone();
                self.objects.insert(key.clone(), data);
            }
            FileStep::RemoveStale { path }
            | FileStep::Discard { path }
            | FileStep::RemoveFile { path } => {
                self.files.remove(path);
            }
            FileStep::RemoveParts { path } => {
                let prefix = format!("{path}/");
                self.files.retain(|file, _| !file.starts_with(&prefix));
            }
        }
        Ok(())
    }
}

#[test]
fn assemble_parts_uses_destination_staging_file() {
    let root = "/tmp/chunked-uploader-local";
    let final_root = format!("{root}/final");
    let temp_root = format!("{root}/temp");

    let storage = LocalStorage::new(&final_root, &temp_root);
    let id = "upload-123";
    let target = Some("sermons/2026");

    let expected_final = storage.get_final_file_path(id, "clip.mp4", target);
    let staged_final = LocalStorage::get_assembled_temp_path(&expected_final);

    assert_eq!(Path::new(&staged_final).parent(), Path::new(&expected_final).parent());
    assert_ne!(
        Path::new(&staged_final).parent(),
        Some(Path::new(&storage.parts_root()))
    );

    let mut disk = Disk::new();
    disk.at_hand = b"hello ".to_vec();
    disk.run(&storage.store_part(id, 0)).unwrap();
    disk.at_hand = b"world".to_vec();
    disk.run(&storage.store_part(id, 1)).unwrap();

    let assembly = storage.assemble_parts(id, "clip.mp4", 2, target);
    disk.run(&assembly.steps).unwrap();

    assert_eq!(assembly.final_path, expected_final);
    assert_eq!(disk.files[&expected_final], b"hello world");
    assert!(!disk.files.contains_key(&staged_final));
    let parts_dir = format!("{}/", storage.get_upload_parts_dir(id));
    assert!(!disk.files.keys().any(|path| path.starts_with(&parts_dir)));
    assert_eq!(disk.files.len(), 1);
}

#[test]
fn local_paths_have_their_form() {
    let storage = LocalStorage::new("./uploads", "/tmp");
    assert_eq!(storage.parts_root(), "/tmp/parts");
    assert_eq!(storage.final_root(), "./uploads");
    assert_eq!(storage.get_part_path("u", 7), "/tmp/parts/u/part_000007");
    assert_eq!(storage.get_part_path("u", 1234567), "/tmp/parts/u/part_1234567");
    assert_eq!(storage.get_upload_parts_dir("u"), "/tmp/parts/u");
    assert_eq!(storage.get_final_file_path("u", "m.mp4", None), "./uploads/u_m.mp4");
    assert_eq!(
        storage.get_final_file_path("u", "x/m.mp4", Some("/videos/2024/")),
        "./uploads/videos/2024/u_m.mp4"
    );
    assert_eq!(storage.get_final_file_path("u", "..", Some("///")), "./uploads/u_unnamed");
    assert_eq!(storage.get_final_file_path("u", "m", Some("!!")), "./uploads/u_m");
    assert_eq!(storage.get_final_file_path("u", "m", Some(" /etc")), "./uploads/etc/u_m");
    for (target, path) in [
        ("..", "./uploads/u_m"),
        ("../x", "./uploads/x/u_m"),
        ("a/../b", "./uploads/a/b/u_m"),
        ("..//../x/..", "./uploads/x/u_m"),
        (".!./x", "./uploads/x/u_m"),
        ("a//b/.../..c", "./uploads/a//b/.../..c/u_m"),
    ] {
        assert_eq!(storage.get_final_file_path("u", "m", Some(target)), path);
    }
    assert_eq!(
        LocalStorage::get_assembled_temp_path("./uploads/u_m.mp4"),
        "./uploads/.u_m.mp4.assembling"
    );
    assert_eq!(LocalStorage::get_assembled_temp_path(".."), "../.assembled.assembling");
    assert_eq!(storage.backend_type(), "local");
}

#[test]
fn stored_parts_are_read_back() {
    let storage = LocalStorage::new("./uploads", "/tmp");
    let mut disk = Disk::new();
    for (n, data) in [(0, "zero"), (1, "one"), (0, "again")] {
        disk.at_hand = data.as_bytes().to_vec();
        disk.run(&storage.store_part("u", n)).unwrap();
    }
    disk.run(&[storage.read_part("u", 1)]).unwrap();
    assert_eq!(disk.at_hand, b"one");
    disk.run(&[storage.read_part("u", 0)]).unwrap();
    assert_eq!(disk.at_hand, b"again");
    let missing = disk.run(&[storage.read_part("u", 5)]).unwrap_err();
    assert_eq!(missing, "Failed to read part 5 for upload u: no such file");
    disk.run(&[storage.delete_parts("u")]).unwrap();
    assert!(disk.files.is_empty());
}

#[test]
fn assembly_stops_at_a_missing_part() {
    let storage = LocalStorage::new("./uploads", "/tmp");
    let mut disk = Disk::new();
    disk.at_hand = b"zero".to_vec();
    disk.run(&storage.store_part("u", 0)).unwrap();
    let assembly = storage.assemble_parts("u", "m.mp4", 2, None);
    let error = disk.run(&assembly.steps).unwrap_err();
    assert_eq!(error, "Failed to read part 1 during assembly: no such file");
    assert!(!disk.files.contains_key("./uploads/u_m.mp4"));
    assert!(disk.files.contains_key("/tmp/parts/u/part_000000"));

    disk.files.insert("./uploads/u_m.mp4".to_string(), b"old".to_vec());
    disk.run(&assembly.steps).unwrap_err();
    assert_eq!(disk.files["./uploads/u_m.mp4"], b"old");
    disk.at_hand = b"one".to_vec();
    disk.run(&storage.store_part("u", 1)).unwrap();
    disk.run(&assembly.steps).unwrap();
    assert_eq!(disk.files["./uploads/u_m.mp4"], b"zeroone");
}

#[test]
fn steps_of_an_assembly_come_in_order() {
    let storage = LocalStorage::new("./uploads", "/tmp");
    let assembly = storage.assemble_parts("u", "m.mp4", 1, None);
    let shown: Vec<String> = assembly.steps.iter().map(|s| format!("{s:?}")).collect();
    assert_eq!(shown.len(), 8);
    assert!(shown[0].starts_with("CreateTargetDirectory"));
    assert!(shown[1].starts_with("RemoveStale"));
    assert!(shown[2].starts_with("CreateStaging"));
    assert!(shown[3].starts_with("ReadPart"));
    assert!(shown[4].starts_with("AppendPart"));
    assert!(shown[5].starts_with("FlushStaging"));
    assert!(shown[6].starts_with("Rename"));
    assert!(shown[7].starts_with("RemoveParts"));
    assert_eq!(storage.assemble_parts("u", "m.mp4", -3, None).steps.len(), 6);
}

#[test]
fn failed_steps_are_reported() {
    let path = || "p".to_string();
    let cases = [
        (FileStep::CreatePartsDirectory { path: path() }, "Failed to create upload directory: e"),
        (FileStep::CreatePart { path: path() }, "Failed to create part file: e"),
        (FileStep::WritePart { path: path() }, "Failed to write part data: e"),
        (FileStep::FlushPart { path: path() }, "Failed to flush part data: e"),
        (FileStep::CreateTargetDirectory { path: path() }, "Failed to create target directory: e"),
        (FileStep::RemoveStale { path: path() }, "Failed to remove stale temp assembled file p: e"),
        (FileStep::CreateStaging { path: path() }, "Failed to create temp assembled file: e"),
        (FileStep::AppendPart { path: path() }, "Failed to write to temp assembled file: e"),
        (FileStep::FlushStaging { path: path() }, "Failed to flush temp assembled file: e"),
        (FileStep::Rename { from: path(), to: path() }, "Failed to move assembled file: e"),
        (FileStep::Measure { path: path() }, "Failed to get file size: e"),
        (FileStep::OpenForUpload { path: path() }, "Failed to read assembled file: e"),
        (
            FileStep::PutObject { bucket: path(), key: path(), path: path() },
            "Failed to upload to S3: e",
        ),
        (FileStep::RemoveParts { path: path() }, "Failed to delete parts directory: e"),
        (FileStep::RemoveFile { path: path() }, "Failed to delete file p: e"),
    ];
    for (step, message) in cases {
        let report = step.failure("e").unwrap();
        assert_eq!(report.message(), message);
        assert_eq!(report.status_code(), 500);
    }
    assert!(FileStep::Discard { path: path() }.failure("e").is_none());
}

#[test]
fn target_paths_are_sanitized() {
    assert_eq!(sanitize_target_path("/videos/2024/"), "videos/2024");
    assert_eq!(sanitize_target_path("a b/c!d"), "ab/cd");
    assert_eq!(sanitize_target_path("safe/path_1.x-y"), "safe/path_1.x-y");
    assert_eq!(sanitize_target_path("///"), "");
    assert_eq!(sanitize_target_path("\u{e4}/\u{2603}"), "\u{e4}");
    assert_eq!(sanitize_target_path(" /etc"), "etc");
    assert_eq!(sanitize_target_path("!/a/ "), "a");
}

#[test]
fn response_paths_have_their_form() {
    assert_eq!(build_response_path("u", "m.mp4", None), "files/u_m.mp4");
    assert_eq!(
        build_response_path("u", "a/m.mp4", Some("/videos/2024/")),
        "videos/2024/u_m.mp4"
    );
    assert_eq!(build_response_path("u", "m.mp4", Some("/")), "u_m.mp4");
    assert_eq!(build_response_path("u", "..", None), "files/u_unnamed");
    assert_eq!(build_response_path("u", "m.mp4", Some(" /etc")), "etc/u_m.mp4");
}

#[test]
fn object_keys_have_their_form() {
    let storage = S3Storage::new("bucket", "/tmp");
    assert_eq!(storage.parts_root(), "/tmp/parts");
    assert_eq!(storage.get_final_key("u", "my movie.mp4", None), "files/u_mymovie.mp4");
    assert_eq!(storage.get_final_key("u", "a/b.mp4", Some("/x y/")), "xy/u_ab.mp4");
    assert_eq!(storage.get_final_key("u", "b", Some("!")), "u_b");
    assert_eq!(storage.key_to_delete("s3://bucket/files/u_b"), "files/u_b");
    assert_eq!(storage.key_to_delete("s3://other/files/u_b"), "s3://other/files/u_b");
    assert_eq!(storage.key_to_delete("files/u_b"), "files/u_b");
    assert_eq!(storage.backend_type(), "s3");
    assert_eq!(S3Storage::delete_failure("e").message(), "Failed to delete S3 object: e");
}

#[test]
fn sent_object_is_made_of_the_parts() {
    let storage = S3Storage::new("bucket", "/tmp");
    let mut disk = Disk::new();
    for (n, data) in [(0, "hello "), (1, "world")] {
        disk.at_hand = data.as_bytes().to_vec();
        disk.run(&storage.store_part("u", n)).unwrap();
    }
    disk.run(&[storage.read_part("u", 1)]).unwrap();
    assert_eq!(disk.at_hand, b"world");
    let assembly = storage.assemble_parts("u", "m.mp4", 2, None);
    assert_eq!(assembly.final_path, "s3://bucket/files/u_m.mp4");
    disk.run(&assembly.steps).unwrap();
    assert_eq!(disk.objects["files/u_m.mp4"], b"hello world");
    assert!(disk.files.is_empty());
    assert_eq!(storage.key_to_delete(&assembly.final_path), "files/u_m.mp4");
}
