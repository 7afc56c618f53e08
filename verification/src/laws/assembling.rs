//! How parts are kept and put together.
use crate::decimal::decimal;
use crate::error::{AppError, ErrorView};
use crate::laws::naming::names_a_file;
use crate::paths::{joined, joining_sets_the_file_name, parent, tidy};
use crate::storage::disk::{after, below, concatenated, kept, run, Disk};
use crate::storage::local::{assembly_concatenates_the_parts, opening_steps, LocalStorage};
use crate::storage::parts::{
    append_steps, holds_parts, part_name, part_path_of, store_steps, storing_writes_one_file,
};
use crate::storage::s3::{object_paths_lead_back, sent_object_concatenates_the_parts, S3Storage};
use crate::storage::smb::SmbStorage;
use crate::storage::steps::{failure_prefix, step_views, Assembly, FileStep, StepView};
use vstd::prelude::*;

verus! {

// ---------------------------------------------------------------------------
// Parts
// ---------------------------------------------------------------------------
/// A part is kept below the root of all parts, in a directory with the upload's
/// id, under the name `part_` and its number, which is filled up to six digits
/// with zeros.
pub proof fn parts_are_kept_by_id_and_number(
    root: &str,
    upload_id: &str,
    part_number: i32,
    path: String,
)
    requires
        call_ensures(part_path_of, (root, upload_id, part_number), path),
        part_number >= 0,
        root@.len() > 0,
        root@.last() != '/',
        upload_id@.len() > 0,
        upload_id@[0] != '/',
        upload_id@.last() != '/',
    ensures
        ({
            let number = decimal(part_number as int);
            let fill = if number.len() < 6 {
                (6 - number.len()) as nat
            } else {
                0nat
            };
            path@ == root@ + "/"@ + upload_id@ + "/part_"@ + Seq::new(fill, |i: int| '0') + number
        }),
{
    reveal_strlit("/");
    reveal_strlit("part_");
    reveal_strlit("/part_");
    let number = decimal(part_number as int);
    let fill = if number.len() < 6 {
        (6 - number.len()) as nat
    } else {
        0nat
    };
    let zeros = Seq::new(fill, |i: int| '0');
    assert(part_name(part_number as int) =~= "part_"@ + zeros + number);
    let directory = joined(root@, upload_id@);
    assert(directory =~= root@ + "/"@ + upload_id@);
    assert(directory.last() == upload_id@.last());
    assert(part_name(part_number as int)[0] == 'p');
    assert(joined(directory, part_name(part_number as int)) =~= root@ + "/"@ + upload_id@
        + "/part_"@ + zeros + number);
}

/// Each backend keeps a part in one file: storing it leaves the bytes at hand
/// there and no other file changed, after its directory was made; reading it back
/// gives those bytes.
pub proof fn stored_parts_are_read_back_unchanged(
    local: &LocalStorage,
    s3: &S3Storage,
    smb: &SmbStorage,
    upload_id: &str,
    part_number: i32,
    paths: (String, String, String),
    stores: (Vec<FileStep>, Vec<FileStep>, Vec<FileStep>),
    reads: (FileStep, FileStep, FileStep),
    disk: Disk,
)
    requires
        call_ensures(LocalStorage::get_part_path, (local, upload_id, part_number), paths.0),
        call_ensures(S3Storage::get_part_path, (s3, upload_id, part_number), paths.1),
        call_ensures(SmbStorage::get_local_part_path, (smb, upload_id, part_number), paths.2),
        call_ensures(LocalStorage::store_part, (local, upload_id, part_number), stores.0),
        call_ensures(S3Storage::store_part, (s3, upload_id, part_number), stores.1),
        call_ensures(SmbStorage::store_part, (smb, upload_id, part_number), stores.2),
        call_ensures(LocalStorage::read_part, (local, upload_id, part_number), reads.0),
        call_ensures(S3Storage::read_part, (s3, upload_id, part_number), reads.1),
        call_ensures(SmbStorage::read_part, (smb, upload_id, part_number), reads.2),
    ensures
        is_stored_and_read(paths.0@, step_views(stores.0@), reads.0@, disk),
        is_stored_and_read(paths.1@, step_views(stores.1@), reads.1@, disk),
        is_stored_and_read(paths.2@, step_views(stores.2@), reads.2@, disk),
{
    lemma_stored_and_read(paths.0@, reads.0@, disk);
    lemma_stored_and_read(paths.1@, reads.1@, disk);
    lemma_stored_and_read(paths.2@, reads.2@, disk);
}

/// The steps store the bytes at hand in the file at `path`, and the reading gives
/// them back.
pub open spec fn is_stored_and_read(
    path: Seq<char>,
    store: Seq<StepView>,
    read: StepView,
    disk: Disk,
) -> bool {
    &&& run(store, disk) matches Some(end) && {
        &&& end.files == disk.files.insert(path, disk.at_hand)
        &&& end.objects == disk.objects
        &&& forall|other: Seq<u8>|
            after(read, #[trigger] with_at_hand(end, other)) matches Some(d) && d.at_hand
                == disk.at_hand && d.files == end.files
    }
    &&& parent(path) matches Some(directory) ==> store.len() > 0 && store[0] == (
    StepView::CreatePartsDirectory { path: directory })
    &&& store.last() == (StepView::FlushPart { path })
}

/// The disk with other bytes at hand.
pub open spec fn with_at_hand(disk: Disk, bytes: Seq<u8>) -> Disk {
    Disk { at_hand: bytes, ..disk }
}

proof fn lemma_stored_and_read(path: Seq<char>, read: StepView, disk: Disk)
    requires
        read matches StepView::ReadBack { path: p, .. } && p == path,
    ensures
        is_stored_and_read(path, store_steps(path), read, disk),
{
    storing_writes_one_file(path, disk);
}

/// The directory of an upload's parts holds each of them, and removing the parts
/// removes what is in that directory and nothing else.
pub proof fn removing_the_parts_takes_their_directory(
    local: &LocalStorage,
    s3: &S3Storage,
    smb: &SmbStorage,
    upload_id: &str,
    directories: (String, String, String),
    steps: (FileStep, FileStep, FileStep),
    disk: Disk,
)
    requires
        call_ensures(LocalStorage::get_upload_parts_dir, (local, upload_id), directories.0),
        call_ensures(S3Storage::get_upload_parts_dir, (s3, upload_id), directories.1),
        call_ensures(SmbStorage::get_upload_parts_dir, (smb, upload_id), directories.2),
        call_ensures(LocalStorage::delete_parts, (local, upload_id), steps.0),
        call_ensures(S3Storage::delete_parts, (s3, upload_id), steps.1),
        call_ensures(SmbStorage::delete_parts, (smb, upload_id), steps.2),
    ensures
        takes_the_directory(steps.0@, directories.0@, disk),
        takes_the_directory(steps.1@, directories.1@, disk),
        takes_the_directory(steps.2@, directories.2@, disk),
{
}

/// The step removes every file below the directory and leaves every other.
pub open spec fn takes_the_directory(step: StepView, directory: Seq<char>, disk: Disk) -> bool {
    after(step, disk) matches Some(end) && {
        &&& end.objects == disk.objects
        &&& forall|path: Seq<char>| #![trigger end.files.contains_key(path)]
            if below(path, directory) {
                !end.files.contains_key(path)
            } else {
                kept(path, disk, end)
            }
    }
}

/// Removing a finished file from the local disk removes that file and no other.
pub proof fn removing_a_file_takes_it_alone(
    local: &LocalStorage,
    path: &str,
    step: FileStep,
    disk: Disk,
)
    requires
        call_ensures(LocalStorage::delete_file, (local, path), step),
    ensures
        disk.files.contains_key(path@) ==> (after(step@, disk) matches Some(end) && end.files
            == disk.files.remove(path@) && end.objects == disk.objects),
{
}

// ---------------------------------------------------------------------------
// Files on the local disk
// ---------------------------------------------------------------------------
/// Putting a file together on the local disk leaves, at the very path where it is
/// kept and that is given back, its parts one after the other. The parts are gone
/// and every file but the staging file is as it was.
pub proof fn local_files_are_the_parts_in_order(
    storage: &LocalStorage,
    upload_id: &str,
    filename: &str,
    total_parts: i32,
    target_path: Option<&str>,
    assembly: Assembly,
    path: String,
    place: &str,
    staging: String,
    contents: Seq<Seq<u8>>,
    disk: Disk,
)
    requires
        call_ensures(
            LocalStorage::assemble_parts,
            (storage, upload_id, filename, total_parts, target_path),
            assembly,
        ),
        call_ensures(
            LocalStorage::get_final_file_path,
            (storage, upload_id, filename, target_path),
            path,
        ),
        place@ == path@,
        call_ensures(LocalStorage::get_assembled_temp_path, (place,), staging),
        contents.len() == total_parts,
        holds_parts(disk, storage@.parts_path, upload_id@, contents),
        !below(path@, joined(storage@.parts_path, upload_id@)),
    ensures
        assembly.final_path@ == path@,
        run(step_views(assembly.steps@), disk) matches Some(end) && {
            &&& end.files.contains_key(path@)
            &&& end.files[path@] == concatenated(contents)
            &&& end.objects == disk.objects
            &&& forall|other: Seq<char>| #![trigger end.files.contains_key(other)]
                below(other, joined(storage@.parts_path, upload_id@)) ==> !end.files.contains_key(
                    other,
                )
            &&& forall|other: Seq<char>| #![trigger end.files.contains_key(other)]
                other != path@ && other != staging@ && !below(
                    other,
                    joined(storage@.parts_path, upload_id@),
                ) ==> kept(other, disk, end)
        },
{
    assembly_concatenates_the_parts(storage@, upload_id@, path@, contents, disk);
}

/// The directory of the file is made first. The file is moved into place only after
/// the staging file was flushed, and the parts are removed last.
pub proof fn local_files_are_moved_into_place_when_whole(
    storage: &LocalStorage,
    upload_id: &str,
    filename: &str,
    total_parts: i32,
    target_path: Option<&str>,
    assembly: Assembly,
    place: &str,
    staging: String,
)
    requires
        call_ensures(
            LocalStorage::assemble_parts,
            (storage, upload_id, filename, total_parts, target_path),
            assembly,
        ),
        place@ == assembly.final_path@,
        call_ensures(LocalStorage::get_assembled_temp_path, (place,), staging),
    ensures
        ({
            let steps = step_views(assembly.steps@);
            let n = steps.len();
            &&& n >= 5
            &&& parent(place@) matches Some(directory) ==> steps[0] == (
            StepView::CreateTargetDirectory { path: directory })
            &&& steps[n - 3] == (StepView::FlushStaging { path: staging@ })
            &&& steps[n - 2] == (StepView::Rename { from: staging@, to: place@ })
            &&& steps[n - 1] == (StepView::RemoveParts {
                path: joined(storage@.parts_path, upload_id@),
            })
            &&& forall|i: int| 0 <= i < n && (#[trigger] steps[i]) is Rename ==> i == n - 2
        }),
{
    let front = opening_steps(place@);
    let middle = append_steps(
        storage@.parts_path,
        upload_id@,
        staging@,
        total_parts as int,
    );
    let steps = step_views(assembly.steps@);
    lemma_appending_renames_nothing(
        storage@.parts_path,
        upload_id@,
        staging@,
        total_parts as int,
    );
    assert forall|i: int| 0 <= i < steps.len() && (#[trigger] steps[i]) is Rename implies i
        == steps.len() - 2 by {
        if i < front.len() {
            assert(steps[i] == front[i]);
        } else if i < front.len() + middle.len() {
            assert(steps[i] == middle[i - front.len()]);
        }
    }
}

proof fn lemma_appending_renames_nothing(
    root: Seq<char>,
    upload_id: Seq<char>,
    staging: Seq<char>,
    n: int,
)
    ensures
        forall|i: int|
            0 <= i < append_steps(root, upload_id, staging, n).len() ==> {
                let step = #[trigger] append_steps(root, upload_id, staging, n)[i];
                step is ReadPart || step is AppendPart
            },
    decreases n,
{
    if n > 0 {
        lemma_appending_renames_nothing(root, upload_id, staging, n - 1);
        let before = append_steps(root, upload_id, staging, n - 1);
        let all = append_steps(root, upload_id, staging, n);
        assert forall|i: int| 0 <= i < all.len() implies ({
            let step = #[trigger] all[i];
            step is ReadPart || step is AppendPart
        }) by {
            if i < before.len() {
                assert(all[i] == before[i]);
            }
        }
    }
}

/// The staging file stands beside the file that it becomes, as a hidden file whose
/// name ends with `.assembling`.
pub proof fn staging_files_are_hidden_neighbours(
    directory: Seq<char>,
    name: Seq<char>,
    place: &str,
    staging: String,
)
    requires
        place@ == directory + "/"@ + name,
        directory.len() > 0,
        directory.last() != '/',
        directory.len() >= 2 ==> !(directory.last() == '.' && directory[directory.len() - 2]
            == '/'),
        names_a_file(name),
        call_ensures(LocalStorage::get_assembled_temp_path, (place,), staging),
    ensures
        staging@ == directory + "/."@ + name + ".assembling"@,
{
    reveal_strlit("/");
    reveal_strlit(".");
    reveal_strlit("/.");
    reveal_strlit(".assembling");
    assert(joined(directory, name) =~= directory + "/"@ + name);
    joining_sets_the_file_name(directory, name);
    let open = joined(directory, Seq::empty());
    assert(open =~= directory.push('/'));
    assert(open.drop_last() =~= directory);
    assert(tidy(directory) == directory);
    assert(tidy(open) == tidy(open.drop_last()));
    let hidden = "."@ + name + ".assembling"@;
    assert(hidden[0] == '.');
    assert(joined(directory, hidden) =~= directory + "/."@ + name + ".assembling"@);
}

// ---------------------------------------------------------------------------
// Files in object storage
// ---------------------------------------------------------------------------
/// Sending a file puts its parts, one after the other, into the storage's own
/// bucket under the key of the file, and gives back `s3://<bucket>/<key>`. From
/// that path the key is found again. The parts are gone and every other object and
/// every file but the staging file is as it was.
pub proof fn sent_files_are_the_parts_in_order(
    storage: &S3Storage,
    upload_id: &str,
    filename: &str,
    total_parts: i32,
    target_path: Option<&str>,
    assembly: Assembly,
    key: String,
    place: &str,
    found: String,
    contents: Seq<Seq<u8>>,
    disk: Disk,
)
    requires
        call_ensures(
            S3Storage::assemble_parts,
            (storage, upload_id, filename, total_parts, target_path),
            assembly,
        ),
        call_ensures(S3Storage::get_final_key, (storage, upload_id, filename, target_path), key),
        place@ == assembly.final_path@,
        call_ensures(S3Storage::key_to_delete, (storage, place), found),
        contents.len() == total_parts,
        holds_parts(disk, storage@.parts_path, upload_id@, contents),
    ensures
        assembly.final_path@ == "s3://"@ + storage@.bucket + "/"@ + key@,
        found@ == key@,
        run(step_views(assembly.steps@), disk) matches Some(end) && {
            &&& end.objects == disk.objects.insert(key@, concatenated(contents))
            &&& forall|other: Seq<char>| #![trigger end.files.contains_key(other)]
                below(other, joined(storage@.parts_path, upload_id@)) ==> !end.files.contains_key(
                    other,
                )
            &&& forall|other: Seq<char>| #![trigger end.files.contains_key(other)]
                other != joined(storage@.parts_path, upload_id@ + "_assembled.tmp"@) && !below(
                    other,
                    joined(storage@.parts_path, upload_id@),
                ) ==> kept(other, disk, end)
        },
        ({
            let steps = step_views(assembly.steps@);
            let n = steps.len();
            let staging = joined(storage@.parts_path, upload_id@ + "_assembled.tmp"@);
            &&& n >= 7
            &&& steps[n - 6] == (StepView::FlushStaging { path: staging })
            &&& steps[n - 3] == (StepView::PutObject {
                bucket: storage@.bucket,
                key: key@,
                path: staging,
            })
            &&& steps[n - 1] == (StepView::RemoveParts {
                path: joined(storage@.parts_path, upload_id@),
            })
        }),
{
    sent_object_concatenates_the_parts(storage@, upload_id@, key@, contents, disk);
    object_paths_lead_back(storage@.bucket, key@);
}

/// A path that does not begin with the bucket's own prefix is itself the key.
pub proof fn other_paths_are_their_own_keys(storage: &S3Storage, path: &str, key: String)
    requires
        call_ensures(S3Storage::key_to_delete, (storage, path), key),
    ensures
        !("s3://"@ + storage@.bucket + "/"@).is_prefix_of(path@) ==> key@ == path@,
        forall|rest: Seq<char>|
            path@ == #[trigger] ("s3://"@ + storage@.bucket + "/"@ + rest) ==> key@ == rest,
{
    let prefix = "s3://"@ + storage@.bucket + "/"@;
    assert forall|rest: Seq<char>|
        path@ == #[trigger] ("s3://"@ + storage@.bucket + "/"@ + rest) implies key@ == rest by {
        assert(path@.take(prefix.len() as int) =~= prefix);
        assert(path@.skip(prefix.len() as int) =~= rest);
    }
}

// ---------------------------------------------------------------------------
// Backends
// ---------------------------------------------------------------------------
/// Each backend keeps its parts in `parts` below the directory for temporary
/// files, and what it was told besides.
pub proof fn backends_are_set_up_as_told(
    root: &str,
    temp: &str,
    bucket: &str,
    local: LocalStorage,
    s3: S3Storage,
)
    requires
        call_ensures(LocalStorage::new, (root, temp), local),
        call_ensures(S3Storage::new, (bucket, temp), s3),
        temp@.len() > 0,
        temp@.last() != '/',
    ensures
        local@.final_path == root@,
        local@.parts_path == temp@ + "/parts"@,
        s3@.bucket == bucket@,
        s3@.parts_path == temp@ + "/parts"@,
{
    reveal_strlit("parts");
    reveal_strlit("/parts");
    assert(joined(temp@, "parts"@) =~= temp@ + "/parts"@);
}

/// The backends go by the names `local`, `smb` and `s3`.
pub proof fn backends_have_names(
    local: &LocalStorage,
    smb: &SmbStorage,
    s3: &S3Storage,
    names: (String, String, String),
)
    requires
        call_ensures(LocalStorage::backend_type, (local,), names.0),
        call_ensures(SmbStorage::backend_type, (smb,), names.1),
        call_ensures(S3Storage::backend_type, (s3,), names.2),
    ensures
        names.0@ == "local"@,
        names.1@ == "smb"@,
        names.2@ == "s3"@,
{
}

/// A failed step is reported as a failure of the storage, with its reason at the
/// end; only that a staging file could not be discarded is not. Of a part that
/// could not be read the report names the number.
pub proof fn failed_steps_are_reported(step: &FileStep, error: &str, report: Option<AppError>)
    requires
        call_ensures(FileStep::failure, (step, error), report),
    ensures
        report is None == step@ is Discard,
        report matches Some(e) ==> e@ is Storage && error@.is_suffix_of(e@->Storage_0),
        step@ matches StepView::ReadPart { part_number, .. } ==> (report matches Some(e) && e@
            == ErrorView::Storage(
            "Failed to read part "@ + decimal(part_number as int) + " during assembly: "@ + error@,
        )),
        step@ matches StepView::ReadBack { part_number, upload_id, .. } ==> (report matches Some(
            e,
        ) && e@ == ErrorView::Storage(
            "Failed to read part "@ + decimal(part_number as int) + " for upload "@ + upload_id
                + ": "@ + error@,
        )),
{
    if report is Some {
        let message = report->0@->Storage_0;
        let prefix = failure_prefix(step@)->0;
        assert(message == prefix + error@);
        assert(message.subrange(message.len() - error@.len(), message.len() as int) =~= error@);
    }
}

/// What a failure to remove an object is reported as ends with the reason.
pub proof fn failed_removals_are_reported(error: &str, failure: AppError)
    requires
        call_ensures(S3Storage::delete_failure, (error,), failure),
    ensures
        failure@ == ErrorView::Storage("Failed to delete S3 object: "@ + error@),
{
}

/// What each step was to do is said in the report of its failure.
pub proof fn reports_say_what_was_to_be_done(
    step: &FileStep,
    error: &str,
    report: Option<AppError>,
)
    requires
        call_ensures(FileStep::failure, (step, error), report),
        step@ !is Discard,
    ensures
        step@ is CreatePartsDirectory ==> report->0@ == ErrorView::Storage(
            "Failed to create upload directory: "@ + error@,
        ),
        step@ is CreatePart ==> report->0@ == ErrorView::Storage(
            "Failed to create part file: "@ + error@,
        ),
        step@ is WritePart ==> report->0@ == ErrorView::Storage(
            "Failed to write part data: "@ + error@,
        ),
        step@ is FlushPart ==> report->0@ == ErrorView::Storage(
            "Failed to flush part data: "@ + error@,
        ),
        step@ is CreateTargetDirectory ==> report->0@ == ErrorView::Storage(
            "Failed to create target directory: "@ + error@,
        ),
        step@ matches StepView::RemoveStale { path } ==> report->0@ == ErrorView::Storage(
            "Failed to remove stale temp assembled file "@ + path + ": "@ + error@,
        ),
        step@ is CreateStaging ==> report->0@ == ErrorView::Storage(
            "Failed to create temp assembled file: "@ + error@,
        ),
        step@ is AppendPart ==> report->0@ == ErrorView::Storage(
            "Failed to write to temp assembled file: "@ + error@,
        ),
        step@ is FlushStaging ==> report->0@ == ErrorView::Storage(
            "Failed to flush temp assembled file: "@ + error@,
        ),
        step@ is Rename ==> report->0@ == ErrorView::Storage(
            "Failed to move assembled file: "@ + error@,
        ),
        step@ is Measure ==> report->0@ == ErrorView::Storage(
            "Failed to get file size: "@ + error@,
        ),
        step@ is OpenForUpload ==> report->0@ == ErrorView::Storage(
            "Failed to read assembled file: "@ + error@,
        ),
        step@ is PutObject ==> report->0@ == ErrorView::Storage(
            "Failed to upload to S3: "@ + error@,
        ),
        step@ is RemoveParts ==> report->0@ == ErrorView::Storage(
            "Failed to delete parts directory: "@ + error@,
        ),
        step@ matches StepView::RemoveFile { path } ==> report->0@ == ErrorView::Storage(
            "Failed to delete file "@ + path + ": "@ + error@,
        ),
{
}

/// A backend tells its roots as it was given them.
pub proof fn backends_tell_their_roots(
    local: &LocalStorage,
    s3: &S3Storage,
    roots: (String, String, String),
)
    requires
        call_ensures(LocalStorage::parts_root, (local,), roots.0),
        call_ensures(LocalStorage::final_root, (local,), roots.1),
        call_ensures(S3Storage::parts_root, (s3,), roots.2),
    ensures
        roots.0@ == local@.parts_path,
        roots.1@ == local@.final_path,
        roots.2@ == s3@.parts_path,
{
}

/// The number of a part is written with its sign, should it have one, before the
/// zeros.
pub proof fn signs_stand_before_the_number(
    root: &str,
    upload_id: &str,
    part_number: i32,
    path: String,
)
    requires
        call_ensures(part_path_of, (root, upload_id, part_number), path),
        part_number < 0,
        root@.len() > 0,
        root@.last() != '/',
        upload_id@.len() > 0,
        upload_id@[0] != '/',
        upload_id@.last() != '/',
    ensures
        ({
            let number = decimal(-(part_number as int));
            let fill = if number.len() < 5 {
                (5 - number.len()) as nat
            } else {
                0nat
            };
            path@ == root@ + "/"@ + upload_id@ + "/part_-"@ + Seq::new(fill, |i: int| '0') + number
        }),
{
    reveal_strlit("/");
    reveal_strlit("part_");
    reveal_strlit("/part_-");
    let number = decimal(-(part_number as int));
    let fill = if number.len() < 5 {
        (5 - number.len()) as nat
    } else {
        0nat
    };
    let zeros = Seq::new(fill, |i: int| '0');
    let name = part_name(part_number as int);
    assert(name =~= "part_"@ + seq!['-'] + zeros + number);
    let directory = joined(root@, upload_id@);
    assert(directory =~= root@ + "/"@ + upload_id@);
    assert(directory.last() == upload_id@.last());
    assert(name[0] == 'p');
    assert(joined(directory, name) =~= root@ + "/"@ + upload_id@ + "/part_-"@ + zeros + number);
}

} // verus!
