//! Files in object storage.
//!
//! Parts are kept on the local disk. The finished file is put together there and
//! sent as one object.
use crate::decimal::decimal;
use crate::paths::{join, joined};
use crate::storage::disk::{
    after, below, concatenated, kept, run, steps_follow_each_other, steps_stop_at_a_failure, Disk,
};
use crate::storage::parts::{
    append_steps, appending_concatenates, appending_goes_part_by_part, holds_parts, part_name,
    part_names_are_plain, part_path, part_path_of, push_append_steps, read_step_for, store_steps,
    store_steps_for,
};
use crate::storage::steps::{step_failure, step_views, Assembly, FileStep, StepView};
use crate::storage::{sanitize_target_path, sanitized};
use crate::text::{keep_safe, only_safe, option_str_view, strip_prefix, without_prefix};
use vstd::prelude::*;

verus! {

/// Storage in a bucket, with parts on the local disk.
#[derive(Debug)]
pub struct S3Storage {
    bucket: String,
    parts_path: String,
}

/// An [`S3Storage`] with its texts as sequences of characters.
#[verifier::ext_equal]
pub struct S3View {
    pub bucket: Seq<char>,
    pub parts_path: Seq<char>,
}

impl View for S3Storage {
    type V = S3View;

    closed spec fn view(&self) -> S3View {
        S3View { bucket: self.bucket@, parts_path: self.parts_path@ }
    }
}

/// The key of a finished file.
pub open spec fn object_key(
    upload_id: Seq<char>,
    filename: Seq<char>,
    target_path: Option<Seq<char>>,
) -> Seq<char> {
    let name = upload_id + "_"@ + only_safe(filename, false);
    match target_path {
        Some(path) => if sanitized(path).len() == 0 {
            name
        } else {
            sanitized(path) + "/"@ + name
        },
        None => "files/"@ + name,
    }
}

/// The beginning of the path of every object in a bucket.
pub open spec fn bucket_prefix(bucket: Seq<char>) -> Seq<char> {
    "s3://"@ + bucket + "/"@
}

/// The path under which an object is known outside.
pub open spec fn object_path(bucket: Seq<char>, key: Seq<char>) -> Seq<char> {
    bucket_prefix(bucket) + key
}

/// The key that a path stands for: what follows the bucket's prefix, or all of
/// it.
pub open spec fn key_of_path(bucket: Seq<char>, path: Seq<char>) -> Seq<char> {
    match without_prefix(path, bucket_prefix(bucket)) {
        Some(key) => key,
        None => path,
    }
}

/// The file in which a finished file is put together.
pub open spec fn s3_staging_path(parts_path: Seq<char>, upload_id: Seq<char>) -> Seq<char> {
    joined(parts_path, upload_id + "_assembled.tmp"@)
}

/// The steps after the parts were appended.
pub open spec fn sending_steps(
    storage: S3View,
    upload_id: Seq<char>,
    key: Seq<char>,
) -> Seq<StepView> {
    let staging = s3_staging_path(storage.parts_path, upload_id);
    seq![
        StepView::FlushStaging { path: staging },
        StepView::Measure { path: staging },
        StepView::OpenForUpload { path: staging },
        StepView::PutObject { bucket: storage.bucket, key, path: staging },
        StepView::Discard { path: staging },
        StepView::RemoveParts { path: joined(storage.parts_path, upload_id) },
    ]
}

/// The steps that put a finished file together and send it.
pub open spec fn s3_assembly(
    storage: S3View,
    upload_id: Seq<char>,
    total_parts: int,
    key: Seq<char>,
) -> Seq<StepView> {
    let staging = s3_staging_path(storage.parts_path, upload_id);
    seq![StepView::CreateStaging { path: staging }] + append_steps(
        storage.parts_path,
        upload_id,
        staging,
        total_parts,
    ) + sending_steps(storage, upload_id, key)
}

impl S3Storage {
    /// Storage in this bucket. Parts are kept in the directory `parts` below the
    /// temporary root.
    pub fn new(bucket: &str, temp_storage_path: &str) -> (storage: S3Storage)
        ensures
            storage@.bucket == bucket@,
            storage@.parts_path == joined(temp_storage_path@, "parts"@),
    {
        S3Storage { bucket: bucket.to_owned(), parts_path: join(temp_storage_path, "parts") }
    }

    /// The root of all parts.
    pub fn parts_root(&self) -> (path: String)
        ensures
            path@ == self@.parts_path,
    {
        self.parts_path.clone()
    }

    /// Where a part is kept.
    pub fn get_part_path(&self, upload_id: &str, part_number: i32) -> (path: String)
        ensures
            path@ == part_path(self@.parts_path, upload_id@, part_number as int),
    {
        part_path_of(self.parts_path.as_str(), upload_id, part_number)
    }

    /// The directory of an upload's parts.
    pub fn get_upload_parts_dir(&self, upload_id: &str) -> (path: String)
        ensures
            path@ == joined(self@.parts_path, upload_id@),
    {
        join(self.parts_path.as_str(), upload_id)
    }

    /// The key of a finished file.
    pub fn get_final_key(&self, upload_id: &str, filename: &str, target_path: Option<&str>) -> (key:
        String)
        ensures
            key@ == object_key(upload_id@, filename@, option_str_view(target_path)),
    {
        let safe: String = keep_safe(filename, false);
        let mut name: String = upload_id.to_owned();
        name.append("_");
        name.append(safe.as_str());
        match target_path {
            Some(target) => {
                let clean: String = sanitize_target_path(target);
                if clean.as_str().is_empty() {
                    name
                } else {
                    let mut key: String = clean;
                    key.append("/");
                    key.append(name.as_str());
                    key
                }
            },
            None => {
                let mut key: String = "files/".to_owned();
                key.append(name.as_str());
                key
            },
        }
    }

    /// The beginning of the path of every object in the bucket.
    fn prefix(&self) -> (text: String)
        ensures
            text@ == bucket_prefix(self@.bucket),
    {
        let mut text: String = "s3://".to_owned();
        text.append(self.bucket.as_str());
        text.append("/");
        text
    }

    /// The steps that store a part, with its bytes at hand.
    pub fn store_part(&self, upload_id: &str, part_number: i32) -> (steps: Vec<FileStep>)
        ensures
            step_views(steps@) == store_steps(
                part_path(self@.parts_path, upload_id@, part_number as int),
            ),
    {
        let path: String = self.get_part_path(upload_id, part_number);
        store_steps_for(path.as_str())
    }

    /// The step that reads a part back.
    pub fn read_part(&self, upload_id: &str, part_number: i32) -> (step: FileStep)
        ensures
            step@ == (StepView::ReadBack {
                part_number,
                upload_id: upload_id@,
                path: part_path(self@.parts_path, upload_id@, part_number as int),
            }),
    {
        read_step_for(self.parts_path.as_str(), upload_id, part_number)
    }

    /// The steps that put a finished file together and send it to the bucket.
    pub fn assemble_parts(
        &self,
        upload_id: &str,
        filename: &str,
        total_parts: i32,
        target_path: Option<&str>,
    ) -> (assembly: Assembly)
        ensures
            ({
                let key = object_key(upload_id@, filename@, option_str_view(target_path));
                &&& assembly.final_path@ == object_path(self@.bucket, key)
                &&& step_views(assembly.steps@) == s3_assembly(
                    self@,
                    upload_id@,
                    total_parts as int,
                    key,
                )
            }),
    {
        let key: String = self.get_final_key(upload_id, filename, target_path);
        let mut staging_name: String = upload_id.to_owned();
        staging_name.append("_assembled.tmp");
        let staging: String = join(self.parts_path.as_str(), staging_name.as_str());
        let mut steps: Vec<FileStep> = Vec::new();
        steps.push(FileStep::CreateStaging { path: staging.clone() });
        assert(step_views(steps@) =~= seq![StepView::CreateStaging { path: staging@ }]);
        push_append_steps(
            &mut steps,
            self.parts_path.as_str(),
            upload_id,
            staging.as_str(),
            total_parts,
        );
        let ghost front = step_views(steps@);
        steps.push(FileStep::FlushStaging { path: staging.clone() });
        steps.push(FileStep::Measure { path: staging.clone() });
        steps.push(FileStep::OpenForUpload { path: staging.clone() });
        steps.push(
            FileStep::PutObject {
                bucket: self.bucket.clone(),
                key: key.clone(),
                path: staging.clone(),
            },
        );
        steps.push(FileStep::Discard { path: staging });
        steps.push(FileStep::RemoveParts { path: self.get_upload_parts_dir(upload_id) });
        assert(step_views(steps@) =~= front + sending_steps(self@, upload_id@, key@));
        let mut final_path: String = self.prefix();
        final_path.append(key.as_str());
        Assembly { steps, final_path }
    }

    /// The step that removes an upload's parts.
    pub fn delete_parts(&self, upload_id: &str) -> (step: FileStep)
        ensures
            step@ == (StepView::RemoveParts { path: joined(self@.parts_path, upload_id@) }),
    {
        FileStep::RemoveParts { path: self.get_upload_parts_dir(upload_id) }
    }

    /// The key of the object that a path stands for.
    pub fn key_to_delete(&self, path: &str) -> (key: String)
        ensures
            key@ == key_of_path(self@.bucket, path@),
    {
        let prefix: String = self.prefix();
        match strip_prefix(path, prefix.as_str()) {
            Some(key) => key,
            None => path.to_owned(),
        }
    }

    /// What a failure to remove an object is reported as.
    pub fn delete_failure(error: &str) -> (failure: crate::error::AppError)
        ensures
            failure@ == crate::error::ErrorView::Storage(
                "Failed to delete S3 object: "@ + error@,
            ),
    {
        let mut message: String = "Failed to delete S3 object: ".to_owned();
        message.append(error);
        crate::error::AppError::Storage(message)
    }

    /// The name of this backend.
    pub fn backend_type(&self) -> (name: String)
        ensures
            name@ == "s3"@,
    {
        "s3".to_owned()
    }
}

// ---------------------------------------------------------------------------
// Laws
// ---------------------------------------------------------------------------
/// The path under which an object was stored leads back to its key.
pub proof fn object_paths_lead_back(bucket: Seq<char>, key: Seq<char>)
    ensures
        key_of_path(bucket, object_path(bucket, key)) == key,
{
    let prefix = bucket_prefix(bucket);
    let path = object_path(bucket, key);
    assert(path.subrange(0, prefix.len() as int) =~= prefix);
    assert(path.skip(prefix.len() as int) =~= key);
}

/// Sending a file stores under its key the contents of its parts one after the
/// other. The staging file and the parts are gone, and every other file and
/// object is as it was.
pub proof fn sent_object_concatenates_the_parts(
    storage: S3View,
    upload_id: Seq<char>,
    key: Seq<char>,
    contents: Seq<Seq<u8>>,
    disk: Disk,
)
    requires
        contents.len() <= i32::MAX,
        holds_parts(disk, storage.parts_path, upload_id, contents),
    ensures
        ({
            let steps = s3_assembly(storage, upload_id, contents.len() as int, key);
            let staging = s3_staging_path(storage.parts_path, upload_id);
            let directory = joined(storage.parts_path, upload_id);
            &&& run(steps, disk) is Some
            &&& ({
                let end = run(steps, disk)->0;
                &&& end.objects == disk.objects.insert(key, concatenated(contents))
                &&& !end.files.contains_key(staging)
                &&& forall|path: Seq<char>|
                    below(path, directory) ==> !#[trigger] end.files.contains_key(path)
                &&& forall|path: Seq<char>| #![trigger end.files.contains_key(path)]
                    path != staging && !below(path, directory) ==> kept(path, disk, end)
            })
        }),
{
    let staging = s3_staging_path(storage.parts_path, upload_id);
    let directory = joined(storage.parts_path, upload_id);
    let n = contents.len() as int;
    let opening = seq![StepView::CreateStaging { path: staging }];
    let appending = append_steps(storage.parts_path, upload_id, staging, n);
    let closing = sending_steps(storage, upload_id, key);
    assert(opening.drop_last() =~= Seq::empty());
    let open = after(opening[0], disk)->0;
    assert(run(opening.drop_last(), disk) == Some(disk));
    assert(run(opening, disk) == Some(open));
    assert forall|i: int| 0 <= i < contents.len() implies #[trigger] part_path(
        storage.parts_path,
        upload_id,
        i,
    ) != staging by {
        lemma_staging_is_no_part(storage, upload_id, i);
    }
    assert(holds_parts(open, storage.parts_path, upload_id, contents));
    appending_concatenates(storage.parts_path, upload_id, staging, contents, n, open);
    let full = run(appending, open)->0;
    assert(contents.take(n) =~= contents);
    assert(Seq::<u8>::empty() + concatenated(contents) =~= concatenated(contents));
    steps_follow_each_other(opening, appending, disk);
    steps_follow_each_other(opening + appending, closing, disk);
    lemma_sending(storage, upload_id, key, full);
}

/// Sending the staging file stores its bytes under the key and removes the
/// staging file and the parts.
proof fn lemma_sending(storage: S3View, upload_id: Seq<char>, key: Seq<char>, full: Disk)
    requires
        full.files.contains_key(s3_staging_path(storage.parts_path, upload_id)),
    ensures
        ({
            let staging = s3_staging_path(storage.parts_path, upload_id);
            let directory = joined(storage.parts_path, upload_id);
            run(sending_steps(storage, upload_id, key), full) matches Some(end) && {
                &&& end.objects == full.objects.insert(key, full.files[staging])
                &&& !end.files.contains_key(staging)
                &&& forall|path: Seq<char>|
                    below(path, directory) ==> !#[trigger] end.files.contains_key(path)
                &&& forall|path: Seq<char>| #![trigger end.files.contains_key(path)]
                    path != staging && !below(path, directory) ==> kept(path, full, end)
            }
        }),
{
    let closing = sending_steps(storage, upload_id, key);
    reveal_with_fuel(run, 7);
    assert(closing.drop_last().drop_last().drop_last().drop_last().drop_last().drop_last()
        =~= Seq::empty());
    let sent = after(closing[3], full)->0;
    let tidied = after(closing[4], sent)->0;
    let end = after(closing[5], tidied)->0;
    assert(run(closing, full) == Some(end));
}

proof fn lemma_staging_is_no_part(storage: S3View, upload_id: Seq<char>, i: int)
    requires
        i >= 0,
    ensures
        part_path(storage.parts_path, upload_id, i) != s3_staging_path(
            storage.parts_path,
            upload_id,
        ),
{
    reveal_strlit("_assembled.tmp");
    part_names_are_plain(i as nat);
    let path = part_path(storage.parts_path, upload_id, i);
    let staging = s3_staging_path(storage.parts_path, upload_id);
    assert(path.last() == part_name(i).last());
    assert(staging.last() == 'p');
}

/// What a failed assembly leaves. Where parts are missing, the least of them
/// being `k`, nothing is sent: the work stops at the step that reads that part,
/// the report names it, and no file but the staging file has changed.
pub proof fn nothing_is_sent_while_parts_are_missing(
    storage: S3View,
    upload_id: Seq<char>,
    key: Seq<char>,
    front: Seq<Seq<u8>>,
    total_parts: int,
    error: Seq<char>,
    disk: Disk,
)
    requires
        front.len() < total_parts <= i32::MAX,
        holds_parts(disk, storage.parts_path, upload_id, front),
        !disk.files.contains_key(
            part_path(storage.parts_path, upload_id, front.len() as int),
        ),
    ensures
        ({
            let k = front.len() as int;
            let steps = s3_assembly(storage, upload_id, total_parts, key);
            let staging = s3_staging_path(storage.parts_path, upload_id);
            let stop = 1 + 2 * k;
            &&& stop < steps.len()
            &&& run(steps, disk) is None
            &&& run(steps.take(stop), disk) matches Some(end) && {
                &&& after(steps[stop], end) is None
                &&& end.objects == disk.objects
                &&& forall|path: Seq<char>| #![trigger end.files.contains_key(path)]
                    path != staging ==> kept(path, disk, end)
                &&& forall|i: int|
                    i >= 0 ==> kept(
                        #[trigger] part_path(storage.parts_path, upload_id, i),
                        disk,
                        end,
                    )
            }
            &&& step_failure(steps[stop], error) == Some(
                crate::error::ErrorView::Storage(
                    "Failed to read part "@ + decimal(k) + " during assembly: "@ + error,
                ),
            )
        }),
{
    let root = storage.parts_path;
    let k = front.len() as int;
    let staging = s3_staging_path(root, upload_id);
    let opening = seq![StepView::CreateStaging { path: staging }];
    let appending = append_steps(root, upload_id, staging, total_parts);
    let steps = s3_assembly(storage, upload_id, total_parts, key);
    let stop = 1 + 2 * k;
    appending_goes_part_by_part(root, upload_id, staging, k, total_parts);
    let done = append_steps(root, upload_id, staging, k);
    assert(steps.take(stop) =~= opening + done);
    assert(steps[stop] == appending[2 * k]);
    assert(opening.drop_last() =~= Seq::empty());
    let open = after(opening[0], disk)->0;
    assert(run(opening.drop_last(), disk) == Some(disk));
    assert(run(opening, disk) == Some(open));
    assert forall|i: int| i >= 0 implies #[trigger] part_path(root, upload_id, i) != staging by {
        lemma_staging_is_no_part(storage, upload_id, i);
    }
    assert(front.take(k) =~= front);
    appending_concatenates(root, upload_id, staging, front, k, open);
    steps_follow_each_other(opening, done, disk);
    steps_stop_at_a_failure(steps, disk, stop);
}

} // verus!
