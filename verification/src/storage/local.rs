//! Files on the local disk.
use crate::decimal::decimal;
use crate::digest::is_hex_digit;
use crate::error::ErrorView;
use crate::ids::is_uuid_text;
use crate::paths::{
    components_come_from_either_side, drop_parents, file_name, file_name_of, file_names_are_plain,
    has_component, is_component, is_plain_name, join, joined, joining_sets_the_file_name,
    no_parents_are_left, parent, parent_name, parent_of, paths_without_parents_stay, renamed, tidy,
    tidy_is_a_front_part, trimming_adds_no_component, with_file_name, without_parents,
};
use crate::storage::disk::{
    after, below, concatenated, kept, run, steps_follow_each_other, steps_stop_at_a_failure, Disk,
};
use crate::storage::parts::{
    append_steps, appending_concatenates, appending_goes_part_by_part, holds_parts,
    part_names_are_plain, part_path, part_path_of, push_append_steps, read_step_for, store_steps,
    store_steps_for, storing_the_missing_parts_completes_them, with_parts_stored,
};
use crate::storage::steps::{step_failure, step_views, Assembly, FileStep, StepView};
use crate::storage::{
    build_stored_name, sanitize_target_path, sanitized, sanitized_paths_are_bare, stored_name,
};
use crate::text::{
    option_str_view, trim_separators, trimmed, trimmed_has_no_outer_separator,
    trimming_keeps_a_bare_text,
};
use vstd::prelude::*;

verus! {

/// Storage on the local disk: parts on a fast disk, finished files elsewhere.
#[derive(Debug)]
pub struct LocalStorage {
    parts_path: String,
    final_path: String,
}

/// The two roots of a [`LocalStorage`].
#[verifier::ext_equal]
pub struct LocalView {
    pub parts_path: Seq<char>,
    pub final_path: Seq<char>,
}

impl View for LocalStorage {
    type V = LocalView;

    closed spec fn view(&self) -> LocalView {
        LocalView { parts_path: self.parts_path@, final_path: self.final_path@ }
    }
}

/// The directory that a target path names below the root: the sanitized path
/// without its `..` components.
pub open spec fn directory_below_root(target_path: Seq<char>) -> Seq<char> {
    trimmed(without_parents(sanitized(target_path)), false)
}

/// Where a finished file is kept.
pub open spec fn final_file_path(
    root: Seq<char>,
    upload_id: Seq<char>,
    filename: Seq<char>,
    target_path: Option<Seq<char>>,
) -> Seq<char> {
    let name = stored_name(upload_id, filename);
    match target_path {
        Some(path) => if directory_below_root(path).len() == 0 {
            joined(root, name)
        } else {
            joined(joined(root, directory_below_root(path)), name)
        },
        None => joined(root, name),
    }
}

/// The name of the file in which a finished file is put together.
pub open spec fn staging_name(final_path: Seq<char>) -> Seq<char> {
    "."@ + match file_name(final_path) {
        Some(name) => name,
        None => "assembled"@,
    } + ".assembling"@
}

/// The file in which a finished file is put together: beside it, so that moving
/// it into place stays on one device.
pub open spec fn staging_path(final_path: Seq<char>) -> Seq<char> {
    renamed(final_path, staging_name(final_path))
}

/// The steps that come before the parts are appended.
pub open spec fn opening_steps(final_path: Seq<char>) -> Seq<StepView> {
    let staging = staging_path(final_path);
    let directory = match parent(final_path) {
        Some(directory) => seq![StepView::CreateTargetDirectory { path: directory }],
        None => Seq::empty(),
    };
    directory + seq![
        StepView::RemoveStale { path: staging },
        StepView::CreateStaging { path: staging },
    ]
}

/// The steps that come after the parts were appended.
pub open spec fn closing_steps(final_path: Seq<char>, parts_directory: Seq<char>) -> Seq<StepView> {
    let staging = staging_path(final_path);
    seq![
        StepView::FlushStaging { path: staging },
        StepView::Rename { from: staging, to: final_path },
        StepView::RemoveParts { path: parts_directory },
    ]
}

/// The steps that put a finished file together.
pub open spec fn local_assembly(
    storage: LocalView,
    upload_id: Seq<char>,
    total_parts: int,
    final_path: Seq<char>,
) -> Seq<StepView> {
    opening_steps(final_path) + append_steps(
        storage.parts_path,
        upload_id,
        staging_path(final_path),
        total_parts,
    ) + closing_steps(final_path, joined(storage.parts_path, upload_id))
}

impl LocalStorage {
    /// Storage with these roots. Parts are kept in the directory `parts` below
    /// the temporary root.
    pub fn new(final_storage_path: &str, temp_storage_path: &str) -> (storage: LocalStorage)
        ensures
            storage@.parts_path == joined(temp_storage_path@, "parts"@),
            storage@.final_path == final_storage_path@,
    {
        LocalStorage {
            parts_path: join(temp_storage_path, "parts"),
            final_path: final_storage_path.to_owned(),
        }
    }

    /// The root of all parts.
    pub fn parts_root(&self) -> (path: String)
        ensures
            path@ == self@.parts_path,
    {
        self.parts_path.clone()
    }

    /// The root of finished files.
    pub fn final_root(&self) -> (path: String)
        ensures
            path@ == self@.final_path,
    {
        self.final_path.clone()
    }

    /// Where a part is kept.
    pub fn get_part_path(&self, upload_id: &str, part_number: i32) -> (path: String)
        ensures
            path@ == part_path(self@.parts_path, upload_id@, part_number as int),
    {
        part_path_of(self.parts_path.as_str(), upload_id, part_number)
    }

    /// The directory of an upload's parts.
    pub fn get_upload_parts_dir(&self, upload_id: &str) -> (path: String)
        ensures
            path@ == joined(self@.parts_path, upload_id@),
    {
        join(self.parts_path.as_str(), upload_id)
    }

    /// Where a finished file is kept.
    pub fn get_final_file_path(
        &self,
        upload_id: &str,
        filename: &str,
        target_path: Option<&str>,
    ) -> (path: String)
        ensures
            path@ == final_file_path(
                self@.final_path,
                upload_id@,
                filename@,
                option_str_view(target_path),
            ),
    {
        let name: String = build_stored_name(upload_id, filename);
        match target_path {
            Some(target) => {
                let clean: String = sanitize_target_path(target);
                let kept: String = drop_parents(clean.as_str());
                let below_root: String = trim_separators(kept.as_str(), false);
                if below_root.as_str().is_empty() {
                    join(self.final_path.as_str(), name.as_str())
                } else {
                    let directory: String = join(self.final_path.as_str(), below_root.as_str());
                    join(directory.as_str(), name.as_str())
                }
            },
            None => join(self.final_path.as_str(), name.as_str()),
        }
    }

    /// The file in which a finished file is put together.
    pub fn get_assembled_temp_path(final_path: &str) -> (path: String)
        ensures
            path@ == staging_path(final_path@),
    {
        let mut name: String = ".".to_owned();
        match file_name_of(final_path) {
            Some(last) => {
                name.append(last.as_str());
            },
            None => {
                name.append("assembled");
            },
        }
        name.append(".assembling");
        with_file_name(final_path, name.as_str())
    }

    /// The steps that store a part, with its bytes at hand.
    pub fn store_part(&self, upload_id: &str, part_number: i32) -> (steps: Vec<FileStep>)
        ensures
            step_views(steps@) == store_steps(
                part_path(self@.parts_path, upload_id@, part_number as int),
            ),
    {
        let path: String = self.get_part_path(upload_id, part_number);
        store_steps_for(path.as_str())
    }

    /// The step that reads a part back.
    pub fn read_part(&self, upload_id: &str, part_number: i32) -> (step: FileStep)
        ensures
            step@ == (StepView::ReadBack {
                part_number,
                upload_id: upload_id@,
                path: part_path(self@.parts_path, upload_id@, part_number as int),
            }),
    {
        read_step_for(self.parts_path.as_str(), upload_id, part_number)
    }

    /// The steps that put a finished file together from its parts.
    pub fn assemble_parts(
        &self,
        upload_id: &str,
        filename: &str,
        total_parts: i32,
        target_path: Option<&str>,
    ) -> (assembly: Assembly)
        ensures
            assembly.final_path@ == final_file_path(
                self@.final_path,
                upload_id@,
                filename@,
                option_str_view(target_path),
            ),
            step_views(assembly.steps@) == local_assembly(
                self@,
                upload_id@,
                total_parts as int,
                assembly.final_path@,
            ),
    {
        let final_path: String = self.get_final_file_path(upload_id, filename, target_path);
        let staging: String = LocalStorage::get_assembled_temp_path(final_path.as_str());
        let mut steps: Vec<FileStep> = Vec::new();
        if let Some(directory) = parent_of(final_path.as_str()) {
            steps.push(FileStep::CreateTargetDirectory { path: directory });
        }
        steps.push(FileStep::RemoveStale { path: staging.clone() });
        steps.push(FileStep::CreateStaging { path: staging.clone() });
        assert(step_views(steps@) =~= opening_steps(final_path@));
        push_append_steps(
            &mut steps,
            self.parts_path.as_str(),
            upload_id,
            staging.as_str(),
            total_parts,
        );
        let ghost front = step_views(steps@);
        steps.push(FileStep::FlushStaging { path: staging.clone() });
        steps.push(FileStep::Rename { from: staging, to: final_path.clone() });
        steps.push(FileStep::RemoveParts { path: self.get_upload_parts_dir(upload_id) });
        assert(step_views(steps@) =~= front + closing_steps(
            final_path@,
            joined(self@.parts_path, upload_id@),
        ));
        Assembly { steps, final_path }
    }

    /// The step that removes an upload's parts.
    pub fn delete_parts(&self, upload_id: &str) -> (step: FileStep)
        ensures
            step@ == (StepView::RemoveParts { path: joined(self@.parts_path, upload_id@) }),
    {
        FileStep::RemoveParts { path: self.get_upload_parts_dir(upload_id) }
    }

    /// The step that removes a finished file.
    pub fn delete_file(&self, path: &str) -> (step: FileStep)
        ensures
            step@ == (StepView::RemoveFile { path: path@ }),
    {
        FileStep::RemoveFile { path: path.to_owned() }
    }

    /// The name of this backend.
    pub fn backend_type(&self) -> (name: String)
        ensures
            name@ == "local"@,
    {
        "local".to_owned()
    }
}

// ---------------------------------------------------------------------------
// Laws
// ---------------------------------------------------------------------------
proof fn lemma_staging_name(final_path: Seq<char>)
    ensures
        is_plain_name(staging_name(final_path)),
        staging_name(final_path)[0] == '.',
        staging_name(final_path).len() > 11,
        file_name(staging_path(final_path)) == Some(staging_name(final_path)),
{
    reveal_strlit(".");
    reveal_strlit("assembled");
    reveal_strlit(".assembling");
    let middle = match file_name(final_path) {
        Some(name) => name,
        None => "assembled"@,
    };
    let name = staging_name(final_path);
    if file_name(final_path) is Some {
        file_names_are_plain(final_path);
    }
    assert forall|i: int| 0 <= i < name.len() implies name[i] != '/' by {
        if i < 1 {
            assert(name[i] == "."@[i]);
        } else if i < 1 + middle.len() {
            assert(name[i] == middle[i - 1]);
        } else {
            assert(name[i] == ".assembling"@[i - 1 - middle.len()]);
        }
    }
    assert(name[0] == "."@[0]);
    if file_name(final_path) is Some {
        joining_sets_the_file_name(parent(final_path)->0, name);
    } else {
        joining_sets_the_file_name(final_path, name);
    }
}

/// A stored name can stand at the end of a path where the upload's id holds no
/// slash.
pub proof fn stored_names_are_plain(upload_id: Seq<char>, filename: Seq<char>)
    requires
        forall|i: int| 0 <= i < upload_id.len() ==> upload_id[i] != '/',
    ensures
        is_plain_name(stored_name(upload_id, filename)),
{
    reveal_strlit("_");
    reveal_strlit("unnamed");
    let last = match file_name(filename) {
        Some(name) => name,
        None => "unnamed"@,
    };
    if file_name(filename) is Some {
        file_names_are_plain(filename);
    }
    let name = stored_name(upload_id, filename);
    let k = upload_id.len() as int;
    assert forall|i: int| 0 <= i < name.len() implies name[i] != '/' by {
        if i < k {
            assert(name[i] == upload_id[i]);
        } else if i == k {
            assert(name[i] == "_"@[0]);
        } else {
            assert(name[i] == last[i - k - 1]);
        }
    }
    assert(name[k] == '_');
    assert(name.len() >= 2);
    if name == seq!['.', '.'] {
        assert(k == 0 || k == 1);
    }
}

/// The staging file of a finished file stands in the same directory and is
/// another file.
pub proof fn staging_is_beside_the_destination(
    root: Seq<char>,
    upload_id: Seq<char>,
    filename: Seq<char>,
    target_path: Option<Seq<char>>,
)
    requires
        forall|i: int| 0 <= i < upload_id.len() ==> upload_id[i] != '/',
    ensures
        ({
            let final_path = final_file_path(root, upload_id, filename, target_path);
            &&& parent(staging_path(final_path)) == parent(final_path)
            &&& staging_path(final_path) != final_path
        }),
{
    let final_path = final_file_path(root, upload_id, filename, target_path);
    let name = stored_name(upload_id, filename);
    stored_names_are_plain(upload_id, filename);
    let base = match target_path {
        Some(path) => if directory_below_root(path).len() == 0 {
            root
        } else {
            joined(root, directory_below_root(path))
        },
        None => root,
    };
    assert(final_path == joined(base, name));
    joining_sets_the_file_name(base, name);
    lemma_staging_name(final_path);
    let directory = parent(final_path)->0;
    let front = joined(base, Seq::empty());
    assert(directory == tidy(front));
    joining_sets_the_file_name(directory, staging_name(final_path));
    tidy_is_a_front_part(front);
    lemma_slash_is_tidied(directory);
    reveal_strlit(".");
    reveal_strlit(".assembling");
    assert(staging_name(final_path).len() != name.len());
}

/// A finished file lies below the root, whatever name and target path were
/// given: its path begins with the root, and no component behind that is `..`.
pub proof fn final_files_stay_below_the_root(
    root: Seq<char>,
    upload_id: Seq<char>,
    filename: Seq<char>,
    target_path: Option<Seq<char>>,
)
    requires
        is_uuid_text(upload_id),
    ensures
        ({
            let path = final_file_path(root, upload_id, filename, target_path);
            &&& below(path, root)
            &&& !has_component(path.skip(joined(root, Seq::empty()).len() as int), parent_name())
        }),
{
    let path = final_file_path(root, upload_id, filename, target_path);
    let name = stored_name(upload_id, filename);
    let front = joined(root, Seq::empty());
    assert forall|i: int| 0 <= i < upload_id.len() implies upload_id[i] != '/' by {
        assert(upload_id[i] == '-' || is_hex_digit(upload_id[i]));
    }
    stored_names_are_plain(upload_id, filename);
    assert(name[0] != '/');
    let directory = match target_path {
        Some(target) => directory_below_root(target),
        None => Seq::empty(),
    };
    if directory.len() == 0 {
        assert(path =~= front + name);
        assert(path.skip(front.len() as int) =~= name);
    } else {
        let kept = without_parents(sanitized(target_path->0));
        trimmed_has_no_outer_separator(kept, false);
        assert(joined(root, directory) =~= front + directory);
        assert((front + directory).last() == directory.last());
        assert(path =~= front + (directory.push('/') + name));
        assert(path.skip(front.len() as int) =~= directory.push('/') + name);
        no_parents_are_left(sanitized(target_path->0));
        if has_component(directory.push('/') + name, parent_name()) {
            components_come_from_either_side(directory, name, parent_name());
            if has_component(directory, parent_name()) {
                trimming_adds_no_component(kept, parent_name());
            }
        }
    }
    if has_component(name, parent_name()) {
        lemma_plain_names_lead_nowhere(name);
    }
    assert(path.subrange(0, front.len() as int) =~= front);
}

proof fn lemma_plain_names_lead_nowhere(name: Seq<char>)
    requires
        is_plain_name(name),
    ensures
        !has_component(name, parent_name()),
{
    if has_component(name, parent_name()) {
        let at = choose|at: int| is_component(name, parent_name(), at);
        if at > 0 {
            assert(name[at - 1] != '/');
        }
        if at + 2 < name.len() {
            assert(name[at + 2] != '/');
        }
        assert(name.subrange(0, name.len() as int) =~= name);
    }
}

/// A target path without `..` components is kept as it was sanitized.
pub proof fn targets_without_parents_are_kept(target_path: Seq<char>)
    requires
        !has_component(sanitized(target_path), parent_name()),
    ensures
        directory_below_root(target_path) == sanitized(target_path),
{
    paths_without_parents_stay(sanitized(target_path));
    sanitized_paths_are_bare(target_path);
    trimming_keeps_a_bare_text(sanitized(target_path), false);
}

/// A slash at the end of a tidy path is tidied away.
proof fn lemma_slash_is_tidied(path: Seq<char>)
    requires
        tidy(path) == path,
    ensures
        tidy(joined(path, Seq::empty())) == path,
{
    let front = joined(path, Seq::empty());
    if path.len() == 0 || path.last() == '/' {
        assert(front =~= path);
    } else {
        assert(front =~= path.push('/'));
        assert(front.drop_last() =~= path);
    }
}

proof fn lemma_opening(final_path: Seq<char>, disk: Disk)
    ensures
        run(opening_steps(final_path), disk) matches Some(open) && open.objects == disk.objects
            && open.files == disk.files.insert(staging_path(final_path), Seq::empty()),
{
    let staging = staging_path(final_path);
    let directory = match parent(final_path) {
        Some(directory) => seq![StepView::CreateTargetDirectory { path: directory }],
        None => Seq::empty(),
    };
    let rest = seq![
        StepView::RemoveStale { path: staging },
        StepView::CreateStaging { path: staging },
    ];
    steps_follow_each_other(directory, rest, disk);
    assert(run(directory, disk) == Some(disk)) by {
        if directory.len() > 0 {
            assert(directory.drop_last() =~= Seq::empty());
            assert(run(directory.drop_last(), disk) == Some(disk));
        }
    }
    reveal_with_fuel(run, 3);
    assert(rest.drop_last().drop_last() =~= Seq::empty());
    assert(disk.files.remove(staging).insert(staging, Seq::empty()) =~= disk.files.insert(
        staging,
        Seq::empty(),
    ));
}

/// Putting a file together leaves at its final path the contents of its parts
/// one after the other. The staging file and the parts are gone, and every other
/// file is as it was. The one condition is that the final path does not lie in
/// the directory of the parts, which is removed.
pub proof fn assembly_concatenates_the_parts(
    storage: LocalView,
    upload_id: Seq<char>,
    final_path: Seq<char>,
    contents: Seq<Seq<u8>>,
    disk: Disk,
)
    requires
        contents.len() <= i32::MAX,
        holds_parts(disk, storage.parts_path, upload_id, contents),
        !below(final_path, joined(storage.parts_path, upload_id)),
    ensures
        ({
            let steps = local_assembly(storage, upload_id, contents.len() as int, final_path);
            let staging = staging_path(final_path);
            let directory = joined(storage.parts_path, upload_id);
            &&& run(steps, disk) is Some
            &&& ({
                let end = run(steps, disk)->0;
                &&& end.files.contains_key(final_path)
                &&& end.files[final_path] == concatenated(contents)
                &&& staging != final_path ==> !end.files.contains_key(staging)
                &&& forall|path: Seq<char>|
                    below(path, directory) ==> !#[trigger] end.files.contains_key(path)
                &&& forall|path: Seq<char>| #![trigger end.files.contains_key(path)]
                    path != final_path && path != staging && !below(path, directory) ==> kept(
                        path,
                        disk,
                        end,
                    )
                &&& end.objects == disk.objects
            })
        }),
{
    let staging = staging_path(final_path);
    let directory = joined(storage.parts_path, upload_id);
    let n = contents.len() as int;
    let opening = opening_steps(final_path);
    let appending = append_steps(storage.parts_path, upload_id, staging, n);
    let closing = closing_steps(final_path, directory);
    lemma_opening(final_path, disk);
    let open = run(opening, disk)->0;
    lemma_staging_name(final_path);
    assert forall|i: int| 0 <= i < contents.len() implies #[trigger] part_path(
        storage.parts_path,
        upload_id,
        i,
    ) != staging by {
        part_names_are_plain(i as nat);
        joining_sets_the_file_name(directory, crate::storage::parts::part_name(i));
    }
    appending_concatenates(storage.parts_path, upload_id, staging, contents, n, open);
    let full = run(appending, open)->0;
    assert(contents.take(n) =~= contents);
    assert(Seq::<u8>::empty() + concatenated(contents) =~= concatenated(contents));
    steps_follow_each_other(opening, appending, disk);
    steps_follow_each_other(opening + appending, closing, disk);
    reveal_with_fuel(run, 4);
    assert(closing.drop_last().drop_last().drop_last() =~= Seq::empty());
    let moved = after(closing[1], full)->0;
    let end = after(closing[2], moved)->0;
    assert(run(local_assembly(storage, upload_id, n, final_path), disk) == Some(end));
    assert(moved.files[final_path] == concatenated(contents));
}

/// What a failed assembly leaves. Where parts are missing, the least of them
/// being `k`, the work stops at the step that reads that part, and the report
/// names it. Up to there no file but the staging file has changed: what is at
/// the final path and every part are as they were.
pub proof fn a_failed_assembly_changes_nothing(
    storage: LocalView,
    upload_id: Seq<char>,
    final_path: Seq<char>,
    front: Seq<Seq<u8>>,
    total_parts: int,
    error: Seq<char>,
    disk: Disk,
)
    requires
        front.len() < total_parts <= i32::MAX,
        holds_parts(disk, storage.parts_path, upload_id, front),
        !disk.files.contains_key(
            part_path(storage.parts_path, upload_id, front.len() as int),
        ),
    ensures
        ({
            let k = front.len() as int;
            let steps = local_assembly(storage, upload_id, total_parts, final_path);
            let staging = staging_path(final_path);
            let stop = opening_steps(final_path).len() + 2 * k;
            &&& stop < steps.len()
            &&& run(steps, disk) is None
            &&& run(steps.take(stop), disk) matches Some(end) && {
                &&& after(steps[stop], end) is None
                &&& end.objects == disk.objects
                &&& forall|path: Seq<char>| #![trigger end.files.contains_key(path)]
                    path != staging ==> kept(path, disk, end)
                &&& kept(final_path, disk, end)
                &&& forall|i: int|
                    i >= 0 ==> kept(
                        #[trigger] part_path(storage.parts_path, upload_id, i),
                        disk,
                        end,
                    )
            }
            &&& step_failure(steps[stop], error) == Some(
                ErrorView::Storage(
                    "Failed to read part "@ + decimal(k) + " during assembly: "@ + error,
                ),
            )
        }),
{
    let root = storage.parts_path;
    let k = front.len() as int;
    let staging = staging_path(final_path);
    let opening = opening_steps(final_path);
    let appending = append_steps(root, upload_id, staging, total_parts);
    let closing = closing_steps(final_path, joined(root, upload_id));
    let steps = local_assembly(storage, upload_id, total_parts, final_path);
    let stop = (opening.len() + 2 * k) as int;
    appending_goes_part_by_part(root, upload_id, staging, k, total_parts);
    let done = append_steps(root, upload_id, staging, k);
    assert(steps.take(stop) =~= opening + done);
    assert(steps[stop] == appending[2 * k]);
    lemma_opening(final_path, disk);
    let open = run(opening, disk)->0;
    lemma_staging_name(final_path);
    assert forall|i: int| i >= 0 implies #[trigger] part_path(root, upload_id, i) != staging by {
        lemma_staging_is_no_part(storage, upload_id, final_path, i);
    }
    assert(front.take(k) =~= front);
    appending_concatenates(root, upload_id, staging, front, k, open);
    steps_follow_each_other(opening, done, disk);
    let end = run(steps.take(stop), disk)->0;
    assert(staging != final_path) by {
        if file_name(final_path) is Some {
            reveal_strlit(".");
            reveal_strlit(".assembling");
            assert(staging_name(final_path).len() > file_name(final_path)->0.len());
        }
    }
    assert forall|path: Seq<char>| #![trigger end.files.contains_key(path)]
        path != staging implies kept(path, disk, end) by {}
    assert(after(steps[stop], end) is None);
    steps_stop_at_a_failure(steps, disk, stop);
}

proof fn lemma_staging_is_no_part(
    storage: LocalView,
    upload_id: Seq<char>,
    final_path: Seq<char>,
    i: int,
)
    requires
        i >= 0,
    ensures
        part_path(storage.parts_path, upload_id, i) != staging_path(final_path),
{
    lemma_staging_name(final_path);
    part_names_are_plain(i as nat);
    joining_sets_the_file_name(
        joined(storage.parts_path, upload_id),
        crate::storage::parts::part_name(i),
    );
}

/// A failed assembly can be repeated: once the missing parts are stored, the
/// same steps put the whole file together.
pub proof fn a_failed_assembly_can_be_repeated(
    storage: LocalView,
    upload_id: Seq<char>,
    final_path: Seq<char>,
    contents: Seq<Seq<u8>>,
    k: int,
    missing: Seq<int>,
    disk: Disk,
)
    requires
        0 <= k < contents.len() <= i32::MAX,
        forall|i: int| 0 <= i < missing.len() ==> k <= #[trigger] missing[i] < contents.len(),
        missing.contains(k),
        forall|i: int|
            0 <= i < contents.len() ==> {
                let path = #[trigger] part_path(storage.parts_path, upload_id, i);
                if missing.contains(i) {
                    !disk.files.contains_key(path)
                } else {
                    disk.files.contains_key(path) && disk.files[path] == contents[i]
                }
            },
        !below(final_path, joined(storage.parts_path, upload_id)),
    ensures
        ({
            let root = storage.parts_path;
            let steps = local_assembly(storage, upload_id, contents.len() as int, final_path);
            let stop = opening_steps(final_path).len() + 2 * k;
            let left = run(steps.take(stop), disk)->0;
            let later = with_parts_stored(left, root, upload_id, contents, missing);
            &&& run(steps, disk) is None
            &&& run(steps, later) matches Some(end) && end.files.contains_key(final_path)
                && end.files[final_path] == concatenated(contents)
        }),
{
    let root = storage.parts_path;
    let n = contents.len() as int;
    let steps = local_assembly(storage, upload_id, n, final_path);
    let front = contents.take(k);
    assert forall|i: int| 0 <= i < front.len() implies disk.files.contains_key(
        #[trigger] part_path(root, upload_id, i),
    ) && disk.files[part_path(root, upload_id, i)] == front[i] by {
        if missing.contains(i) {
            assert(missing[missing.index_of(i)] == i);
        }
    }
    a_failed_assembly_changes_nothing(
        storage,
        upload_id,
        final_path,
        front,
        n,
        Seq::empty(),
        disk,
    );
    let left = run(steps.take((opening_steps(final_path).len() + 2 * k) as int), disk)->0;
    assert forall|i: int| 0 <= i < contents.len() && !missing.contains(i) implies
        left.files.contains_key(#[trigger] part_path(root, upload_id, i))
        && left.files[part_path(root, upload_id, i)] == contents[i] by {
        assert(kept(part_path(root, upload_id, i), disk, left));
    }
    assert forall|i: int| 0 <= i < missing.len() implies 0 <= #[trigger] missing[i]
        < contents.len() by {}
    storing_the_missing_parts_completes_them(left, root, upload_id, contents, missing);
    let later = with_parts_stored(left, root, upload_id, contents, missing);
    assembly_concatenates_the_parts(storage, upload_id, final_path, contents, later);
}

} // verus!
