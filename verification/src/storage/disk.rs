//! What the steps do, on a model of the files.
//!
//! A path stands for one file, and two paths that differ as texts stand for two.
//! Directories are not modelled: a file is below one when its path says so.
use crate::paths::joined;
use crate::storage::steps::StepView;
use vstd::prelude::*;

verus! {

/// The files, the objects in object storage, and the bytes at hand.
#[verifier::ext_equal]
pub struct Disk {
    pub files: Map<Seq<char>, Seq<u8>>,
    pub objects: Map<Seq<char>, Seq<u8>>,
    pub at_hand: Seq<u8>,
}

/// `path` lies below `directory`.
pub open spec fn below(path: Seq<char>, directory: Seq<char>) -> bool {
    joined(directory, Seq::empty()).is_prefix_of(path)
}

/// What one step makes of a disk; `None` where it fails because a file is
/// missing.
pub open spec fn after(step: StepView, disk: Disk) -> Option<Disk> {
    match step {
        StepView::CreatePartsDirectory { path } => Some(disk),
        StepView::CreateTargetDirectory { path } => Some(disk),
        StepView::CreatePart { path } => Some(
            Disk { files: disk.files.insert(path, Seq::empty()), ..disk },
        ),
        StepView::CreateStaging { path } => Some(
            Disk { files: disk.files.insert(path, Seq::empty()), ..disk },
        ),
        StepView::WritePart { path } => appended(path, disk),
        StepView::AppendPart { path } => appended(path, disk),
        StepView::FlushPart { path } => present(path, disk),
        StepView::FlushStaging { path } => present(path, disk),
        StepView::Measure { path } => present(path, disk),
        StepView::OpenForUpload { path } => present(path, disk),
        StepView::ReadBack { part_number, upload_id, path } => read(path, disk),
        StepView::ReadPart { part_number, path } => read(path, disk),
        StepView::Rename { from, to } => if disk.files.contains_key(from) {
            Some(
                Disk {
                    files: disk.files.remove(from).insert(to, disk.files[from]),
                    ..disk
                },
            )
        } else {
            None
        },
        StepView::PutObject { bucket, key, path } => if disk.files.contains_key(path) {
            Some(Disk { objects: disk.objects.insert(key, disk.files[path]), ..disk })
        } else {
            None
        },
        StepView::RemoveStale { path } => Some(removed(path, disk)),
        StepView::Discard { path } => Some(removed(path, disk)),
        StepView::RemoveFile { path } => Some(removed(path, disk)),
        StepView::RemoveParts { path } => Some(
            Disk {
                files: disk.files.restrict(
                    disk.files.dom().filter(|file: Seq<char>| !below(file, path)),
                ),
                ..disk
            },
        ),
    }
}

/// The disk, where the file is there.
pub open spec fn present(path: Seq<char>, disk: Disk) -> Option<Disk> {
    if disk.files.contains_key(path) {
        Some(disk)
    } else {
        None
    }
}

/// The disk with the file's bytes at hand, where the file is there.
pub open spec fn read(path: Seq<char>, disk: Disk) -> Option<Disk> {
    if disk.files.contains_key(path) {
        Some(Disk { at_hand: disk.files[path], ..disk })
    } else {
        None
    }
}

/// The disk with the bytes at hand appended to the file, where it is there.
pub open spec fn appended(path: Seq<char>, disk: Disk) -> Option<Disk> {
    if disk.files.contains_key(path) {
        Some(Disk { files: disk.files.insert(path, disk.files[path] + disk.at_hand), ..disk })
    } else {
        None
    }
}

/// The disk without the file.
pub open spec fn removed(path: Seq<char>, disk: Disk) -> Disk {
    Disk { files: disk.files.remove(path), ..disk }
}

/// The file is the same on both disks, or on neither.
pub open spec fn kept(path: Seq<char>, before: Disk, end: Disk) -> bool {
    &&& before.files.contains_key(path) == end.files.contains_key(path)
    &&& before.files.contains_key(path) ==> before.files[path] == end.files[path]
}

/// What a list of steps makes of a disk; `None` where a step fails.
pub open spec fn run(steps: Seq<StepView>, disk: Disk) -> Option<Disk>
    decreases steps.len(),
{
    if steps.len() == 0 {
        Some(disk)
    } else {
        match run(steps.drop_last(), disk) {
            Some(before) => after(steps.last(), before),
            None => None,
        }
    }
}

/// A list of steps is done by doing its front and then its back.
pub proof fn steps_follow_each_other(front: Seq<StepView>, back: Seq<StepView>, disk: Disk)
    ensures
        run(front + back, disk) == match run(front, disk) {
            Some(between) => run(back, between),
            None => None,
        },
    decreases back.len(),
{
    if back.len() == 0 {
        assert(front + back =~= front);
    } else {
        steps_follow_each_other(front, back.drop_last(), disk);
        assert((front + back).drop_last() =~= front + back.drop_last());
    }
}

/// A list of steps fails where one of them does.
pub proof fn steps_stop_at_a_failure(steps: Seq<StepView>, disk: Disk, stop: int)
    requires
        0 <= stop < steps.len(),
        run(steps.take(stop), disk) matches Some(end) && after(steps[stop], end) is None,
    ensures
        run(steps, disk) is None,
    decreases steps.len(),
{
    if stop == steps.len() - 1 {
        assert(steps.drop_last() =~= steps.take(stop));
    } else {
        assert(steps.drop_last().take(stop) =~= steps.take(stop));
        steps_stop_at_a_failure(steps.drop_last(), disk, stop);
    }
}

/// Contents one after the other.
pub open spec fn concatenated(contents: Seq<Seq<u8>>) -> Seq<u8>
    decreases contents.len(),
{
    if contents.len() == 0 {
        Seq::empty()
    } else {
        concatenated(contents.drop_last()) + contents.last()
    }
}

} // verus!
