//! Parts on the local disk, as every backend keeps them.
use crate::decimal::{
    digits, digits_have_their_value, padded_text_tells_numbers_apart, push_zero_padded, zero_padded,
};
use crate::paths::{is_plain_name, join, joined, joining_sets_the_file_name, parent, parent_of};
use crate::storage::disk::{after, below, concatenated, kept, run, steps_follow_each_other, Disk};
use crate::storage::steps::{step_views, FileStep, StepView};
use vstd::prelude::*;

verus! {

/// The file name of a part.
pub open spec fn part_name(number: int) -> Seq<char> {
    "part_"@ + zero_padded(number, 6)
}

/// The path of a part below the root of all parts.
pub open spec fn part_path(root: Seq<char>, upload_id: Seq<char>, number: int) -> Seq<char> {
    joined(joined(root, upload_id), part_name(number))
}

/// The path of a part below the root of all parts.
pub fn part_path_of(root: &str, upload_id: &str, part_number: i32) -> (path: String)
    ensures
        path@ == part_path(root@, upload_id@, part_number as int),
{
    let mut name: String = "part_".to_owned();
    push_zero_padded(&mut name, part_number, 6);
    let directory: String = join(root, upload_id);
    join(directory.as_str(), name.as_str())
}

/// A part's name can stand at the end of a path, and it begins with `p` and ends
/// with a digit.
pub proof fn part_names_are_plain(number: nat)
    ensures
        is_plain_name(part_name(number as int)),
        part_name(number as int)[0] == 'p',
        '0' <= part_name(number as int).last() <= '9',
{
    reveal_strlit("part_");
    digits_have_their_value(number);
    let name = part_name(number as int);
    let tail = zero_padded(number as int, 6);
    assert(name[0] == "part_"@[0]);
    assert forall|i: int| 0 <= i < name.len() implies name[i] != '/' by {
        if i < 5 {
            assert(name[i] == "part_"@[i]);
        } else {
            assert(name[i] == tail[i - 5]);
            let d = digits(number);
            let pad = 6 - d.len();
            if pad > 0 {
                if i - 5 < pad {
                    assert(tail[i - 5] == '0');
                } else {
                    assert(tail[i - 5] == d[i - 5 - pad]);
                }
            } else {
                assert(tail[i - 5] == d[i - 5]);
            }
        }
    }
    assert(tail.last() == digits(number).last());
    assert(name.last() == tail.last());
    assert(name[0] != seq!['.'][0]);
    assert(name[0] != seq!['.', '.'][0]);
}

/// The parts of one upload are kept in different files.
pub proof fn part_paths_tell_parts_apart(root: Seq<char>, upload_id: Seq<char>, a: nat, b: nat)
    requires
        part_path(root, upload_id, a as int) == part_path(root, upload_id, b as int),
    ensures
        a == b,
{
    part_names_are_plain(a);
    part_names_are_plain(b);
    joining_sets_the_file_name(joined(root, upload_id), part_name(a as int));
    joining_sets_the_file_name(joined(root, upload_id), part_name(b as int));
    assert(part_name(a as int).skip(5) =~= zero_padded(a as int, 6)) by {
        reveal_strlit("part_");
    }
    assert(part_name(b as int).skip(5) =~= zero_padded(b as int, 6)) by {
        reveal_strlit("part_");
    }
    padded_text_tells_numbers_apart(a, b, 6);
}

/// Uploads whose ids can stand as names keep their parts in different files.
pub proof fn part_paths_tell_uploads_apart(
    root: Seq<char>,
    id_a: Seq<char>,
    id_b: Seq<char>,
    a: nat,
    b: nat,
)
    requires
        is_plain_name(id_a),
        is_plain_name(id_b),
        part_path(root, id_a, a as int) == part_path(root, id_b, b as int),
    ensures
        id_a == id_b,
{
    part_names_are_plain(a);
    part_names_are_plain(b);
    joining_sets_the_file_name(joined(root, id_a), part_name(a as int));
    joining_sets_the_file_name(joined(root, id_b), part_name(b as int));
    let base = joined(root, Seq::empty());
    let name = part_name(a as int);
    assert(id_a[0] != '/' && id_b[0] != '/' && name[0] != '/');
    assert(id_a[id_a.len() - 1] != '/' && id_b[id_b.len() - 1] != '/');
    assert(joined(root, id_a) =~= base + id_a);
    assert(joined(root, id_b) =~= base + id_b);
    assert((base + id_a).last() == id_a.last());
    assert((base + id_b).last() == id_b.last());
    let path_a = part_path(root, id_a, a as int);
    let path_b = part_path(root, id_b, b as int);
    assert(path_a =~= (base + id_a).push('/') + name);
    assert(path_b =~= (base + id_b).push('/') + name);
    let k = path_a.len() - name.len() - 1;
    assert(path_a.take(k) =~= base + id_a);
    assert(path_b.take(k) =~= base + id_b);
    assert((base + id_a).skip(base.len() as int) =~= id_a);
    assert((base + id_b).skip(base.len() as int) =~= id_b);
}

/// Every part of an upload lies below the directory of its parts.
pub proof fn parts_lie_below_their_directory(root: Seq<char>, upload_id: Seq<char>, number: nat)
    ensures
        below(part_path(root, upload_id, number as int), joined(root, upload_id)),
{
    part_names_are_plain(number);
    let directory = joined(root, upload_id);
    let name = part_name(number as int);
    assert(name[0] != '/');
    assert(joined(directory, name) =~= joined(directory, Seq::empty()) + name);
}

// ---------------------------------------------------------------------------
// Storing and reading a part
// ---------------------------------------------------------------------------
/// The steps that store a part.
pub open spec fn store_steps(path: Seq<char>) -> Seq<StepView> {
    let directory = match parent(path) {
        Some(directory) => seq![StepView::CreatePartsDirectory { path: directory }],
        None => Seq::empty(),
    };
    directory + seq![
        StepView::CreatePart { path },
        StepView::WritePart { path },
        StepView::FlushPart { path },
    ]
}

/// The steps that store a part at `path`, with its bytes at hand.
pub fn store_steps_for(path: &str) -> (steps: Vec<FileStep>)
    ensures
        step_views(steps@) == store_steps(path@),
{
    let mut steps: Vec<FileStep> = Vec::new();
    if let Some(directory) = parent_of(path) {
        steps.push(FileStep::CreatePartsDirectory { path: directory });
    }
    steps.push(FileStep::CreatePart { path: path.to_owned() });
    steps.push(FileStep::WritePart { path: path.to_owned() });
    steps.push(FileStep::FlushPart { path: path.to_owned() });
    assert(step_views(steps@) =~= store_steps(path@));
    steps
}

/// The step that reads a part back.
pub fn read_step_for(root: &str, upload_id: &str, part_number: i32) -> (step: FileStep)
    ensures
        step@ == (StepView::ReadBack {
            part_number,
            upload_id: upload_id@,
            path: part_path(root@, upload_id@, part_number as int),
        }),
{
    FileStep::ReadBack {
        part_number,
        upload_id: upload_id.to_owned(),
        path: part_path_of(root, upload_id, part_number),
    }
}

/// Storing a part writes its file, whatever was there before, and no other.
pub proof fn storing_writes_one_file(path: Seq<char>, disk: Disk)
    ensures
        run(store_steps(path), disk) == Some(
            (Disk { files: disk.files.insert(path, disk.at_hand), ..disk }),
        ),
{
    let directory = match parent(path) {
        Some(directory) => seq![StepView::CreatePartsDirectory { path: directory }],
        None => Seq::empty(),
    };
    let rest = seq![
        StepView::CreatePart { path },
        StepView::WritePart { path },
        StepView::FlushPart { path },
    ];
    steps_follow_each_other(directory, rest, disk);
    assert(run(directory, disk) == Some(disk)) by {
        if directory.len() > 0 {
            assert(directory.drop_last() =~= Seq::empty());
            assert(run(directory.drop_last(), disk) == Some(disk));
        }
    }
    lemma_three_steps(rest, disk);
    assert(Seq::<u8>::empty() + disk.at_hand =~= disk.at_hand);
    assert(disk.files.insert(path, Seq::empty()).insert(path, disk.at_hand) =~= disk.files.insert(
        path,
        disk.at_hand,
    ));
}

proof fn lemma_three_steps(steps: Seq<StepView>, disk: Disk)
    requires
        steps.len() == 3,
    ensures
        run(steps, disk) == match after(steps[0], disk) {
            None => None,
            Some(one) => match after(steps[1], one) {
                None => None,
                Some(two) => after(steps[2], two),
            },
        },
{
    reveal_with_fuel(run, 4);
    assert(steps.drop_last().drop_last().drop_last() =~= Seq::empty());
}

/// A part that was stored is read back as it was stored, and stays so while
/// other parts of the upload are stored.
pub proof fn stored_parts_are_read_back(
    root: Seq<char>,
    upload_id: Seq<char>,
    number: nat,
    other: nat,
    data: Seq<u8>,
    other_data: Seq<u8>,
    disk: Disk,
)
    requires
        number != other,
    ensures
        ({
            let path = part_path(root, upload_id, number as int);
            let next = part_path(root, upload_id, other as int);
            let stored = run(store_steps(path), (Disk { at_hand: data, ..disk }))->0;
            let later = run(store_steps(next), (Disk { at_hand: other_data, ..stored }))->0;
            &&& stored.files.contains_key(path) && stored.files[path] == data
            &&& later.files.contains_key(path) && later.files[path] == data
        }),
{
    let path = part_path(root, upload_id, number as int);
    let next = part_path(root, upload_id, other as int);
    storing_writes_one_file(path, Disk { at_hand: data, ..disk });
    let stored = run(store_steps(path), (Disk { at_hand: data, ..disk }))->0;
    storing_writes_one_file(next, Disk { at_hand: other_data, ..stored });
    if path == next {
        part_paths_tell_parts_apart(root, upload_id, number, other);
    }
}

// ---------------------------------------------------------------------------
// Putting parts together
// ---------------------------------------------------------------------------
/// The steps that append the first `n` parts to the staging file, one after the
/// other.
pub open spec fn append_steps(
    root: Seq<char>,
    upload_id: Seq<char>,
    staging: Seq<char>,
    n: int,
) -> Seq<StepView>
    decreases n,
{
    if n <= 0 {
        Seq::empty()
    } else {
        append_steps(root, upload_id, staging, n - 1).push(
            StepView::ReadPart {
                part_number: (n - 1) as i32,
                path: part_path(root, upload_id, n - 1),
            },
        ).push(StepView::AppendPart { path: staging })
    }
}

/// Adds to `steps` those that append the parts to the staging file.
pub fn push_append_steps(
    steps: &mut Vec<FileStep>,
    root: &str,
    upload_id: &str,
    staging: &str,
    total_parts: i32,
)
    ensures
        step_views(final(steps)@) == step_views(old(steps)@) + append_steps(
            root@,
            upload_id@,
            staging@,
            total_parts as int,
        ),
{
    let ghost before = step_views(steps@);
    let mut n: i32 = 0;
    assert(before + Seq::<StepView>::empty() =~= before);
    while n < total_parts
        invariant
            0 <= n,
            n <= total_parts || n == 0,
            step_views(steps@) == before + append_steps(root@, upload_id@, staging@, n as int),
        decreases total_parts - n,
    {
        let ghost front = step_views(steps@);
        let read: FileStep = FileStep::ReadPart {
            part_number: n,
            path: part_path_of(root, upload_id, n),
        };
        let append: FileStep = FileStep::AppendPart { path: staging.to_owned() };
        let ghost read_view = read@;
        let ghost append_view = append@;
        steps.push(read);
        steps.push(append);
        assert(step_views(steps@) =~= front.push(read_view).push(append_view));
        assert(step_views(steps@) =~= before + append_steps(root@, upload_id@, staging@, n + 1));
        n += 1;
    }
}

/// `disk` holds the first `n` parts of the upload with these contents.
pub open spec fn holds_parts(
    disk: Disk,
    root: Seq<char>,
    upload_id: Seq<char>,
    contents: Seq<Seq<u8>>,
) -> bool {
    forall|i: int|
        0 <= i < contents.len() ==> disk.files.contains_key(#[trigger] part_path(root, upload_id, i))
            && disk.files[part_path(root, upload_id, i)] == contents[i]
}

/// The disk after parts of an upload were stored, one after the other.
pub open spec fn with_parts_stored(
    disk: Disk,
    root: Seq<char>,
    upload_id: Seq<char>,
    contents: Seq<Seq<u8>>,
    numbers: Seq<int>,
) -> Disk
    decreases numbers.len(),
{
    if numbers.len() == 0 {
        disk
    } else {
        let n = numbers.last();
        let before = with_parts_stored(disk, root, upload_id, contents, numbers.drop_last());
        run(
            store_steps(part_path(root, upload_id, n)),
            (Disk { at_hand: contents[n], ..before }),
        )->0
    }
}

/// Storing the parts that are missing makes the parts complete, and touches no
/// file but theirs.
pub proof fn storing_the_missing_parts_completes_them(
    disk: Disk,
    root: Seq<char>,
    upload_id: Seq<char>,
    contents: Seq<Seq<u8>>,
    numbers: Seq<int>,
)
    requires
        forall|i: int| 0 <= i < numbers.len() ==> 0 <= #[trigger] numbers[i] < contents.len(),
        forall|i: int|
            0 <= i < contents.len() && !numbers.contains(i) ==> disk.files.contains_key(
                #[trigger] part_path(root, upload_id, i),
            ) && disk.files[part_path(root, upload_id, i)] == contents[i],
    ensures
        ({
            let end = with_parts_stored(disk, root, upload_id, contents, numbers);
            &&& holds_parts(end, root, upload_id, contents)
            &&& end.objects == disk.objects
        }),
{
    lemma_stored(disk, root, upload_id, contents, numbers);
    let end = with_parts_stored(disk, root, upload_id, contents, numbers);
    assert forall|i: int| 0 <= i < contents.len() implies end.files.contains_key(
        #[trigger] part_path(root, upload_id, i),
    ) && end.files[part_path(root, upload_id, i)] == contents[i] by {
        if numbers.contains(i) {
        } else {
            assert(disk.files.contains_key(part_path(root, upload_id, i)));
        }
    }
}

proof fn lemma_stored(
    disk: Disk,
    root: Seq<char>,
    upload_id: Seq<char>,
    contents: Seq<Seq<u8>>,
    numbers: Seq<int>,
)
    requires
        forall|i: int| 0 <= i < numbers.len() ==> 0 <= #[trigger] numbers[i] < contents.len(),
    ensures
        ({
            let end = with_parts_stored(disk, root, upload_id, contents, numbers);
            &&& end.objects == disk.objects
            &&& forall|i: int|
                0 <= i < contents.len() ==> {
                    let path = #[trigger] part_path(root, upload_id, i);
                    if numbers.contains(i) {
                        end.files.contains_key(path) && end.files[path] == contents[i]
                    } else {
                        kept(path, disk, end)
                    }
                }
        }),
    decreases numbers.len(),
{
    if numbers.len() > 0 {
        let n = numbers.last();
        let front = numbers.drop_last();
        assert forall|i: int| 0 <= i < front.len() implies 0 <= #[trigger] front[i]
            < contents.len() by {
            assert(front[i] == numbers[i]);
        }
        lemma_stored(disk, root, upload_id, contents, front);
        let before = with_parts_stored(disk, root, upload_id, contents, front);
        let stored = part_path(root, upload_id, n);
        storing_writes_one_file(stored, Disk { at_hand: contents[n], ..before });
        let end = with_parts_stored(disk, root, upload_id, contents, numbers);
        assert(end.files == before.files.insert(stored, contents[n]));
        assert forall|i: int| 0 <= i < contents.len() implies ({
            let path = #[trigger] part_path(root, upload_id, i);
            if numbers.contains(i) {
                end.files.contains_key(path) && end.files[path] == contents[i]
            } else {
                kept(path, disk, end)
            }
        }) by {
            let path = part_path(root, upload_id, i);
            if i == n {
                assert(numbers[numbers.len() - 1] == n);
                assert(numbers.contains(n));
            } else {
                if path == stored {
                    part_paths_tell_parts_apart(root, upload_id, i as nat, n as nat);
                }
                if numbers.contains(i) {
                    let k = numbers.index_of(i);
                    assert(front[k] == i);
                }
                if front.contains(i) {
                    let k = front.index_of(i);
                    assert(numbers[k] == i);
                }
            }
        }
    } else {
        assert forall|i: int| 0 <= i < contents.len() implies kept(
            #[trigger] part_path(root, upload_id, i),
            disk,
            disk,
        ) by {}
    }
}

/// The steps for the first parts stand at the front of those for more of them,
/// and the step behind them reads the next part.
pub proof fn appending_goes_part_by_part(
    root: Seq<char>,
    upload_id: Seq<char>,
    staging: Seq<char>,
    k: int,
    n: int,
)
    requires
        0 <= k < n,
    ensures
        ({
            let all = append_steps(root, upload_id, staging, n);
            &&& append_steps(root, upload_id, staging, k).len() == 2 * k
            &&& all.len() == 2 * n
            &&& all.take(2 * k) == append_steps(root, upload_id, staging, k)
            &&& all[2 * k] == (StepView::ReadPart {
                part_number: k as i32,
                path: part_path(root, upload_id, k),
            })
        }),
    decreases n,
{
    let all = append_steps(root, upload_id, staging, n);
    let front = append_steps(root, upload_id, staging, n - 1);
    if k < n - 1 {
        appending_goes_part_by_part(root, upload_id, staging, k, n - 1);
        assert(all.take(2 * k) =~= front.take(2 * k));
    } else {
        lemma_append_length(root, upload_id, staging, k);
        assert(all.take(2 * k) =~= front);
    }
}

proof fn lemma_append_length(root: Seq<char>, upload_id: Seq<char>, staging: Seq<char>, n: int)
    requires
        n >= 0,
    ensures
        append_steps(root, upload_id, staging, n).len() == 2 * n,
    decreases n,
{
    if n > 0 {
        lemma_append_length(root, upload_id, staging, n - 1);
    }
}

/// Appending the parts to a staging file that is none of them leaves in it the
/// parts' contents one after the other, behind what was there, and changes no
/// other file.
pub proof fn appending_concatenates(
    root: Seq<char>,
    upload_id: Seq<char>,
    staging: Seq<char>,
    contents: Seq<Seq<u8>>,
    n: int,
    disk: Disk,
)
    requires
        0 <= n <= contents.len() <= i32::MAX,
        holds_parts(disk, root, upload_id, contents),
        disk.files.contains_key(staging),
        forall|i: int|
            0 <= i < contents.len() ==> #[trigger] part_path(root, upload_id, i) != staging,
    ensures
        run(append_steps(root, upload_id, staging, n), disk) matches Some(end)
            && end.objects == disk.objects && end.files == disk.files.insert(
            staging,
            disk.files[staging] + concatenated(contents.take(n)),
        ),
    decreases n,
{
    let steps = append_steps(root, upload_id, staging, n);
    if n == 0 {
        assert(contents.take(0) =~= Seq::empty());
        assert(disk.files[staging] + Seq::<u8>::empty() =~= disk.files[staging]);
        assert(disk.files.insert(staging, disk.files[staging]) =~= disk.files);
    } else {
        appending_concatenates(root, upload_id, staging, contents, n - 1, disk);
        let front = append_steps(root, upload_id, staging, n - 1);
        let path = part_path(root, upload_id, n - 1);
        let read = StepView::ReadPart { part_number: (n - 1) as i32, path };
        let append = StepView::AppendPart { path: staging };
        let mid = run(front, disk)->0;
        assert(steps =~= front.push(read).push(append));
        assert(steps.drop_last() =~= front.push(read));
        assert(steps.drop_last().drop_last() =~= front);
        assert(path != staging);
        assert(mid.files[path] == contents[n - 1]);
        let with_part = after(read, mid)->0;
        assert(run(front.push(read), disk) == Some(with_part));
        let end = after(append, with_part)->0;
        assert(run(steps, disk) == Some(end));
        assert(contents.take(n).drop_last() =~= contents.take(n - 1));
        assert(end.files[staging] =~= disk.files[staging] + concatenated(contents.take(n)));
        assert(end.files =~= disk.files.insert(
            staging,
            disk.files[staging] + concatenated(contents.take(n)),
        ));
    }
}

} // verus!
