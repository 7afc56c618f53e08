//! What the two tables hold, as mathematics.
//!
//! `uploads` has one row per upload id, `upload_parts` one row per upload id and
//! part number, and every part belongs to an upload.
use crate::db::lifecycle::after_restart;
use crate::db::schema::{PartStatus, PartView, UploadStatus, UploadView};
use crate::error::ErrorView;
use vstd::prelude::*;

verus! {

/// The rows of both tables.
#[verifier::ext_equal]
pub struct Tables {
    pub uploads: Seq<UploadView>,
    pub parts: Seq<PartView>,
}

/// No two uploads have the same id.
pub open spec fn distinct_uploads(uploads: Seq<UploadView>) -> bool {
    forall|i: int, j: int|
        0 <= i < j < uploads.len() ==> #[trigger] uploads[i].id != #[trigger] uploads[j].id
}

/// Two part rows have the same key.
pub open spec fn same_key(p: PartView, q: PartView) -> bool {
    p.upload_id == q.upload_id && p.part_number == q.part_number
}

/// No two parts have the same upload id and part number.
pub open spec fn distinct_parts(parts: Seq<PartView>) -> bool {
    forall|i: int, j: int|
        0 <= i < j < parts.len() ==> !same_key(#[trigger] parts[i], #[trigger] parts[j])
}

/// Every part belongs to an upload.
pub open spec fn parts_have_uploads(t: Tables) -> bool {
    forall|i: int|
        0 <= i < t.parts.len() ==> upload(t, (#[trigger] t.parts[i]).upload_id) is Some
}

/// What the keys of the tables guarantee.
pub open spec fn keys_hold(t: Tables) -> bool {
    &&& distinct_uploads(t.uploads)
    &&& distinct_parts(t.parts)
    &&& parts_have_uploads(t)
}

// ---------------------------------------------------------------------------
// Uploads
// ---------------------------------------------------------------------------
/// The last row of `uploads` with this id.
pub open spec fn row_with_id(uploads: Seq<UploadView>, id: Seq<char>) -> Option<UploadView>
    decreases uploads.len(),
{
    if uploads.len() == 0 {
        None
    } else if uploads.last().id == id {
        Some(uploads.last())
    } else {
        row_with_id(uploads.drop_last(), id)
    }
}

/// The upload with this id.
pub open spec fn upload(t: Tables, id: Seq<char>) -> Option<UploadView> {
    row_with_id(t.uploads, id)
}

/// The tables with `row` in place of the upload that has its id.
pub open spec fn put(t: Tables, row: UploadView) -> Tables {
    Tables {
        uploads: Seq::new(
            t.uploads.len(),
            |i: int|
                if t.uploads[i].id == row.id {
                    row
                } else {
                    t.uploads[i]
                },
        ),
        parts: t.parts,
    }
}

/// The rows of `uploads` with other ids.
pub open spec fn rows_without_id(uploads: Seq<UploadView>, id: Seq<char>) -> Seq<UploadView>
    decreases uploads.len(),
{
    if uploads.len() == 0 {
        uploads
    } else if uploads.last().id == id {
        rows_without_id(uploads.drop_last(), id)
    } else {
        rows_without_id(uploads.drop_last(), id).push(uploads.last())
    }
}

/// An upload that was never completed and whose time has passed.
pub open spec fn is_expired(u: UploadView, now: i64) -> bool {
    u.expires_at < now && u.status == UploadStatus::Pending
}

/// The expired uploads, in the order of the table.
pub open spec fn expired_rows(uploads: Seq<UploadView>, now: i64) -> Seq<UploadView>
    decreases uploads.len(),
{
    if uploads.len() == 0 {
        uploads
    } else if is_expired(uploads.last(), now) {
        expired_rows(uploads.drop_last(), now).push(uploads.last())
    } else {
        expired_rows(uploads.drop_last(), now)
    }
}

/// The number of uploads that are being finalized.
pub open spec fn finalizing_count(uploads: Seq<UploadView>) -> nat
    decreases uploads.len(),
{
    if uploads.len() == 0 {
        0
    } else if uploads.last().status == UploadStatus::Finalizing {
        finalizing_count(uploads.drop_last()) + 1
    } else {
        finalizing_count(uploads.drop_last())
    }
}

// ---------------------------------------------------------------------------
// Parts
// ---------------------------------------------------------------------------
/// The last row of `parts` with this key.
pub open spec fn part_with_key(parts: Seq<PartView>, id: Seq<char>, number: i32) -> Option<PartView>
    decreases parts.len(),
{
    if parts.len() == 0 {
        None
    } else if parts.last().upload_id == id && parts.last().part_number == number {
        Some(parts.last())
    } else {
        part_with_key(parts.drop_last(), id, number)
    }
}

/// The part of this upload with this number.
pub open spec fn part(t: Tables, id: Seq<char>, number: i32) -> Option<PartView> {
    part_with_key(t.parts, id, number)
}

/// The tables with `row` in place of the part that has its key.
pub open spec fn put_part(t: Tables, row: PartView) -> Tables {
    Tables {
        uploads: t.uploads,
        parts: Seq::new(
            t.parts.len(),
            |i: int|
                if same_key(t.parts[i], row) {
                    row
                } else {
                    t.parts[i]
                },
        ),
    }
}

/// The parts of this upload, in the order of the table.
pub open spec fn parts_of(parts: Seq<PartView>, id: Seq<char>) -> Seq<PartView>
    decreases parts.len(),
{
    if parts.len() == 0 {
        parts
    } else if parts.last().upload_id == id {
        parts_of(parts.drop_last(), id).push(parts.last())
    } else {
        parts_of(parts.drop_last(), id)
    }
}

/// The parts of other uploads, in the order of the table.
pub open spec fn parts_not_of(parts: Seq<PartView>, id: Seq<char>) -> Seq<PartView>
    decreases parts.len(),
{
    if parts.len() == 0 {
        parts
    } else if parts.last().upload_id == id {
        parts_not_of(parts.drop_last(), id)
    } else {
        parts_not_of(parts.drop_last(), id).push(parts.last())
    }
}

/// How many parts of this upload have arrived.
pub open spec fn uploaded_count(parts: Seq<PartView>, id: Seq<char>) -> nat
    decreases parts.len(),
{
    if parts.len() == 0 {
        0
    } else if parts.last().upload_id == id && parts.last().status == PartStatus::Uploaded {
        uploaded_count(parts.drop_last(), id) + 1
    } else {
        uploaded_count(parts.drop_last(), id)
    }
}

/// Part numbers grow from row to row.
pub open spec fn by_number(parts: Seq<PartView>) -> bool {
    forall|i: int, j: int|
        0 <= i < j < parts.len() ==> (#[trigger] parts[i]).part_number < (
        #[trigger] parts[j]).part_number
}

/// Why the table turns a part row down: another row has its key, or it belongs
/// to no upload.
pub open spec fn part_refusal(t: Tables, row: PartView) -> Option<ErrorView> {
    if part(t, row.upload_id, row.part_number) is Some {
        Some(
            ErrorView::Database(
                "UNIQUE constraint failed: upload_parts.upload_id, upload_parts.part_number"@,
            ),
        )
    } else if upload(t, row.upload_id) is None {
        Some(ErrorView::Database("FOREIGN KEY constraint failed"@))
    } else {
        None
    }
}

/// The tables with the first `n` of `rows` added.
pub open spec fn with_parts(t: Tables, rows: Seq<PartView>, n: int) -> Tables {
    Tables { uploads: t.uploads, parts: t.parts + rows.take(n) }
}

/// How many of `rows`, from the front, the table takes before it turns one down.
pub open spec fn taken(t: Tables, rows: Seq<PartView>, from: int) -> int
    decreases rows.len() - from,
{
    if from < 0 || from >= rows.len() || part_refusal(with_parts(t, rows, from), rows[from]) is Some {
        from
    } else {
        taken(t, rows, from + 1)
    }
}

/// The tables without the upload that has this id and without its parts.
pub open spec fn without_upload(t: Tables, id: Seq<char>) -> Tables {
    Tables { uploads: rows_without_id(t.uploads, id), parts: parts_not_of(t.parts, id) }
}

/// The tables with every row as a restart leaves it.
pub open spec fn all_after_restart(t: Tables, now: i64) -> Tables {
    Tables {
        uploads: Seq::new(t.uploads.len(), |i: int| after_restart(t.uploads[i], now)),
        parts: t.parts,
    }
}

/// `rows` with `row` behind every row at its end whose number is not greater.
pub open spec fn inserted(rows: Seq<PartView>, row: PartView) -> Seq<PartView>
    decreases rows.len(),
{
    if rows.len() > 0 && rows.last().part_number > row.part_number {
        inserted(rows.drop_last(), row).push(rows.last())
    } else {
        rows.push(row)
    }
}

/// `rows` by part number.
pub open spec fn insertion_sorted(rows: Seq<PartView>) -> Seq<PartView>
    decreases rows.len(),
{
    if rows.len() == 0 {
        rows
    } else {
        inserted(insertion_sorted(rows.drop_last()), rows.last())
    }
}

/// The parts of this upload, by part number.
pub open spec fn sorted_parts(t: Tables, id: Seq<char>) -> Seq<PartView> {
    insertion_sorted(parts_of(t.parts, id))
}

// ---------------------------------------------------------------------------
// Facts
// ---------------------------------------------------------------------------
/// Looking up an id gives a row of the table that has it.
pub proof fn lemma_row_with_id(uploads: Seq<UploadView>, id: Seq<char>)
    ensures
        match row_with_id(uploads, id) {
            Some(u) => u.id == id && exists|i: int| 0 <= i < uploads.len() && uploads[i] == u,
            None => forall|i: int| 0 <= i < uploads.len() ==> (#[trigger] uploads[i]).id != id,
        },
    decreases uploads.len(),
{
    if uploads.len() > 0 {
        if uploads.last().id == id {
            assert(uploads[uploads.len() - 1] == uploads.last());
        } else {
            let front = uploads.drop_last();
            lemma_row_with_id(front, id);
            if row_with_id(uploads, id) is Some {
                let i = choose|i: int|
                    0 <= i < front.len() && front[i] == row_with_id(uploads, id)->0;
                assert(uploads[i] == front[i]);
            } else {
                assert forall|i: int| 0 <= i < uploads.len() implies (#[trigger] uploads[i]).id
                    != id by {
                    if i < front.len() {
                        assert(uploads[i] == front[i]);
                    }
                }
            }
        }
    }
}

/// With distinct ids, a row is what looking up its id gives.
pub proof fn lemma_row_found(uploads: Seq<UploadView>, i: int)
    requires
        distinct_uploads(uploads),
        0 <= i < uploads.len(),
    ensures
        row_with_id(uploads, uploads[i].id) == Some(uploads[i]),
{
    lemma_row_with_id(uploads, uploads[i].id);
    if row_with_id(uploads, uploads[i].id) is None {
        assert(uploads[i].id != uploads[i].id);
    } else {
        let u = row_with_id(uploads, uploads[i].id)->0;
        let j = choose|j: int| 0 <= j < uploads.len() && uploads[j] == u;
        if i < j {
            assert(uploads[i].id != uploads[j].id);
        } else if j < i {
            assert(uploads[j].id != uploads[i].id);
        }
    }
}

/// Replacing a row replaces it at its place and keeps the keys.
pub proof fn lemma_put(t: Tables, i: int, row: UploadView)
    requires
        keys_hold(t),
        0 <= i < t.uploads.len(),
        t.uploads[i].id == row.id,
    ensures
        put(t, row).uploads == t.uploads.update(i, row),
        keys_hold(put(t, row)),
        upload(put(t, row), row.id) == Some(row),
        forall|id: Seq<char>| id != row.id ==> #[trigger] upload(put(t, row), id) == upload(t, id),
{
    let after = put(t, row);
    assert(after.uploads =~= t.uploads.update(i, row)) by {
        assert forall|j: int| 0 <= j < t.uploads.len() implies after.uploads[j]
            == t.uploads.update(i, row)[j] by {
            if j < i {
                assert(t.uploads[j].id != t.uploads[i].id);
            } else if i < j {
                assert(t.uploads[i].id != t.uploads[j].id);
            }
        }
    }
    assert(distinct_uploads(after.uploads)) by {
        assert forall|j: int, k: int| 0 <= j < k < after.uploads.len() implies (
        #[trigger] after.uploads[j]).id != (#[trigger] after.uploads[k]).id by {
            assert(after.uploads[j].id == t.uploads[j].id);
            assert(after.uploads[k].id == t.uploads[k].id);
        }
    }
    assert(after.uploads[i] == row);
    lemma_row_found(after.uploads, i);
    assert forall|id: Seq<char>| id != row.id implies #[trigger] upload(after, id) == upload(
        t,
        id,
    ) by {
        lemma_row_with_id(t.uploads, id);
        match upload(t, id) {
            Some(u) => {
                let k = choose|k: int| 0 <= k < t.uploads.len() && t.uploads[k] == u;
                assert(after.uploads[k] == u);
                lemma_row_found(after.uploads, k);
            },
            None => {
                lemma_row_with_id(after.uploads, id);
                if upload(after, id) is Some {
                    let u = upload(after, id)->0;
                    let k = choose|k: int| 0 <= k < after.uploads.len() && after.uploads[k] == u;
                    assert(t.uploads[k].id == after.uploads[k].id);
                }
            },
        }
    }
    assert(parts_have_uploads(after)) by {
        assert forall|j: int| 0 <= j < after.parts.len() implies upload(
            after,
            (#[trigger] after.parts[j]).upload_id,
        ) is Some by {
            assert(upload(t, t.parts[j].upload_id) is Some);
        }
    }
}

/// Looking up a key gives a row of the table that has it.
pub proof fn lemma_part_with_key(parts: Seq<PartView>, id: Seq<char>, number: i32)
    ensures
        match part_with_key(parts, id, number) {
            Some(p) => p.upload_id == id && p.part_number == number && exists|i: int|
                0 <= i < parts.len() && parts[i] == p,
            None => forall|i: int|
                0 <= i < parts.len() ==> !((#[trigger] parts[i]).upload_id == id
                    && parts[i].part_number == number),
        },
    decreases parts.len(),
{
    if parts.len() > 0 {
        if parts.last().upload_id == id && parts.last().part_number == number {
            assert(parts[parts.len() - 1] == parts.last());
        } else {
            let front = parts.drop_last();
            lemma_part_with_key(front, id, number);
            if part_with_key(parts, id, number) is Some {
                let i = choose|i: int|
                    0 <= i < front.len() && front[i] == part_with_key(parts, id, number)->0;
                assert(parts[i] == front[i]);
            } else {
                assert forall|i: int| 0 <= i < parts.len() implies !((
                #[trigger] parts[i]).upload_id == id && parts[i].part_number == number) by {
                    if i < front.len() {
                        assert(parts[i] == front[i]);
                    }
                }
            }
        }
    }
}

/// With distinct keys, a row is what looking up its key gives.
pub proof fn lemma_part_found(parts: Seq<PartView>, i: int)
    requires
        distinct_parts(parts),
        0 <= i < parts.len(),
    ensures
        part_with_key(parts, parts[i].upload_id, parts[i].part_number) == Some(parts[i]),
{
    let id = parts[i].upload_id;
    let number = parts[i].part_number;
    lemma_part_with_key(parts, id, number);
    if part_with_key(parts, id, number) is None {
        assert(!(parts[i].upload_id == id && parts[i].part_number == number));
    } else {
        let p = part_with_key(parts, id, number)->0;
        let j = choose|j: int| 0 <= j < parts.len() && parts[j] == p;
        if i < j {
            assert(!same_key(parts[i], parts[j]));
        } else if j < i {
            assert(!same_key(parts[j], parts[i]));
        }
    }
}

/// Replacing a part replaces it at its place and keeps the keys.
pub proof fn lemma_put_part(t: Tables, i: int, row: PartView)
    requires
        keys_hold(t),
        0 <= i < t.parts.len(),
        same_key(t.parts[i], row),
    ensures
        put_part(t, row).parts == t.parts.update(i, row),
        keys_hold(put_part(t, row)),
        part(put_part(t, row), row.upload_id, row.part_number) == Some(row),
{
    let after = put_part(t, row);
    assert(after.parts =~= t.parts.update(i, row)) by {
        assert forall|j: int| 0 <= j < t.parts.len() implies after.parts[j] == t.parts.update(
            i,
            row,
        )[j] by {
            if j < i {
                assert(!same_key(t.parts[j], t.parts[i]));
            } else if i < j {
                assert(!same_key(t.parts[i], t.parts[j]));
            }
        }
    }
    assert(distinct_parts(after.parts)) by {
        assert forall|j: int, k: int| 0 <= j < k < after.parts.len() implies !same_key(
            #[trigger] after.parts[j],
            #[trigger] after.parts[k],
        ) by {
            assert(!same_key(t.parts[j], t.parts[k]));
        }
    }
    assert(after.parts[i] == row);
    lemma_part_found(after.parts, i);
    assert(parts_have_uploads(after)) by {
        assert forall|j: int| 0 <= j < after.parts.len() implies upload(
            after,
            (#[trigger] after.parts[j]).upload_id,
        ) is Some by {
            assert(upload(t, t.parts[j].upload_id) is Some);
        }
    }
}

/// Removing an upload leaves no trace of it and changes nothing else: every
/// other upload and every part of another upload is found as before.
pub proof fn removal_takes_the_upload_alone(t: Tables, id: Seq<char>)
    requires
        keys_hold(t),
    ensures
        keys_hold(without_upload(t, id)),
        upload(without_upload(t, id), id) is None,
        forall|other: Seq<char>|
            other != id ==> #[trigger] upload(without_upload(t, id), other) == upload(t, other),
        forall|number: i32| (#[trigger] part(without_upload(t, id), id, number)) is None,
        forall|other: Seq<char>, number: i32|
            other != id ==> #[trigger] part(without_upload(t, id), other, number) == part(
                t,
                other,
                number,
            ),
{
    let after = without_upload(t, id);
    lemma_rows_without_id(t.uploads, id);
    lemma_parts_not_of(t.parts, id);
    assert forall|i: int| 0 <= i < after.parts.len() implies upload(
        after,
        (#[trigger] after.parts[i]).upload_id,
    ) is Some by {
        let j = choose|j: int| 0 <= j < t.parts.len() && t.parts[j] == after.parts[i];
        assert(upload(t, t.parts[j].upload_id) is Some);
    }
    assert forall|number: i32| (#[trigger] part(after, id, number)) is None by {
        lemma_part_with_key(after.parts, id, number);
        if part(after, id, number) is Some {
            let p = part(after, id, number)->0;
            let j = choose|j: int| 0 <= j < after.parts.len() && after.parts[j] == p;
            assert(after.parts[j].upload_id != id);
        }
    }
}

proof fn lemma_rows_without_id(uploads: Seq<UploadView>, id: Seq<char>)
    requires
        distinct_uploads(uploads),
    ensures
        distinct_uploads(rows_without_id(uploads, id)),
        row_with_id(rows_without_id(uploads, id), id) is None,
        forall|other: Seq<char>|
            other != id ==> #[trigger] row_with_id(rows_without_id(uploads, id), other)
                == row_with_id(uploads, other),
        forall|i: int|
            0 <= i < rows_without_id(uploads, id).len() ==> exists|j: int|
                0 <= j < uploads.len() && uploads[j] == #[trigger] rows_without_id(uploads, id)[i],
    decreases uploads.len(),
{
    if uploads.len() > 0 {
        let front = uploads.drop_last();
        let kept = rows_without_id(front, id);
        let all = rows_without_id(uploads, id);
        assert(distinct_uploads(front)) by {
            assert forall|i: int, j: int| 0 <= i < j < front.len() implies (
            #[trigger] front[i]).id != (#[trigger] front[j]).id by {
                assert(uploads[i].id != uploads[j].id);
            }
        }
        lemma_rows_without_id(front, id);
        assert forall|i: int| 0 <= i < all.len() implies exists|j: int|
            0 <= j < uploads.len() && uploads[j] == #[trigger] all[i] by {
            if i < kept.len() {
                assert(all[i] == kept[i]);
                let j = choose|j: int| 0 <= j < front.len() && front[j] == kept[i];
                assert(uploads[j] == front[j]);
            } else {
                assert(uploads[uploads.len() - 1] == all[i]);
            }
        }
        if uploads.last().id != id {
            assert(all.drop_last() =~= kept);
            assert forall|i: int, j: int| 0 <= i < j < all.len() implies (#[trigger] all[i]).id
                != (#[trigger] all[j]).id by {
                if j < kept.len() {
                    assert(all[i] == kept[i] && all[j] == kept[j]);
                } else {
                    assert(all[i] == kept[i]);
                    let k = choose|k: int| 0 <= k < front.len() && front[k] == kept[i];
                    assert(uploads[k].id != uploads[uploads.len() - 1].id);
                }
            }
        }
        assert forall|other: Seq<char>| other != id implies #[trigger] row_with_id(all, other)
            == row_with_id(uploads, other) by {
            assert(row_with_id(kept, other) == row_with_id(front, other));
        }
    }
}

proof fn lemma_parts_not_of(parts: Seq<PartView>, id: Seq<char>)
    requires
        distinct_parts(parts),
    ensures
        distinct_parts(parts_not_of(parts, id)),
        forall|other: Seq<char>, number: i32|
            other != id ==> #[trigger] part_with_key(parts_not_of(parts, id), other, number)
                == part_with_key(parts, other, number),
        forall|i: int|
            0 <= i < parts_not_of(parts, id).len() ==> (#[trigger] parts_not_of(
                parts,
                id,
            )[i]).upload_id != id && exists|j: int|
                0 <= j < parts.len() && parts[j] == parts_not_of(parts, id)[i],
    decreases parts.len(),
{
    if parts.len() > 0 {
        let front = parts.drop_last();
        let kept = parts_not_of(front, id);
        let all = parts_not_of(parts, id);
        assert(distinct_parts(front)) by {
            assert forall|i: int, j: int| 0 <= i < j < front.len() implies !same_key(
                #[trigger] front[i],
                #[trigger] front[j],
            ) by {
                assert(!same_key(parts[i], parts[j]));
            }
        }
        lemma_parts_not_of(front, id);
        assert forall|i: int| 0 <= i < all.len() implies (#[trigger] all[i]).upload_id != id
            && exists|j: int| 0 <= j < parts.len() && parts[j] == all[i] by {
            if i < kept.len() {
                assert(all[i] == kept[i]);
                let j = choose|j: int| 0 <= j < front.len() && front[j] == kept[i];
                assert(parts[j] == front[j]);
            } else {
                assert(parts[parts.len() - 1] == all[i]);
            }
        }
        if parts.last().upload_id != id {
            assert(all.drop_last() =~= kept);
            assert forall|i: int, j: int| 0 <= i < j < all.len() implies !same_key(
                #[trigger] all[i],
                #[trigger] all[j],
            ) by {
                if j < kept.len() {
                    assert(all[i] == kept[i] && all[j] == kept[j]);
                } else {
                    assert(all[i] == kept[i]);
                    let k = choose|k: int| 0 <= k < front.len() && front[k] == kept[i];
                    assert(!same_key(parts[k], parts[parts.len() - 1]));
                }
            }
        }
        assert forall|other: Seq<char>, number: i32| other != id implies #[trigger] part_with_key(
            all,
            other,
            number,
        ) == part_with_key(parts, other, number) by {
            assert(part_with_key(kept, other, number) == part_with_key(front, other, number));
        }
    }
}

/// The rows of an upload come in the order of their numbers, and none is lost
/// or made up.
pub proof fn parts_come_sorted(t: Tables, id: Seq<char>)
    requires
        keys_hold(t),
    ensures
        by_number(sorted_parts(t, id)),
        sorted_parts(t, id).to_multiset() == parts_of(t.parts, id).to_multiset(),
        sorted_parts(t, id).len() == parts_of(t.parts, id).len(),
{
    lemma_parts_of(t.parts, id);
    lemma_insertion_sorted(parts_of(t.parts, id));
}

/// No two rows have the same number.
pub open spec fn distinct_numbers(rows: Seq<PartView>) -> bool {
    forall|i: int, j: int|
        0 <= i < j < rows.len() ==> (#[trigger] rows[i]).part_number != (
        #[trigger] rows[j]).part_number
}

proof fn lemma_parts_of(parts: Seq<PartView>, id: Seq<char>)
    requires
        distinct_parts(parts),
    ensures
        distinct_numbers(parts_of(parts, id)),
        forall|i: int|
            0 <= i < parts_of(parts, id).len() ==> (#[trigger] parts_of(parts, id)[i]).upload_id
                == id && exists|j: int| 0 <= j < parts.len() && parts[j] == parts_of(parts, id)[i],
    decreases parts.len(),
{
    if parts.len() > 0 {
        let front = parts.drop_last();
        let kept = parts_of(front, id);
        let all = parts_of(parts, id);
        assert(distinct_parts(front)) by {
            assert forall|i: int, j: int| 0 <= i < j < front.len() implies !same_key(
                #[trigger] front[i],
                #[trigger] front[j],
            ) by {
                assert(!same_key(parts[i], parts[j]));
            }
        }
        lemma_parts_of(front, id);
        assert forall|i: int| 0 <= i < all.len() implies (#[trigger] all[i]).upload_id == id
            && exists|j: int| 0 <= j < parts.len() && parts[j] == all[i] by {
            if i < kept.len() {
                assert(all[i] == kept[i]);
                let j = choose|j: int| 0 <= j < front.len() && front[j] == kept[i];
                assert(parts[j] == front[j]);
            } else {
                assert(parts[parts.len() - 1] == all[i]);
            }
        }
        if parts.last().upload_id == id {
            assert forall|i: int, j: int| 0 <= i < j < all.len() implies (
            #[trigger] all[i]).part_number != (#[trigger] all[j]).part_number by {
                if j < kept.len() {
                    assert(all[i] == kept[i] && all[j] == kept[j]);
                } else {
                    assert(all[i] == kept[i]);
                    let k = choose|k: int| 0 <= k < front.len() && front[k] == kept[i];
                    assert(!same_key(parts[k], parts[parts.len() - 1]));
                }
            }
        }
    }
}

proof fn lemma_inserted(rows: Seq<PartView>, row: PartView)
    requires
        by_number(rows),
        forall|i: int| 0 <= i < rows.len() ==> (#[trigger] rows[i]).part_number != row.part_number,
    ensures
        by_number(inserted(rows, row)),
        inserted(rows, row).to_multiset() == rows.to_multiset().insert(row),
        inserted(rows, row).len() == rows.len() + 1,
        forall|i: int|
            0 <= i < inserted(rows, row).len() ==> #[trigger] inserted(rows, row)[i] == row
                || rows.contains(inserted(rows, row)[i]),
    decreases rows.len(),
{
    broadcast use vstd::seq_lib::group_to_multiset_ensures;

    let all = inserted(rows, row);
    if rows.len() > 0 && rows.last().part_number > row.part_number {
        let front = rows.drop_last();
        let head = inserted(front, row);
        assert forall|i: int| 0 <= i < front.len() implies (#[trigger] front[i]).part_number
            != row.part_number by {
            assert(front[i] == rows[i]);
        }
        assert(by_number(front)) by {
            assert forall|i: int, j: int| 0 <= i < j < front.len() implies (
            #[trigger] front[i]).part_number < (#[trigger] front[j]).part_number by {
                assert(front[i] == rows[i] && front[j] == rows[j]);
            }
        }
        lemma_inserted(front, row);
        assert(rows =~= front.push(rows.last()));
        assert(all.to_multiset() =~= rows.to_multiset().insert(row));
        assert forall|i: int| 0 <= i < all.len() implies #[trigger] all[i] == row || rows.contains(
            all[i],
        ) by {
            if i < head.len() {
                assert(all[i] == head[i]);
                if head[i] != row {
                    let k = choose|k: int| 0 <= k < front.len() && front[k] == head[i];
                    assert(rows[k] == all[i]);
                }
            } else {
                assert(rows[rows.len() - 1] == all[i]);
            }
        }
        assert forall|i: int, j: int| 0 <= i < j < all.len() implies (
        #[trigger] all[i]).part_number < (#[trigger] all[j]).part_number by {
            if j < head.len() {
                assert(all[i] == head[i] && all[j] == head[j]);
            } else {
                assert(all[i] == head[i]);
                if head[i] != row {
                    let k = choose|k: int| 0 <= k < front.len() && front[k] == head[i];
                    assert(rows[k].part_number < rows[rows.len() - 1].part_number);
                }
            }
        }
    } else {
        assert forall|i: int| 0 <= i < all.len() implies #[trigger] all[i] == row || rows.contains(
            all[i],
        ) by {
            if i < rows.len() {
                assert(rows[i] == all[i]);
            }
        }
        assert forall|i: int, j: int| 0 <= i < j < all.len() implies (
        #[trigger] all[i]).part_number < (#[trigger] all[j]).part_number by {
            assert(all[i] == rows[i]);
            if j < rows.len() {
                assert(all[j] == rows[j]);
            } else {
                let last = rows.len() - 1;
                assert(rows[last].part_number < row.part_number);
                if i < last {
                    assert(rows[i].part_number < rows[last].part_number);
                }
            }
        }
    }
}

proof fn lemma_insertion_sorted(rows: Seq<PartView>)
    requires
        distinct_numbers(rows),
    ensures
        by_number(insertion_sorted(rows)),
        insertion_sorted(rows).to_multiset() == rows.to_multiset(),
        insertion_sorted(rows).len() == rows.len(),
        forall|i: int|
            0 <= i < insertion_sorted(rows).len() ==> rows.contains(
                #[trigger] insertion_sorted(rows)[i],
            ),
    decreases rows.len(),
{
    broadcast use vstd::seq_lib::group_to_multiset_ensures;

    if rows.len() > 0 {
        let front = rows.drop_last();
        let head = insertion_sorted(front);
        let all = insertion_sorted(rows);
        assert(distinct_numbers(front)) by {
            assert forall|i: int, j: int| 0 <= i < j < front.len() implies (
            #[trigger] front[i]).part_number != (#[trigger] front[j]).part_number by {
                assert(front[i] == rows[i] && front[j] == rows[j]);
            }
        }
        lemma_insertion_sorted(front);
        assert forall|i: int| 0 <= i < head.len() implies (#[trigger] head[i]).part_number
            != rows.last().part_number by {
            let k = choose|k: int| 0 <= k < front.len() && front[k] == head[i];
            assert(rows[k].part_number != rows[rows.len() - 1].part_number);
        }
        lemma_inserted(head, rows.last());
        assert(rows =~= front.push(rows.last()));
        assert forall|i: int| 0 <= i < all.len() implies rows.contains(#[trigger] all[i]) by {
            if all[i] == rows.last() {
                assert(rows[rows.len() - 1] == all[i]);
            } else {
                let j = choose|j: int| 0 <= j < head.len() && head[j] == all[i];
                assert(front.contains(head[j]));
                let k = choose|k: int| 0 <= k < front.len() && front[k] == head[j];
                assert(rows[k] == all[i]);
            }
        }
    }
}

/// A restart changes rows, not keys.
pub proof fn restart_keeps_the_keys(t: Tables, now: i64)
    requires
        keys_hold(t),
    ensures
        keys_hold(all_after_restart(t, now)),
        forall|id: Seq<char>| #[trigger]
            upload(all_after_restart(t, now), id) == match upload(t, id) {
                Some(u) => Some(after_restart(u, now)),
                None => None,
            },
{
    let after = all_after_restart(t, now);
    assert(distinct_uploads(after.uploads)) by {
        assert forall|i: int, j: int| 0 <= i < j < after.uploads.len() implies (
        #[trigger] after.uploads[i]).id != (#[trigger] after.uploads[j]).id by {
            assert(t.uploads[i].id != t.uploads[j].id);
        }
    }
    assert forall|id: Seq<char>| #[trigger] upload(after, id) == match upload(t, id) {
        Some(u) => Some(after_restart(u, now)),
        None => None,
    } by {
        lemma_row_with_id(t.uploads, id);
        lemma_row_with_id(after.uploads, id);
        match upload(t, id) {
            Some(u) => {
                let k = choose|k: int| 0 <= k < t.uploads.len() && t.uploads[k] == u;
                assert(after.uploads[k] == after_restart(u, now));
                lemma_row_found(after.uploads, k);
            },
            None => {
                if upload(after, id) is Some {
                    let u = upload(after, id)->0;
                    let k = choose|k: int| 0 <= k < after.uploads.len() && after.uploads[k] == u;
                    assert(t.uploads[k].id == after.uploads[k].id);
                }
            },
        }
    }
    assert forall|i: int| 0 <= i < after.parts.len() implies upload(
        after,
        (#[trigger] after.parts[i]).upload_id,
    ) is Some by {
        assert(upload(t, t.parts[i].upload_id) is Some);
    }
}

/// An id that no upload has belongs to no part either.
pub proof fn unknown_ids_have_no_parts(t: Tables, id: Seq<char>)
    requires
        keys_hold(t),
        upload(t, id) is None,
    ensures
        forall|i: int| 0 <= i < t.parts.len() ==> (#[trigger] t.parts[i]).upload_id != id,
{
    assert forall|i: int| 0 <= i < t.parts.len() implies (#[trigger] t.parts[i]).upload_id != id by {
        assert(upload(t, t.parts[i].upload_id) is Some);
    }
}

/// Rows numbered from 0 upwards for an upload that has none yet are all taken.
pub proof fn fresh_parts_are_all_taken(t: Tables, rows: Seq<PartView>, id: Seq<char>, from: int)
    requires
        0 <= from <= rows.len(),
        upload(t, id) is Some,
        forall|i: int| 0 <= i < t.parts.len() ==> (#[trigger] t.parts[i]).upload_id != id,
        forall|i: int|
            0 <= i < rows.len() ==> (#[trigger] rows[i]).upload_id == id && rows[i].part_number
                == i,
    ensures
        taken(t, rows, from) == rows.len(),
    decreases rows.len() - from,
{
    if from < rows.len() {
        let mid = with_parts(t, rows, from);
        lemma_part_with_key(mid.parts, id, rows[from].part_number);
        if part(mid, id, rows[from].part_number) is Some {
            let p = part(mid, id, rows[from].part_number)->0;
            let j = choose|j: int| 0 <= j < mid.parts.len() && mid.parts[j] == p;
            if j < t.parts.len() {
                assert(mid.parts[j] == t.parts[j]);
            } else {
                assert(mid.parts[j] == rows[j - t.parts.len()]);
            }
        }
        assert(rows[from].upload_id == id);
        fresh_parts_are_all_taken(t, rows, id, from + 1);
    }
}

} // verus!
