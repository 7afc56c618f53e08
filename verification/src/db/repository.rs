//! The operations on the tables.
use crate::db::lifecycle::{
    after_restart, completed, failed, is_stale, may_start, part_reached, progressed, restarted,
    started, with_final_path, with_status,
};
use crate::db::schema::{
    PartStatus, PartView, Upload, UploadPart, UploadStatus, UploadView,
};
use crate::db::tables::{
    all_after_restart, by_number, expired_rows, finalizing_count, inserted, insertion_sorted,
    keys_hold, lemma_part_found, lemma_part_with_key, lemma_put, lemma_put_part, lemma_row_found,
    lemma_row_with_id, part, part_refusal, parts_come_sorted, parts_not_of, parts_of, put,
    put_part, removal_takes_the_upload_alone, restart_keeps_the_keys, rows_without_id,
    sorted_parts, taken, upload, uploaded_count, with_parts, without_upload, Tables,
};
use crate::db::Database;
use crate::error::{AppError, ErrorView};
use crate::decimal::{decimal, push_decimal, push_decimal_unsigned};
use crate::text::{option_str_view, same};
use vstd::prelude::*;

verus! {

/// The rows of a vector of uploads.
pub open spec fn upload_views(rows: Seq<Upload>) -> Seq<UploadView> {
    Seq::new(rows.len(), |i: int| rows[i]@)
}

/// The rows of a vector of parts.
pub open spec fn part_views(rows: Seq<UploadPart>) -> Seq<PartView> {
    Seq::new(rows.len(), |i: int| rows[i]@)
}

/// What is answered when no upload has the id.
pub open spec fn upload_not_found(id: Seq<char>) -> ErrorView {
    ErrorView::NotFound("Upload "@ + id + " not found"@)
}

/// What is answered when no part has the key.
pub open spec fn part_not_found(id: Seq<char>, number: i32) -> ErrorView {
    ErrorView::NotFound("Part "@ + decimal(number as int) + " not found for upload "@ + id)
}

/// What is answered when a count does not fit its type.
pub open spec fn count_out_of_range(count: nat) -> ErrorView {
    ErrorView::Database("Integer "@ + decimal(count as int) + " out of range at index 0"@)
}

impl Database {
    // -----------------------------------------------------------------------
    // Uploads
    // -----------------------------------------------------------------------
    /// The place of the upload with this id.
    fn position(&self, id: &str) -> (place: Option<usize>)
        requires
            self.wf(),
        ensures
            match place {
                Some(i) => i < self.uploads@.len() && self@.uploads[i as int].id == id@ && upload(
                    self@,
                    id@,
                ) == Some(self@.uploads[i as int]),
                None => upload(self@, id@) is None,
            },
    {
        let mut i: usize = 0;
        while i < self.uploads.len()
            invariant
                self.wf(),
                i <= self.uploads@.len(),
                forall|j: int| 0 <= j < i ==> (#[trigger] self@.uploads[j]).id != id@,
            decreases self.uploads@.len() - i,
        {
            if same(self.uploads[i].id.as_str(), id) {
                proof {
                    lemma_row_found(self@.uploads, i as int);
                }
                return Some(i);
            }
            i += 1;
        }
        proof {
            lemma_row_with_id(self@.uploads, id@);
        }
        None
    }

    /// Puts `row` at place `i`, in the stead of the row that has its id.
    fn replace(&mut self, i: usize, row: Upload)
        requires
            old(self).wf(),
            i < old(self).uploads@.len(),
            old(self)@.uploads[i as int].id == row@.id,
        ensures
            final(self).wf(),
            final(self)@ == put(old(self)@, row@),
    {
        proof {
            lemma_put(self@, i as int, row@);
        }
        self.uploads.set(i, row);
        assert(self@.uploads =~= old(self)@.uploads.update(i as int, row@));
        assert(self@.parts =~= old(self)@.parts);
        assert(self@ =~= put(old(self)@, row@));
    }

    /// Adds an upload. Its id must be new.
    pub fn create_upload(&mut self, new: &Upload) -> (outcome: Result<(), AppError>)
        requires
            old(self).wf(),
        ensures
            final(self).wf(),
            match outcome {
                Ok(()) => upload(old(self)@, new@.id) is None && final(self)@ == (Tables {
                    uploads: old(self)@.uploads.push(new@),
                    parts: old(self)@.parts,
                }),
                Err(e) => upload(old(self)@, new@.id) is Some && final(self)@ == old(self)@ && e@
                    == ErrorView::Database("UNIQUE constraint failed: uploads.id"@),
            },
    {
        if self.position(new.id.as_str()).is_some() {
            return Err(AppError::Database("UNIQUE constraint failed: uploads.id".to_owned()));
        }
        proof {
            lemma_row_with_id(self@.uploads, new@.id);
        }
        self.uploads.push(new.clone());
        proof {
            let before = old(self)@;
            let after = self@;
            assert(after.uploads =~= before.uploads.push(new@));
            assert(after.parts =~= before.parts);
            assert forall|i: int| 0 <= i < after.parts.len() implies upload(
                after,
                (#[trigger] after.parts[i]).upload_id,
            ) is Some by {
                assert(upload(before, before.parts[i].upload_id) is Some);
                assert(after.uploads.drop_last() =~= before.uploads);
            }
        }
        Ok(())
    }

    /// The upload with this id.
    pub fn get_upload(&self, id: &str) -> (outcome: Result<Upload, AppError>)
        requires
            self.wf(),
        ensures
            match outcome {
                Ok(u) => upload(self@, id@) == Some(u@),
                Err(e) => upload(self@, id@) is None && e@ == upload_not_found(id@),
            },
    {
        match self.position(id) {
            Some(i) => Ok(self.uploads[i].clone()),
            None => {
                let mut message: String = "Upload ".to_owned();
                message.append(id);
                message.append(" not found");
                Err(AppError::NotFound(message))
            },
        }
    }

    /// Sets the status of an upload.
    pub fn update_upload_status(&mut self, id: &str, status: UploadStatus, now: i64)
        requires
            old(self).wf(),
        ensures
            final(self).wf(),
            final(self)@ == match upload(old(self)@, id@) {
                Some(u) => put(old(self)@, with_status(u, status, now)),
                None => old(self)@,
            },
    {
        if let Some(i) = self.position(id) {
            let mut row: Upload = self.uploads[i].clone();
            row.status = status;
            row.updated_at = now;
            self.replace(i, row);
        }
    }

    /// Begins finalization where the upload allows it, and says whether it did.
    pub fn try_start_finalization(&mut self, id: &str, now: i64) -> (begun: bool)
        requires
            old(self).wf(),
        ensures
            final(self).wf(),
            begun == (upload(old(self)@, id@) matches Some(u) && may_start(u)),
            final(self)@ == if begun {
                put(old(self)@, started(upload(old(self)@, id@)->0, now))
            } else {
                old(self)@
            },
    {
        if let Some(i) = self.position(id) {
            let mut row: Upload = self.uploads[i].clone();
            if row.status == UploadStatus::Pending || row.status == UploadStatus::Failed {
                row.status = UploadStatus::Finalizing;
                row.finalization_started_at = Some(now);
                row.finalization_updated_at = Some(now);
                row.finalization_error = None;
                row.finalizing_progress_percent = 0;
                row.updated_at = now;
                self.replace(i, row);
                return true;
            }
        }
        false
    }

    /// Begins a finalization again that has not moved for more than the
    /// threshold, and says whether it did.
    pub fn restart_stale_finalization(
        &mut self,
        id: &str,
        stale_threshold_secs: i64,
        now: i64,
    ) -> (begun: bool)
        requires
            old(self).wf(),
            i64::MIN <= now - stale_threshold_secs <= i64::MAX,
        ensures
            final(self).wf(),
            begun == (upload(old(self)@, id@) matches Some(u) && is_stale(
                u,
                now,
                stale_threshold_secs,
            )),
            final(self)@ == if begun {
                put(old(self)@, restarted(upload(old(self)@, id@)->0, now))
            } else {
                old(self)@
            },
    {
        let cutoff: i64 = now - stale_threshold_secs;
        if let Some(i) = self.position(id) {
            let mut row: Upload = self.uploads[i].clone();
            let stale: bool = match row.finalization_updated_at {
                Some(at) => row.status == UploadStatus::Finalizing && at < cutoff,
                None => false,
            };
            if stale {
                row.finalization_started_at = Some(now);
                row.finalization_updated_at = Some(now);
                row.finalization_error = None;
                row.finalizing_progress_percent = 0;
                row.updated_at = now;
                self.replace(i, row);
                return true;
            }
        }
        false
    }

    /// Records how far finalization has come.
    pub fn update_finalizing_progress(&mut self, id: &str, progress_percent: i32, now: i64)
        requires
            old(self).wf(),
        ensures
            final(self).wf(),
            final(self)@ == match upload(old(self)@, id@) {
                Some(u) => put(old(self)@, progressed(u, progress_percent, now)),
                None => old(self)@,
            },
    {
        if let Some(i) = self.position(id) {
            let mut row: Upload = self.uploads[i].clone();
            row.finalizing_progress_percent = if progress_percent < 0 {
                0
            } else if progress_percent > 100 {
                100
            } else {
                progress_percent
            };
            row.finalization_updated_at = Some(now);
            row.updated_at = now;
            self.replace(i, row);
        }
    }

    /// Records that finalization has succeeded.
    pub fn mark_finalization_complete(&mut self, id: &str, final_path: &str, now: i64)
        requires
            old(self).wf(),
        ensures
            final(self).wf(),
            final(self)@ == match upload(old(self)@, id@) {
                Some(u) => put(old(self)@, completed(u, final_path@, now)),
                None => old(self)@,
            },
    {
        if let Some(i) = self.position(id) {
            let mut row: Upload = self.uploads[i].clone();
            row.status = UploadStatus::Complete;
            row.final_path = Some(final_path.to_owned());
            row.finalizing_progress_percent = 100;
            row.finalization_error = None;
            row.finalization_updated_at = Some(now);
            row.updated_at = now;
            self.replace(i, row);
        }
    }

    /// Records that finalization has failed.
    pub fn mark_finalization_failed(&mut self, id: &str, error: &str, now: i64)
        requires
            old(self).wf(),
        ensures
            final(self).wf(),
            final(self)@ == match upload(old(self)@, id@) {
                Some(u) => put(old(self)@, failed(u, error@, now)),
                None => old(self)@,
            },
    {
        if let Some(i) = self.position(id) {
            let mut row: Upload = self.uploads[i].clone();
            row.status = UploadStatus::Failed;
            row.finalization_error = Some(error.to_owned());
            row.finalization_updated_at = Some(now);
            row.updated_at = now;
            self.replace(i, row);
        }
    }

    /// Sets the final path of an upload.
    pub fn update_upload_final_path(&mut self, id: &str, final_path: &str, now: i64)
        requires
            old(self).wf(),
        ensures
            final(self).wf(),
            final(self)@ == match upload(old(self)@, id@) {
                Some(u) => put(old(self)@, with_final_path(u, final_path@, now)),
                None => old(self)@,
            },
    {
        if let Some(i) = self.position(id) {
            let mut row: Upload = self.uploads[i].clone();
            row.final_path = Some(final_path.to_owned());
            row.updated_at = now;
            self.replace(i, row);
        }
    }

    /// Removes an upload with all its parts.
    pub fn delete_upload(&mut self, id: &str)
        requires
            old(self).wf(),
        ensures
            final(self).wf(),
            final(self)@ == without_upload(old(self)@, id@),
    {
        let ghost before = self@;
        let mut parts: Vec<UploadPart> = Vec::new();
        let mut i: usize = 0;
        while i < self.parts.len()
            invariant
                i <= self.parts@.len(),
                self@ == before,
                part_views(parts@) == parts_not_of(before.parts.take(i as int), id@),
            decreases self.parts@.len() - i,
        {
            assert(before.parts.take(i + 1).drop_last() =~= before.parts.take(i as int));
            assert(before.parts.take(i + 1).last() == self.parts@[i as int]@);
            if !same(self.parts[i].upload_id.as_str(), id) {
                let ghost kept = parts@;
                parts.push(self.parts[i].clone());
                assert(part_views(parts@) =~= part_views(kept).push(self.parts@[i as int]@));
            }
            i += 1;
        }
        assert(before.parts.take(i as int) =~= before.parts);
        let mut uploads: Vec<Upload> = Vec::new();
        let mut j: usize = 0;
        while j < self.uploads.len()
            invariant
                j <= self.uploads@.len(),
                self@ == before,
                upload_views(uploads@) == rows_without_id(before.uploads.take(j as int), id@),
            decreases self.uploads@.len() - j,
        {
            assert(before.uploads.take(j + 1).drop_last() =~= before.uploads.take(j as int));
            assert(before.uploads.take(j + 1).last() == self.uploads@[j as int]@);
            if !same(self.uploads[j].id.as_str(), id) {
                let ghost kept = uploads@;
                uploads.push(self.uploads[j].clone());
                assert(upload_views(uploads@) =~= upload_views(kept).push(
                    self.uploads@[j as int]@,
                ));
            }
            j += 1;
        }
        assert(before.uploads.take(j as int) =~= before.uploads);
        self.parts = parts;
        self.uploads = uploads;
        proof {
            assert(self@ =~= without_upload(before, id@));
            removal_takes_the_upload_alone(before, id@);
        }
    }

    // -----------------------------------------------------------------------
    // Parts
    // -----------------------------------------------------------------------
    /// The place of the part with this key.
    fn part_position(&self, id: &str, number: i32) -> (place: Option<usize>)
        requires
            self.wf(),
        ensures
            match place {
                Some(i) => i < self.parts@.len() && self@.parts[i as int].upload_id == id@
                    && self@.parts[i as int].part_number == number && part(self@, id@, number)
                    == Some(self@.parts[i as int]),
                None => part(self@, id@, number) is None,
            },
    {
        let mut i: usize = 0;
        while i < self.parts.len()
            invariant
                self.wf(),
                i <= self.parts@.len(),
                forall|j: int|
                    0 <= j < i ==> !((#[trigger] self@.parts[j]).upload_id == id@
                        && self@.parts[j].part_number == number),
            decreases self.parts@.len() - i,
        {
            if self.parts[i].part_number == number && same(self.parts[i].upload_id.as_str(), id) {
                proof {
                    lemma_part_found(self@.parts, i as int);
                }
                return Some(i);
            }
            i += 1;
        }
        proof {
            lemma_part_with_key(self@.parts, id@, number);
        }
        None
    }

    /// Adds part rows one after the other, up to the first that the table turns
    /// down. What was added before that stays.
    pub fn create_parts(&mut self, new: &Vec<UploadPart>) -> (outcome: Result<(), AppError>)
        requires
            old(self).wf(),
        ensures
            final(self).wf(),
            ({
                let rows = part_views(new@);
                let n = taken(old(self)@, rows, 0);
                &&& 0 <= n <= rows.len()
                &&& final(self)@ == with_parts(old(self)@, rows, n)
                &&& match outcome {
                    Ok(()) => n == rows.len(),
                    Err(e) => n < rows.len() && part_refusal(final(self)@, rows[n]) == Some(e@),
                }
            }),
    {
        let ghost before = self@;
        let ghost rows = part_views(new@);
        let mut i: usize = 0;
        assert(self@ =~= with_parts(before, rows, 0));
        while i < new.len()
            invariant
                self.wf(),
                i <= new@.len(),
                before == old(self)@,
                rows == part_views(new@),
                self@ == with_parts(before, rows, i as int),
                taken(before, rows, 0) == taken(before, rows, i as int),
            decreases new@.len() - i,
        {
            assert(rows[i as int] == new@[i as int]@);
            if self.part_position(new[i].upload_id.as_str(), new[i].part_number).is_some() {
                return Err(
                    AppError::Database(
                        "UNIQUE constraint failed: upload_parts.upload_id, upload_parts.part_number".to_owned(),
                    ),
                );
            }
            if self.position(new[i].upload_id.as_str()).is_none() {
                return Err(AppError::Database("FOREIGN KEY constraint failed".to_owned()));
            }
            let ghost mid = self@;
            proof {
                lemma_part_with_key(mid.parts, rows[i as int].upload_id, rows[i as int].part_number);
            }
            self.parts.push(new[i].clone());
            proof {
                assert(self@.parts =~= mid.parts.push(rows[i as int]));
                assert(self@.uploads =~= mid.uploads);
                assert(rows.take(i + 1) =~= rows.take(i as int).push(rows[i as int]));
                assert(self@ =~= with_parts(before, rows, i + 1));
                assert(keys_hold(self@)) by {
                    assert forall|j: int| 0 <= j < self@.parts.len() implies upload(
                        self@,
                        (#[trigger] self@.parts[j]).upload_id,
                    ) is Some by {
                        if j < mid.parts.len() {
                            assert(upload(mid, mid.parts[j].upload_id) is Some);
                        }
                    }
                }
            }
            i += 1;
        }
        Ok(())
    }

    /// The part of an upload with this number.
    pub fn get_part(&self, upload_id: &str, part_number: i32) -> (outcome: Result<
        UploadPart,
        AppError,
    >)
        requires
            self.wf(),
        ensures
            match outcome {
                Ok(p) => part(self@, upload_id@, part_number) == Some(p@),
                Err(e) => part(self@, upload_id@, part_number) is None && e@ == part_not_found(
                    upload_id@,
                    part_number,
                ),
            },
    {
        match self.part_position(upload_id, part_number) {
            Some(i) => Ok(self.parts[i].clone()),
            None => {
                let mut message: String = "Part ".to_owned();
                push_decimal(&mut message, part_number as i64);
                message.append(" not found for upload ");
                message.append(upload_id);
                Err(AppError::NotFound(message))
            },
        }
    }

    /// All parts of an upload, by part number.
    pub fn get_all_parts(&self, upload_id: &str) -> (found: Vec<UploadPart>)
        requires
            self.wf(),
        ensures
            part_views(found@) == sorted_parts(self@, upload_id@),
            by_number(part_views(found@)),
            part_views(found@).to_multiset() == parts_of(self@.parts, upload_id@).to_multiset(),
    {
        let mut found: Vec<UploadPart> = Vec::new();
        let mut i: usize = 0;
        assert(part_views(found@) =~= Seq::<PartView>::empty());
        while i < self.parts.len()
            invariant
                self.wf(),
                i <= self.parts@.len(),
                part_views(found@) == insertion_sorted(
                    parts_of(self@.parts.take(i as int), upload_id@),
                ),
            decreases self.parts@.len() - i,
        {
            assert(self@.parts.take(i + 1).drop_last() =~= self@.parts.take(i as int));
            assert(self@.parts.take(i + 1).last() == self.parts@[i as int]@);
            if same(self.parts[i].upload_id.as_str(), upload_id) {
                let ghost row = self.parts@[i as int]@;
                let ghost picked = parts_of(self@.parts.take(i as int), upload_id@);
                assert(picked.push(row).drop_last() =~= picked);
                insert_by_number(&mut found, self.parts[i].clone());
            }
            i += 1;
        }
        assert(self@.parts.take(i as int) =~= self@.parts);
        proof {
            parts_come_sorted(self@, upload_id@);
        }
        found
    }

    /// Records that a part has reached a status, with its checksum.
    pub fn update_part_status(
        &mut self,
        upload_id: &str,
        part_number: i32,
        status: PartStatus,
        checksum: Option<&str>,
        now: i64,
    )
        requires
            old(self).wf(),
        ensures
            final(self).wf(),
            final(self)@ == match part(old(self)@, upload_id@, part_number) {
                Some(p) => put_part(
                    old(self)@,
                    part_reached(p, status, option_str_view(checksum), now),
                ),
                None => old(self)@,
            },
    {
        if let Some(i) = self.part_position(upload_id, part_number) {
            let mut row: UploadPart = self.parts[i].clone();
            row.status = status;
            row.uploaded_at = Some(now);
            row.checksum_sha256 = match checksum {
                Some(text) => Some(text.to_owned()),
                None => None,
            };
            let ghost view = row@;
            proof {
                lemma_put_part(self@, i as int, view);
            }
            self.parts.set(i, row);
            assert(self@.parts =~= old(self)@.parts.update(i as int, view));
            assert(self@.uploads =~= old(self)@.uploads);
            assert(self@ =~= put_part(old(self)@, view));
        }
    }

    /// How many parts of an upload have arrived. The count must fit its type.
    pub fn count_uploaded_parts(&self, upload_id: &str) -> (outcome: Result<i32, AppError>)
        ensures
            match outcome {
                Ok(n) => n == uploaded_count(self@.parts, upload_id@),
                Err(e) => uploaded_count(self@.parts, upload_id@) > i32::MAX && e@
                    == count_out_of_range(uploaded_count(self@.parts, upload_id@)),
            },
    {
        let mut count: u64 = 0;
        let mut i: usize = 0;
        while i < self.parts.len()
            invariant
                i <= self.parts@.len(),
                count <= i,
                count == uploaded_count(self@.parts.take(i as int), upload_id@),
            decreases self.parts@.len() - i,
        {
            assert(self@.parts.take(i + 1).drop_last() =~= self@.parts.take(i as int));
            assert(self@.parts.take(i + 1).last() == self.parts@[i as int]@);
            if self.parts[i].status == PartStatus::Uploaded && same(
                self.parts[i].upload_id.as_str(),
                upload_id,
            ) {
                count += 1;
            }
            i += 1;
        }
        assert(self@.parts.take(i as int) =~= self@.parts);
        if count <= 2147483647 {
            Ok(count as i32)
        } else {
            let mut message: String = "Integer ".to_owned();
            push_decimal_unsigned(&mut message, count);
            message.append(" out of range at index 0");
            Err(AppError::Database(message))
        }
    }

    /// Whether as many parts have arrived as the upload has.
    pub fn all_parts_uploaded(&self, upload_id: &str) -> (outcome: Result<bool, AppError>)
        requires
            self.wf(),
        ensures
            match upload(self@, upload_id@) {
                None => outcome matches Err(e) && e@ == upload_not_found(upload_id@),
                Some(u) => if uploaded_count(self@.parts, upload_id@) > i32::MAX {
                    outcome matches Err(e) && e@ == count_out_of_range(
                        uploaded_count(self@.parts, upload_id@),
                    )
                } else {
                    outcome matches Ok(all) && all == (uploaded_count(self@.parts, upload_id@)
                        == u.total_parts)
                },
            },
    {
        let row: Upload = match self.get_upload(upload_id) {
            Ok(row) => row,
            Err(e) => return Err(e),
        };
        match self.count_uploaded_parts(upload_id) {
            Ok(count) => Ok(count == row.total_parts),
            Err(e) => Err(e),
        }
    }

    // -----------------------------------------------------------------------
    // Housekeeping
    // -----------------------------------------------------------------------
    /// The uploads that were never completed and whose time has passed.
    pub fn list_expired_pending_uploads(&self, now: i64) -> (found: Vec<Upload>)
        ensures
            upload_views(found@) == expired_rows(self@.uploads, now),
    {
        let mut found: Vec<Upload> = Vec::new();
        let mut i: usize = 0;
        while i < self.uploads.len()
            invariant
                i <= self.uploads@.len(),
                upload_views(found@) == expired_rows(self@.uploads.take(i as int), now),
            decreases self.uploads@.len() - i,
        {
            assert(self@.uploads.take(i + 1).drop_last() =~= self@.uploads.take(i as int));
            assert(self@.uploads.take(i + 1).last() == self.uploads@[i as int]@);
            if self.uploads[i].expires_at < now && self.uploads[i].status == UploadStatus::Pending {
                let ghost kept = found@;
                found.push(self.uploads[i].clone());
                assert(upload_views(found@) =~= upload_views(kept).push(self.uploads@[i as int]@));
            }
            i += 1;
        }
        assert(self@.uploads.take(i as int) =~= self@.uploads);
        found
    }

    /// Marks every finalization as failed that was under way when the service
    /// stopped, and says how many there were.
    pub fn mark_stale_finalizing_failed_on_boot(&mut self, now: i64) -> (count: usize)
        requires
            old(self).wf(),
        ensures
            final(self).wf(),
            final(self)@ == all_after_restart(old(self)@, now),
            count == finalizing_count(old(self)@.uploads),
    {
        let ghost before = self@;
        let mut count: usize = 0;
        let mut i: usize = 0;
        while i < self.uploads.len()
            invariant
                i <= self.uploads@.len(),
                self.uploads@.len() == before.uploads.len(),
                self@.parts == before.parts,
                forall|j: int|
                    0 <= j < i ==> (#[trigger] self@.uploads[j]) == after_restart(
                        before.uploads[j],
                        now,
                    ),
                forall|j: int|
                    i <= j < before.uploads.len() ==> (#[trigger] self@.uploads[j])
                        == before.uploads[j],
                count <= i,
                count == finalizing_count(before.uploads.take(i as int)),
            decreases self.uploads@.len() - i,
        {
            assert(before.uploads.take(i + 1).drop_last() =~= before.uploads.take(i as int));
            assert(self@.uploads[i as int] == before.uploads[i as int]);
            if self.uploads[i].status == UploadStatus::Finalizing {
                let mut row: Upload = self.uploads[i].clone();
                row.status = UploadStatus::Failed;
                if row.finalization_error.is_none() {
                    row.finalization_error = Some(
                        "Server restarted during finalization".to_owned(),
                    );
                }
                row.finalization_updated_at = Some(now);
                row.updated_at = now;
                let ghost view = row@;
                assert(view == after_restart(before.uploads[i as int], now));
                let ghost mid = self@;
                self.uploads.set(i, row);
                assert(self@.uploads =~= mid.uploads.update(i as int, view));
                assert(self@.parts =~= mid.parts);
                count += 1;
            }
            i += 1;
        }
        assert(before.uploads.take(i as int) =~= before.uploads);
        proof {
            assert(self@ =~= all_after_restart(before, now));
            restart_keeps_the_keys(before, now);
        }
        count
    }
}

/// Puts `row` behind every row whose number is not greater.
fn insert_by_number(rows: &mut Vec<UploadPart>, row: UploadPart)
    ensures
        part_views(final(rows)@) == inserted(part_views(old(rows)@), row@),
{
    let ghost before = part_views(rows@);
    let mut at: usize = rows.len();
    assert(before.take(at as int) =~= before);
    assert(before.skip(at as int) =~= Seq::<PartView>::empty());
    assert(inserted(before, row@) =~= inserted(before.take(at as int), row@) + before.skip(
        at as int,
    ));
    while at > 0 && rows[at - 1].part_number > row.part_number
        invariant
            at <= rows@.len(),
            before == part_views(rows@),
            inserted(before, row@) == inserted(before.take(at as int), row@) + before.skip(
                at as int,
            ),
        decreases at,
    {
        let ghost front = before.take(at as int);
        assert(front.drop_last() =~= before.take(at - 1));
        assert(front.last() == rows@[at - 1]@);
        assert(inserted(before.take(at - 1), row@).push(front.last()) + before.skip(at as int)
            =~= inserted(before.take(at - 1), row@) + before.skip(at - 1));
        at -= 1;
    }
    let ghost view = row@;
    proof {
        if at > 0 {
            assert(before.take(at as int).last() == rows@[at - 1]@);
        }
        assert(inserted(before.take(at as int), view) =~= before.take(at as int).push(view));
    }
    rows.insert(at, row);
    assert(part_views(rows@) =~= before.take(at as int).push(view) + before.skip(at as int));
}

} // verus!
