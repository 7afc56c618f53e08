//! Whether the parts on the local disk make up the file.
use crate::cast::{to_unsigned, unsigned};
use crate::db::schema::Upload;
use crate::decimal::{decimal, push_decimal, push_decimal_unsigned};
use crate::error::{AppError, ErrorView};
use crate::storage::parts::{part_path, part_path_of};
use crate::storage::smb::{storage_failure, SmbStorage};
use vstd::prelude::*;

verus! {

/// The check of an upload's parts, one by one.
#[derive(Debug)]
pub struct ReadyCheck {
    parts_path: String,
    upload_id: String,
    total_parts: i32,
    expected: u64,
    next: i32,
    total_bytes: u64,
}

/// A [`ReadyCheck`] with its texts as sequences of characters.
#[verifier::ext_equal]
pub struct ReadyView {
    pub parts_path: Seq<char>,
    pub upload_id: Seq<char>,
    pub total_parts: i32,
    pub expected: u64,
    /// The part whose turn it is.
    pub next: int,
    /// The sizes of the parts before it, taken together.
    pub total_bytes: int,
}

impl View for ReadyCheck {
    type V = ReadyView;

    closed spec fn view(&self) -> ReadyView {
        ReadyView {
            parts_path: self.parts_path@,
            upload_id: self.upload_id@,
            total_parts: self.total_parts,
            expected: self.expected,
            next: self.next as int,
            total_bytes: self.total_bytes as int,
        }
    }
}

/// What is answered when a part is missing.
pub open spec fn part_missing(number: int, upload_id: Seq<char>, error: Seq<char>) -> ErrorView {
    ErrorView::Storage(
        "Finalization verification failed: part "@ + decimal(number) + " missing for upload "@
            + upload_id + ": "@ + error,
    )
}

/// What is answered when the sizes do not add up.
pub open spec fn size_mismatch(upload_id: Seq<char>, expected: u64, total: int) -> ErrorView {
    ErrorView::Storage(
        "Finalization verification failed: total parts size mismatch for upload "@ + upload_id
            + " (expected "@ + decimal(expected as int) + ", got "@ + decimal(total) + ")"@,
    )
}

impl ReadyCheck {
    /// The check has not gone past the last part.
    pub open spec fn wf(&self) -> bool {
        0 <= self@.next && (self@.next <= self@.total_parts || self@.next == 0)
    }

    /// There is a part to ask about.
    pub open spec fn asks(&self) -> bool {
        self@.next < self@.total_parts
    }

    /// Begins the check of an upload.
    pub fn begin(storage: &SmbStorage, upload: &Upload) -> (check: ReadyCheck)
        ensures
            check.wf(),
            check@ == (ReadyView {
                parts_path: storage.parts_path@,
                upload_id: upload.id@,
                total_parts: upload.total_parts,
                expected: unsigned(upload.total_size) as u64,
                next: 0,
                total_bytes: 0,
            }),
    {
        ReadyCheck {
            parts_path: storage.parts_path.clone(),
            upload_id: upload.id.clone(),
            total_parts: upload.total_parts,
            expected: to_unsigned(upload.total_size),
            next: 0,
            total_bytes: 0,
        }
    }

    /// The part whose size is asked for next.
    pub fn next_part(&self) -> (path: Option<String>)
        requires
            self.wf(),
        ensures
            match path {
                Some(p) => self.asks() && p@ == part_path(
                    self@.parts_path,
                    self@.upload_id,
                    self@.next,
                ),
                None => !self.asks(),
            },
    {
        if self.next < self.total_parts {
            Some(part_path_of(self.parts_path.as_str(), self.upload_id.as_str(), self.next))
        } else {
            None
        }
    }

    /// The sizes of the parts that were asked for, taken together.
    pub fn total(&self) -> (bytes: u64)
        ensures
            bytes == self@.total_bytes,
    {
        self.total_bytes
    }

    /// Takes up the size of the part that was asked for.
    pub fn answered(&mut self, size: Result<u64, String>) -> (outcome: Result<(), AppError>)
        requires
            old(self).wf(),
            old(self).asks(),
            size matches Ok(n) ==> old(self)@.total_bytes + n <= u64::MAX,
        ensures
            final(self).wf(),
            match size {
                Ok(n) => outcome is Ok && final(self)@ == (ReadyView {
                    next: old(self)@.next + 1,
                    total_bytes: old(self)@.total_bytes + n,
                    ..old(self)@
                }),
                Err(error) => final(self)@ == old(self)@ && (outcome matches Err(e) && e@
                    == part_missing(old(self)@.next, old(self)@.upload_id, error@)),
            },
    {
        match size {
            Ok(n) => {
                self.total_bytes = self.total_bytes + n;
                self.next = self.next + 1;
                Ok(())
            },
            Err(error) => {
                let mut prefix: String = "Finalization verification failed: part ".to_owned();
                push_decimal(&mut prefix, self.next as i64);
                prefix.append(" missing for upload ");
                prefix.append(self.upload_id.as_str());
                prefix.append(": ");
                Err(storage_failure(prefix.as_str(), error.as_str()))
            },
        }
    }

    /// Whether the sizes add up, once every part was asked for.
    pub fn finish(&self) -> (outcome: Result<(), AppError>)
        requires
            self.wf(),
            !self.asks(),
        ensures
            match outcome {
                Ok(()) => self@.total_bytes == self@.expected,
                Err(e) => self@.total_bytes != self@.expected && e@ == size_mismatch(
                    self@.upload_id,
                    self@.expected,
                    self@.total_bytes,
                ),
            },
    {
        if self.total_bytes == self.expected {
            return Ok(());
        }
        let mut message: String =
            "Finalization verification failed: total parts size mismatch for upload ".to_owned();
        message.append(self.upload_id.as_str());
        message.append(" (expected ");
        push_decimal_unsigned(&mut message, self.expected);
        message.append(", got ");
        push_decimal_unsigned(&mut message, self.total_bytes);
        message.append(")");
        Err(AppError::Storage(message))
    }
}

} // verus!
