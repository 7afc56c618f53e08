//! The rows of the two tables.
use crate::text::{copy_option, lowercase, option_view, same, to_lowercase};
use vstd::prelude::*;

verus! {

/// Where an upload stands.
#[derive(Debug, Clone, Copy, PartialEq, Eq, Structural)]
pub enum UploadStatus {
    Pending,
    Finalizing,
    Complete,
    Failed,
}

/// The text that stands for a status in the table and in answers.
pub open spec fn upload_status_text(status: UploadStatus) -> Seq<char> {
    match status {
        UploadStatus::Pending => "pending"@,
        UploadStatus::Finalizing => "finalizing"@,
        UploadStatus::Complete => "complete"@,
        UploadStatus::Failed => "failed"@,
    }
}

/// The status that a text stands for, in whatever case it is written. An
/// unknown text stands for a pending upload.
pub open spec fn upload_status_named(text: Seq<char>) -> UploadStatus {
    let low = lowercase(text);
    if low == "finalizing"@ {
        UploadStatus::Finalizing
    } else if low == "complete"@ {
        UploadStatus::Complete
    } else if low == "failed"@ {
        UploadStatus::Failed
    } else {
        UploadStatus::Pending
    }
}

impl From<String> for UploadStatus {
    fn from(s: String) -> (status: Self) {
        let low: String = to_lowercase(s.as_str());
        if same(low.as_str(), "finalizing") {
            UploadStatus::Finalizing
        } else if same(low.as_str(), "complete") {
            UploadStatus::Complete
        } else if same(low.as_str(), "failed") {
            UploadStatus::Failed
        } else {
            UploadStatus::Pending
        }
    }
}

impl vstd::std_specs::convert::FromSpecImpl<String> for UploadStatus {
    open spec fn obeys_from_spec() -> bool {
        true
    }

    open spec fn from_spec(s: String) -> UploadStatus {
        upload_status_named(s@)
    }
}

impl UploadStatus {
    /// The text that stands for this status.
    pub fn to_string(&self) -> (text: String)
        ensures
            text@ == upload_status_text(*self),
    {
        match self {
            UploadStatus::Pending => "pending".to_owned(),
            UploadStatus::Finalizing => "finalizing".to_owned(),
            UploadStatus::Complete => "complete".to_owned(),
            UploadStatus::Failed => "failed".to_owned(),
        }
    }
}

/// A status that is written to the table is read back as the same status.
pub proof fn upload_status_reads_back(status: UploadStatus)
    ensures
        upload_status_named(upload_status_text(status)) == status,
{
    reveal_strlit("pending");
    reveal_strlit("finalizing");
    reveal_strlit("complete");
    reveal_strlit("failed");
    let text = upload_status_text(status);
    assert(lowercase(text) =~= text);
    assert("pending"@.len() == 7 && "finalizing"@.len() == 10 && "complete"@.len() == 8
        && "failed"@.len() == 6);
}

/// Whether a part has arrived.
#[derive(Debug, Clone, Copy, PartialEq, Eq, Structural)]
pub enum PartStatus {
    Pending,
    Uploaded,
}

/// The text that stands for a part's status in the table and in answers.
pub open spec fn part_status_text(status: PartStatus) -> Seq<char> {
    match status {
        PartStatus::Pending => "pending"@,
        PartStatus::Uploaded => "uploaded"@,
    }
}

/// The part status that a text stands for, in whatever case it is written.
pub open spec fn part_status_named(text: Seq<char>) -> PartStatus {
    if lowercase(text) == "uploaded"@ {
        PartStatus::Uploaded
    } else {
        PartStatus::Pending
    }
}

impl From<String> for PartStatus {
    fn from(s: String) -> (status: Self) {
        let low: String = to_lowercase(s.as_str());
        if same(low.as_str(), "uploaded") {
            PartStatus::Uploaded
        } else {
            PartStatus::Pending
        }
    }
}

impl vstd::std_specs::convert::FromSpecImpl<String> for PartStatus {
    open spec fn obeys_from_spec() -> bool {
        true
    }

    open spec fn from_spec(s: String) -> PartStatus {
        part_status_named(s@)
    }
}

impl PartStatus {
    /// The text that stands for this status.
    pub fn to_string(&self) -> (text: String)
        ensures
            text@ == part_status_text(*self),
    {
        match self {
            PartStatus::Pending => "pending".to_owned(),
            PartStatus::Uploaded => "uploaded".to_owned(),
        }
    }
}

/// A part status that is written to the table is read back as the same status.
pub proof fn part_status_reads_back(status: PartStatus)
    ensures
        part_status_named(part_status_text(status)) == status,
{
    reveal_strlit("pending");
    reveal_strlit("uploaded");
    let text = part_status_text(status);
    assert(lowercase(text) =~= text);
    assert("pending"@.len() == 7 && "uploaded"@.len() == 8);
}

// ---------------------------------------------------------------------------
// Rows
// ---------------------------------------------------------------------------
/// One upload.
#[derive(Debug)]
pub struct Upload {
    pub id: String,
    pub filename: String,
    pub total_size: i64,
    pub chunk_size: i64,
    pub total_parts: i32,
    pub status: UploadStatus,
    pub storage_backend: String,
    /// The directory the client asked for.
    pub target_path: Option<String>,
    pub final_path: Option<String>,
    pub checksum_sha256: Option<String>,
    pub webhook_url: Option<String>,
    pub finalization_started_at: Option<i64>,
    pub finalization_updated_at: Option<i64>,
    pub finalization_error: Option<String>,
    pub finalizing_progress_percent: i32,
    pub created_at: i64,
    pub updated_at: i64,
    pub expires_at: i64,
}

/// An [`Upload`] with its texts as sequences of characters.
#[verifier::ext_equal]
pub struct UploadView {
    pub id: Seq<char>,
    pub filename: Seq<char>,
    pub total_size: i64,
    pub chunk_size: i64,
    pub total_parts: i32,
    pub status: UploadStatus,
    pub storage_backend: Seq<char>,
    pub target_path: Option<Seq<char>>,
    pub final_path: Option<Seq<char>>,
    pub checksum_sha256: Option<Seq<char>>,
    pub webhook_url: Option<Seq<char>>,
    pub finalization_started_at: Option<i64>,
    pub finalization_updated_at: Option<i64>,
    pub finalization_error: Option<Seq<char>>,
    pub finalizing_progress_percent: i32,
    pub created_at: i64,
    pub updated_at: i64,
    pub expires_at: i64,
}

impl View for Upload {
    type V = UploadView;

    open spec fn view(&self) -> UploadView {
        UploadView {
            id: self.id@,
            filename: self.filename@,
            total_size: self.total_size,
            chunk_size: self.chunk_size,
            total_parts: self.total_parts,
            status: self.status,
            storage_backend: self.storage_backend@,
            target_path: option_view(self.target_path),
            final_path: option_view(self.final_path),
            checksum_sha256: option_view(self.checksum_sha256),
            webhook_url: option_view(self.webhook_url),
            finalization_started_at: self.finalization_started_at,
            finalization_updated_at: self.finalization_updated_at,
            finalization_error: option_view(self.finalization_error),
            finalizing_progress_percent: self.finalizing_progress_percent,
            created_at: self.created_at,
            updated_at: self.updated_at,
            expires_at: self.expires_at,
        }
    }
}

impl Clone for Upload {
    fn clone(&self) -> (copy: Self)
        ensures
            copy@ == self@,
    {
        Upload {
            id: self.id.clone(),
            filename: self.filename.clone(),
            total_size: self.total_size,
            chunk_size: self.chunk_size,
            total_parts: self.total_parts,
            status: self.status,
            storage_backend: self.storage_backend.clone(),
            target_path: copy_option(&self.target_path),
            final_path: copy_option(&self.final_path),
            checksum_sha256: copy_option(&self.checksum_sha256),
            webhook_url: copy_option(&self.webhook_url),
            finalization_started_at: self.finalization_started_at,
            finalization_updated_at: self.finalization_updated_at,
            finalization_error: copy_option(&self.finalization_error),
            finalizing_progress_percent: self.finalizing_progress_percent,
            created_at: self.created_at,
            updated_at: self.updated_at,
            expires_at: self.expires_at,
        }
    }
}

/// One part of an upload.
#[derive(Debug)]
pub struct UploadPart {
    pub upload_id: String,
    pub part_number: i32,
    pub token_hash: String,
    pub status: PartStatus,
    pub size: i64,
    pub checksum_sha256: Option<String>,
    pub uploaded_at: Option<i64>,
}

/// An [`UploadPart`] with its texts as sequences of characters.
#[verifier::ext_equal]
pub struct PartView {
    pub upload_id: Seq<char>,
    pub part_number: i32,
    pub token_hash: Seq<char>,
    pub status: PartStatus,
    pub size: i64,
    pub checksum_sha256: Option<Seq<char>>,
    pub uploaded_at: Option<i64>,
}

impl View for UploadPart {
    type V = PartView;

    open spec fn view(&self) -> PartView {
        PartView {
            upload_id: self.upload_id@,
            part_number: self.part_number,
            token_hash: self.token_hash@,
            status: self.status,
            size: self.size,
            checksum_sha256: option_view(self.checksum_sha256),
            uploaded_at: self.uploaded_at,
        }
    }
}

impl Clone for UploadPart {
    fn clone(&self) -> (copy: Self)
        ensures
            copy@ == self@,
    {
        UploadPart {
            upload_id: self.upload_id.clone(),
            part_number: self.part_number,
            token_hash: self.token_hash.clone(),
            status: self.status,
            size: self.size,
            checksum_sha256: copy_option(&self.checksum_sha256),
            uploaded_at: self.uploaded_at,
        }
    }
}

} // verus!
