//! What a storage backend does with files, as a list of steps.
//!
//! A backend decides the whole list beforehand. Whoever carries it out does the
//! steps in order and stops at the first that fails. Between the steps some
//! bytes are at hand: the body of a request at first, then what was read last.
use crate::decimal::{decimal, push_decimal};
use crate::error::{AppError, ErrorView};
use vstd::prelude::*;

verus! {

/// One step.
#[derive(Debug)]
pub enum FileStep {
    /// Make the directory of an upload's parts and those above it.
    CreatePartsDirectory { path: String },
    /// Make an empty file for a part.
    CreatePart { path: String },
    /// Append the bytes at hand to a part.
    WritePart { path: String },
    /// Bring what was written to a part to disk.
    FlushPart { path: String },
    /// Read a whole part for its own sake.
    ReadBack { part_number: i32, upload_id: String, path: String },
    /// Make the directory of the finished file and those above it.
    CreateTargetDirectory { path: String },
    /// Remove a staging file that an earlier attempt left, where there is one.
    RemoveStale { path: String },
    /// Make an empty staging file.
    CreateStaging { path: String },
    /// Read a whole part to append it to the staging file.
    ReadPart { part_number: i32, path: String },
    /// Append the bytes at hand to the staging file.
    AppendPart { path: String },
    /// Bring what was written to the staging file to disk.
    FlushStaging { path: String },
    /// Move the staging file to its final place.
    Rename { from: String, to: String },
    /// Find out how large the staging file is.
    Measure { path: String },
    /// Open the staging file for sending.
    OpenForUpload { path: String },
    /// Send the staging file to object storage.
    PutObject { bucket: String, key: String, path: String },
    /// Remove the staging file; a failure does not matter.
    Discard { path: String },
    /// Remove the directory of an upload's parts with all it holds, where it
    /// exists.
    RemoveParts { path: String },
    /// Remove a finished file, where it exists.
    RemoveFile { path: String },
}

/// A [`FileStep`] with its texts as sequences of characters.
pub enum StepView {
    CreatePartsDirectory { path: Seq<char> },
    CreatePart { path: Seq<char> },
    WritePart { path: Seq<char> },
    FlushPart { path: Seq<char> },
    ReadBack { part_number: i32, upload_id: Seq<char>, path: Seq<char> },
    CreateTargetDirectory { path: Seq<char> },
    RemoveStale { path: Seq<char> },
    CreateStaging { path: Seq<char> },
    ReadPart { part_number: i32, path: Seq<char> },
    AppendPart { path: Seq<char> },
    FlushStaging { path: Seq<char> },
    Rename { from: Seq<char>, to: Seq<char> },
    Measure { path: Seq<char> },
    OpenForUpload { path: Seq<char> },
    PutObject { bucket: Seq<char>, key: Seq<char>, path: Seq<char> },
    Discard { path: Seq<char> },
    RemoveParts { path: Seq<char> },
    RemoveFile { path: Seq<char> },
}

impl View for FileStep {
    type V = StepView;

    open spec fn view(&self) -> StepView {
        match *self {
            FileStep::CreatePartsDirectory { path } => StepView::CreatePartsDirectory {
                path: path@,
            },
            FileStep::CreatePart { path } => StepView::CreatePart { path: path@ },
            FileStep::WritePart { path } => StepView::WritePart { path: path@ },
            FileStep::FlushPart { path } => StepView::FlushPart { path: path@ },
            FileStep::ReadBack { part_number, upload_id, path } => StepView::ReadBack {
                part_number,
                upload_id: upload_id@,
                path: path@,
            },
            FileStep::CreateTargetDirectory { path } => StepView::CreateTargetDirectory {
                path: path@,
            },
            FileStep::RemoveStale { path } => StepView::RemoveStale { path: path@ },
            FileStep::CreateStaging { path } => StepView::CreateStaging { path: path@ },
            FileStep::ReadPart { part_number, path } => StepView::ReadPart {
                part_number,
                path: path@,
            },
            FileStep::AppendPart { path } => StepView::AppendPart { path: path@ },
            FileStep::FlushStaging { path } => StepView::FlushStaging { path: path@ },
            FileStep::Rename { from, to } => StepView::Rename { from: from@, to: to@ },
            FileStep::Measure { path } => StepView::Measure { path: path@ },
            FileStep::OpenForUpload { path } => StepView::OpenForUpload { path: path@ },
            FileStep::PutObject { bucket, key, path } => StepView::PutObject {
                bucket: bucket@,
                key: key@,
                path: path@,
            },
            FileStep::Discard { path } => StepView::Discard { path: path@ },
            FileStep::RemoveParts { path } => StepView::RemoveParts { path: path@ },
            FileStep::RemoveFile { path } => StepView::RemoveFile { path: path@ },
        }
    }
}

/// The views of a list of steps.
pub open spec fn step_views(steps: Seq<FileStep>) -> Seq<StepView> {
    Seq::new(steps.len(), |i: int| steps[i]@)
}

/// The beginning of the message about a failed step; `None` where a failure does
/// not matter.
pub open spec fn failure_prefix(step: StepView) -> Option<Seq<char>> {
    match step {
        StepView::CreatePartsDirectory { path } => Some("Failed to create upload directory: "@),
        StepView::CreatePart { path } => Some("Failed to create part file: "@),
        StepView::WritePart { path } => Some("Failed to write part data: "@),
        StepView::FlushPart { path } => Some("Failed to flush part data: "@),
        StepView::ReadBack { part_number, upload_id, path } => Some(
            "Failed to read part "@ + decimal(part_number as int) + " for upload "@ + upload_id
                + ": "@,
        ),
        StepView::CreateTargetDirectory { path } => Some("Failed to create target directory: "@),
        StepView::RemoveStale { path } => Some(
            "Failed to remove stale temp assembled file "@ + path + ": "@,
        ),
        StepView::CreateStaging { path } => Some("Failed to create temp assembled file: "@),
        StepView::ReadPart { part_number, path } => Some(
            "Failed to read part "@ + decimal(part_number as int) + " during assembly: "@,
        ),
        StepView::AppendPart { path } => Some("Failed to write to temp assembled file: "@),
        StepView::FlushStaging { path } => Some("Failed to flush temp assembled file: "@),
        StepView::Rename { from, to } => Some("Failed to move assembled file: "@),
        StepView::Measure { path } => Some("Failed to get file size: "@),
        StepView::OpenForUpload { path } => Some("Failed to read assembled file: "@),
        StepView::PutObject { bucket, key, path } => Some("Failed to upload to S3: "@),
        StepView::Discard { path } => None,
        StepView::RemoveParts { path } => Some("Failed to delete parts directory: "@),
        StepView::RemoveFile { path } => Some("Failed to delete file "@ + path + ": "@),
    }
}

/// What a failed step is reported as; `None` where a failure does not matter.
pub open spec fn step_failure(step: StepView, error: Seq<char>) -> Option<ErrorView> {
    match failure_prefix(step) {
        Some(prefix) => Some(ErrorView::Storage(prefix + error)),
        None => None,
    }
}

impl FileStep {
    /// What to report when this step fails with `error`; `None` where the work
    /// goes on all the same.
    pub fn failure(&self, error: &str) -> (report: Option<AppError>)
        ensures
            match report {
                Some(e) => step_failure(self@, error@) == Some(e@),
                None => step_failure(self@, error@) is None,
            },
    {
        let mut message: String = match self {
            FileStep::CreatePartsDirectory { path } => {
                "Failed to create upload directory: ".to_owned()
            },
            FileStep::CreatePart { path } => "Failed to create part file: ".to_owned(),
            FileStep::WritePart { path } => "Failed to write part data: ".to_owned(),
            FileStep::FlushPart { path } => "Failed to flush part data: ".to_owned(),
            FileStep::ReadBack { part_number, upload_id, path } => {
                let mut text: String = "Failed to read part ".to_owned();
                push_decimal(&mut text, *part_number as i64);
                text.append(" for upload ");
                text.append(upload_id.as_str());
                text.append(": ");
                text
            },
            FileStep::CreateTargetDirectory { path } => {
                "Failed to create target directory: ".to_owned()
            },
            FileStep::RemoveStale { path } => {
                let mut text: String = "Failed to remove stale temp assembled file ".to_owned();
                text.append(path.as_str());
                text.append(": ");
                text
            },
            FileStep::CreateStaging { path } => {
                "Failed to create temp assembled file: ".to_owned()
            },
            FileStep::ReadPart { part_number, path } => {
                let mut text: String = "Failed to read part ".to_owned();
                push_decimal(&mut text, *part_number as i64);
                text.append(" during assembly: ");
                text
            },
            FileStep::AppendPart { path } => {
                "Failed to write to temp assembled file: ".to_owned()
            },
            FileStep::FlushStaging { path } => {
                "Failed to flush temp assembled file: ".to_owned()
            },
            FileStep::Rename { from, to } => "Failed to move assembled file: ".to_owned(),
            FileStep::Measure { path } => "Failed to get file size: ".to_owned(),
            FileStep::OpenForUpload { path } => "Failed to read assembled file: ".to_owned(),
            FileStep::PutObject { bucket, key, path } => "Failed to upload to S3: ".to_owned(),
            FileStep::Discard { path } => return None,
            FileStep::RemoveParts { path } => "Failed to delete parts directory: ".to_owned(),
            FileStep::RemoveFile { path } => {
                let mut text: String = "Failed to delete file ".to_owned();
                text.append(path.as_str());
                text.append(": ");
                text
            },
        };
        message.append(error);
        Some(AppError::Storage(message))
    }
}

/// The steps that put a file together, and the path under which it is found
/// afterwards.
#[derive(Debug)]
pub struct Assembly {
    pub steps: Vec<FileStep>,
    pub final_path: String,
}

} // verus!
