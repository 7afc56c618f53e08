//! What the answers to single requests to the share mean.
use crate::error::{AppError, ErrorView};
use crate::storage::smb::{storage_failure, ResourceKind};
use crate::text::{contains, lowercase, occurs, to_lowercase};
use vstd::prelude::*;

verus! {

/// What an attempt to open a file is reported as, where `verb` says what was
/// tried.
pub open spec fn file_expected(
    verb: Seq<char>,
    path: Seq<char>,
    result: Result<ResourceKind, String>,
) -> Option<ErrorView> {
    match result {
        Ok(ResourceKind::File) => None,
        Ok(_) => Some(ErrorView::Storage("Expected file resource for "@ + path)),
        Err(e) => Some(ErrorView::Storage("Failed to "@ + verb + " SMB file "@ + path + ": "@ + e@)),
    }
}

/// Accepts a file and nothing else.
fn expect_file(verb: &str, path: &str, result: Result<ResourceKind, String>) -> (outcome: Result<
    (),
    AppError,
>)
    ensures
        match outcome {
            Ok(()) => file_expected(verb@, path@, result) is None,
            Err(e) => file_expected(verb@, path@, result) == Some(e@),
        },
{
    match result {
        Ok(ResourceKind::File) => Ok(()),
        Ok(_) => Err(storage_failure("Expected file resource for ", path)),
        Err(e) => {
            let mut prefix: String = "Failed to ".to_owned();
            prefix.append(verb);
            prefix.append(" SMB file ");
            prefix.append(path);
            prefix.append(": ");
            Err(storage_failure(prefix.as_str(), e.as_str()))
        },
    }
}

/// What came of opening a file for writing, made where there was none.
pub fn opened_for_write(path: &str, result: Result<ResourceKind, String>) -> (outcome: Result<
    (),
    AppError,
>)
    ensures
        match outcome {
            Ok(()) => file_expected("open/create"@, path@, result) is None,
            Err(e) => file_expected("open/create"@, path@, result) == Some(e@),
        },
{
    expect_file("open/create", path, result)
}

/// What came of opening a file that must be there.
pub fn opened_existing(path: &str, result: Result<ResourceKind, String>) -> (outcome: Result<
    (),
    AppError,
>)
    ensures
        match outcome {
            Ok(()) => file_expected("open"@, path@, result) is None,
            Err(e) => file_expected("open"@, path@, result) == Some(e@),
        },
{
    expect_file("open", path, result)
}

/// The size of a file, from what was found behind its path and from what was
/// answered about it. What is not a file, or is not there, has size 0.
pub fn file_size(found: Option<ResourceKind>, answer: Result<u64, String>) -> (outcome: Result<
    u64,
    AppError,
>)
    ensures
        if found == Some(ResourceKind::File) {
            match answer {
                Ok(size) => outcome == Ok::<u64, AppError>(size),
                Err(e) => outcome matches Err(f) && f@ == ErrorView::Storage(
                    "Failed to query SMB file info: "@ + e@,
                ),
            }
        } else {
            outcome == Ok::<u64, AppError>(0)
        },
{
    match found {
        Some(ResourceKind::File) => match answer {
            Ok(size) => Ok(size),
            Err(e) => Err(storage_failure("Failed to query SMB file info: ", e.as_str())),
        },
        _ => Ok(0),
    }
}

/// What is to be done with a path that was opened to be deleted.
#[derive(Debug)]
pub enum DeleteStep {
    /// Mark it for deletion; it is a file, or else a directory.
    Mark { is_file: bool },
    /// Nothing: it is not there.
    Gone,
    /// Report this.
    Fail(AppError),
}

/// The failure says that there is nothing behind the path.
pub open spec fn says_absent(error: Seq<char>) -> bool {
    occurs(lowercase(error), "not found"@) || occurs(lowercase(error), "does not exist"@)
}

/// Decides what is to be done with a path that was opened to be deleted.
pub fn opened_for_delete(result: Result<ResourceKind, String>) -> (step: DeleteStep)
    ensures
        match result {
            Ok(ResourceKind::File) => step matches DeleteStep::Mark { is_file } && is_file,
            Ok(ResourceKind::Directory) => step matches DeleteStep::Mark { is_file } && !is_file,
            Ok(ResourceKind::Other) => step matches DeleteStep::Fail(e) && e@
                == ErrorView::Storage("Unexpected SMB resource type for delete"@),
            Err(error) => if says_absent(error@) {
                step is Gone
            } else {
                step matches DeleteStep::Fail(e) && e@ == ErrorView::Storage(
                    "Failed to open SMB path for delete: "@ + error@,
                )
            },
        },
{
    match result {
        Ok(ResourceKind::File) => DeleteStep::Mark { is_file: true },
        Ok(ResourceKind::Directory) => DeleteStep::Mark { is_file: false },
        Ok(ResourceKind::Other) => DeleteStep::Fail(
            AppError::Storage("Unexpected SMB resource type for delete".to_owned()),
        ),
        Err(error) => {
            let low: String = to_lowercase(error.as_str());
            if contains(low.as_str(), "not found") || contains(low.as_str(), "does not exist") {
                DeleteStep::Gone
            } else {
                DeleteStep::Fail(
                    storage_failure("Failed to open SMB path for delete: ", error.as_str()),
                )
            }
        },
    }
}

/// What a failure to mark a path for deletion is reported as.
pub fn delete_failure(is_file: bool, error: &str) -> (failure: AppError)
    ensures
        failure@ == ErrorView::Storage(
            if is_file {
                "Failed to delete SMB file: "@ + error@
            } else {
                "Failed to delete SMB directory: "@ + error@
            },
        ),
{
    if is_file {
        storage_failure("Failed to delete SMB file: ", error)
    } else {
        storage_failure("Failed to delete SMB directory: ", error)
    }
}

/// What a failure to rename the partial file is reported as.
pub fn rename_failure(error: &str) -> (failure: AppError)
    ensures
        failure@ == ErrorView::Storage("Failed to rename SMB partial file: "@ + error@),
{
    storage_failure("Failed to rename SMB partial file: ", error)
}

} // verus!
