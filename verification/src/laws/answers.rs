//! How failures and states are put into words and numbers.
use crate::clock::{rfc3339_text, write_second};
use crate::db::schema::{
    part_status_named, part_status_reads_back, upload_status_named, upload_status_reads_back,
    PartStatus, UploadStatus,
};
use crate::error::AppError;
use crate::handlers::health::{health_check, HealthResponse};
use crate::handlers::status::phase_of;
use crate::laws::finalizing::reason;
use crate::text::{lowercase, option_view};
use vstd::prelude::*;

verus! {

/// The HTTP status of each failure: 401 where the key or the token is wrong, 400
/// where the request is, 404 where what it is about is not there, 409 where it
/// comes at the wrong time, and 500 where the service itself fails.
pub proof fn failures_have_their_status(error: &AppError, code: u16)
    requires
        call_ensures(AppError::status_code, (error,), code),
    ensures
        (code == 401) == (error@ is Unauthorized || error@ is Jwt),
        (code == 400) == (error@ is BadRequest),
        (code == 404) == (error@ is NotFound),
        (code == 409) == (error@ is Conflict),
        (code == 500) == (error@ is Internal || error@ is Storage || error@ is Database),
{
}

/// A failure is answered with the message it carries.
pub proof fn failures_say_what_they_carry(error: &AppError, text: String)
    requires
        call_ensures(AppError::message, (error,), text),
    ensures
        text@ == reason(error@),
        error@ is Storage ==> text@ == error@->Storage_0,
        error@ is NotFound ==> text@ == error@->NotFound_0,
        error@ is Conflict ==> text@ == error@->Conflict_0,
        error@ is BadRequest ==> text@ == error@->BadRequest_0,
        error@ is Unauthorized ==> text@ == error@->Unauthorized_0,
        error@ is Internal ==> text@ == error@->Internal_0,
        error@ is Database ==> text@ == error@->Database_0,
{
}

/// The service answers 200 exactly while its storage is healthy and 503 otherwise,
/// and names the backend with what it says of itself.
pub proof fn health_is_that_of_the_storage(
    backend_type: &str,
    is_healthy: bool,
    message: Option<String>,
    answer: (u16, HealthResponse),
)
    requires
        call_ensures(health_check, (backend_type, is_healthy, message), answer),
    ensures
        is_healthy ==> answer.0 == 200 && answer.1.status@ == "OK"@ && answer.1.storage.status@
            == "healthy"@,
        !is_healthy ==> answer.0 == 503 && answer.1.status@ == "DEGRADED"@
            && answer.1.storage.status@ == "unavailable"@,
        answer.1.storage.backend_type@ == backend_type@,
        option_view(answer.1.storage.message) == option_view(message),
{
}

/// Each status of an upload has a word of its own, and so has each phase.
pub proof fn statuses_have_words(status: UploadStatus, text: String, phase: String)
    requires
        call_ensures(UploadStatus::to_string, (&status,), text),
        call_ensures(phase_of, (status,), phase),
    ensures
        status == UploadStatus::Pending ==> text@ == "pending"@ && phase@ == "uploading"@,
        status == UploadStatus::Finalizing ==> text@ == "finalizing"@ && phase@ == "finalizing"@,
        status == UploadStatus::Complete ==> text@ == "complete"@ && phase@ == "complete"@,
        status == UploadStatus::Failed ==> text@ == "failed"@ && phase@ == "failed"@,
{
}

/// Each status of a part has a word of its own.
pub proof fn part_statuses_have_words(status: PartStatus, text: String)
    requires
        call_ensures(PartStatus::to_string, (&status,), text),
    ensures
        status == PartStatus::Pending ==> text@ == "pending"@,
        status == PartStatus::Uploaded ==> text@ == "uploaded"@,
{
}

/// The words are read back in whatever case they are written, and an unknown word
/// is read as pending.
pub proof fn words_are_read_in_any_case(text: Seq<char>)
    ensures
        (upload_status_named(text) == UploadStatus::Finalizing) == (lowercase(text)
            == "finalizing"@),
        (upload_status_named(text) == UploadStatus::Complete) == (lowercase(text) == "complete"@),
        (upload_status_named(text) == UploadStatus::Failed) == (lowercase(text) == "failed"@),
        (part_status_named(text) == PartStatus::Uploaded) == (lowercase(text) == "uploaded"@),
{
    reveal_strlit("finalizing");
    reveal_strlit("complete");
    reveal_strlit("failed");
    assert("finalizing"@.len() == 10 && "complete"@.len() == 8 && "failed"@.len() == 6);
}

/// What was written of a status is read back as that status.
pub proof fn written_statuses_are_read_back(
    status: UploadStatus,
    text: String,
    read: UploadStatus,
    part_status: PartStatus,
    part_text: String,
    part_read: PartStatus,
)
    requires
        call_ensures(UploadStatus::to_string, (&status,), text),
        call_ensures(<UploadStatus as From<String>>::from, (text,), read),
        call_ensures(PartStatus::to_string, (&part_status,), part_text),
        call_ensures(<PartStatus as From<String>>::from, (part_text,), part_read),
    ensures
        read == status,
        part_read == part_status,
{
    upload_status_reads_back(status);
    part_status_reads_back(part_status);
}

/// A second is written as the date it is, and as nothing where it is none: before
/// the year -262143 or after the year 262142.
pub proof fn seconds_are_written_as_dates(seconds: i64, text: String)
    requires
        call_ensures(write_second, (seconds,), text),
    ensures
        -8334601228800 <= seconds <= 8210266876799 ==> text@ == rfc3339_text(seconds, 0),
        !(-8334601228800 <= seconds <= 8210266876799) ==> text@.len() == 0,
{
}

} // verus!
