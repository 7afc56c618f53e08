//! How parts are written to a share and the file is completed there.
use crate::db::schema::Upload;
use crate::decimal::{decimal, digits};
use crate::error::{AppError, ErrorView};
use crate::laws::finalizing::reason;
use crate::paths::joined;
use crate::storage::build_response_path;
use crate::storage::smb::{ResourceKind, SmbConfig, SmbStorage};
use crate::storage::smb::finalize::{
    leading, resuming_stays_within_the_file, FinalizeAction, FinalizeEvent, Phase, RunView,
    SmbFinalization, ATTEMPT_TIMEOUT_SECS,
};
use crate::storage::smb::sync::{
    offset_of_part, parts_are_written_at_their_place, PartSync, SyncAction, SyncEvent, SyncPhase,
    SYNC_TIMEOUT_SECS,
};
use crate::storage::smb::unc::{UncAddress, UncView};
use crate::storage::smb::writer::{advance, range_after, WriteRange};
use crate::text::{option_str_view, option_view};
use vstd::prelude::*;

verus! {

// ---------------------------------------------------------------------------
// Writing in pieces
// ---------------------------------------------------------------------------
/// A piece begins where writing has come to, in the data and in the file alike, and
/// is as large as is left, up to a megabyte.
pub proof fn pieces_begin_where_writing_has_come_to(
    base: u64,
    length: usize,
    written: usize,
    range: WriteRange,
)
    requires
        written < length,
        base + length <= u64::MAX,
        call_ensures(range_after, (base, length, written), range),
    ensures
        range.from == written,
        range.offset == base + written,
        range.to - range.from == if length - written < 1048576 {
            length - written
        } else {
            1048576
        },
{
}

/// What the server has taken is written, and never more than there is.
pub proof fn what_was_taken_is_written(
    length: usize,
    written: usize,
    taken: usize,
    now_written: usize,
)
    requires
        written <= length,
        call_ensures(advance, (length, written, taken), now_written),
    ensures
        written + taken <= length ==> now_written == written + taken,
        written + taken > length ==> now_written == length,
{
}

/// A part is written as many chunks into the file as its number says, and at its
/// front where that is further than can be counted.
pub proof fn parts_are_written_behind_the_chunks_before(
    part_number: i32,
    chunk_size: i64,
    offset: u64,
)
    requires
        call_ensures(offset_of_part, (part_number, chunk_size), offset),
        part_number >= 0,
        chunk_size >= 0,
    ensures
        part_number * chunk_size <= u64::MAX ==> offset == part_number * chunk_size,
        part_number * chunk_size > u64::MAX ==> offset == 0,
{
    if part_number * chunk_size <= u64::MAX {
        parts_are_written_at_their_place(part_number, chunk_size);
    }
}

// ---------------------------------------------------------------------------
// Completing the file
// ---------------------------------------------------------------------------
/// A finalization is for the upload's own file: it goes by the upload's size,
/// chunks and parts, completes the partial file of the upload, renames it to where
/// the file is kept, and in the end gives back the path that clients are told.
pub proof fn finalizations_are_for_their_upload(
    storage: &SmbStorage,
    upload: &Upload,
    synced: &Vec<bool>,
    run: SmbFinalization,
    id: &str,
    filename: &str,
    target: Option<&str>,
    partial: String,
    place: String,
    told: String,
)
    requires
        call_ensures(SmbFinalization::begin, (storage, upload, synced), run),
        id@ == upload.id@,
        filename@ == upload.filename@,
        option_str_view(target) == option_view(upload.target_path),
        call_ensures(SmbStorage::get_smb_partial_path, (storage, id, filename, target), partial),
        call_ensures(SmbStorage::get_smb_file_path, (storage, id, filename, target), place),
        call_ensures(build_response_path, (id, filename, target), told),
    ensures
        run@.fixed.upload_id == upload.id@,
        run@.fixed.total_parts == upload.total_parts,
        upload.chunk_size >= 0 ==> run@.fixed.chunk_size == upload.chunk_size,
        upload.total_size >= 0 ==> run@.fixed.expected_size == upload.total_size,
        run@.fixed.partial_path == partial@,
        run@.fixed.final_path == place@,
        run@.fixed.parts_path == storage.parts_path@,
        run@.fixed.response_path == told@,
        run@.attempt == 0,
        run@.phase == Phase::Connecting,
        run@.error is None,
        !run@.keep_connection,
{
}

/// The parts that are known to be in the partial file are the first ones, as many
/// as are marked without a gap: each of them is marked, and the next is not or
/// there is none.
pub proof fn known_parts_are_marked_without_a_gap(
    storage: &SmbStorage,
    upload: &Upload,
    synced: &Vec<bool>,
    run: SmbFinalization,
)
    requires
        call_ensures(SmbFinalization::begin, (storage, upload, synced), run),
        upload.total_parts >= 0,
    ensures
        ({
            let k = run@.known_parts;
            &&& 0 <= k <= upload.total_parts
            &&& k <= synced@.len()
            &&& forall|i: int| 0 <= i < k ==> #[trigger] synced@[i]
            &&& k < upload.total_parts && k < synced@.len() ==> !synced@[k as int]
        }),
{
    lemma_leading(synced@);
}

proof fn lemma_leading(flags: Seq<bool>)
    ensures
        leading(flags) <= flags.len(),
        forall|i: int|
            0 <= i < leading(flags) ==> #[trigger] flags[i],
        leading(flags) < flags.len()
            ==> !flags[leading(flags) as int],
    decreases flags.len(),
{
    if flags.len() > 0 && flags[0] {
        let rest = flags.skip(1);
        lemma_leading(rest);
        let n = leading(rest);
        assert forall|i: int| 0 <= i < n + 1 implies #[trigger] flags[i] by {
            if i > 0 {
                assert(rest[i - 1] == flags[i]);
            }
        }
        if n + 1 < flags.len() {
            assert(rest[n as int] == flags[n as int + 1]);
        }
    }
}

/// What is asked for next in each phase.
pub proof fn each_phase_asks_for_its_own(run: &SmbFinalization, action: FinalizeAction)
    requires
        run.wf(),
        call_ensures(SmbFinalization::next, (run,), action),
    ensures
        run@.phase == Phase::Connecting ==> action is Connect,
        run@.phase == Phase::Measuring ==> (action matches FinalizeAction::Measure(path) && path@
            == run@.fixed.partial_path),
        run@.phase == Phase::Opening ==> (action matches FinalizeAction::Open(path) && path@
            == run@.fixed.partial_path),
        run@.phase == Phase::Closing ==> action is Close,
        run@.phase == Phase::Renaming ==> (action matches FinalizeAction::Rename { from, to }
            && from@ == run@.fixed.partial_path && to@ == run@.fixed.final_path),
        run@.phase == Phase::CleaningUp ==> (action matches FinalizeAction::RemoveParts(path)
            && path@ == joined(run@.fixed.parts_path, run@.fixed.upload_id)),
        run@.phase == Phase::Finished ==> (action matches FinalizeAction::Finish {
            keep_connection,
        } && keep_connection == run@.keep_connection),
        run@.phase == Phase::Waiting ==> (action matches FinalizeAction::Wait(seconds) && (
        run@.attempt == 1 ==> seconds == 2) && (run@.attempt == 2 ==> seconds == 4)),
{
}

/// A part is read from where it is kept, and written piece by piece behind the
/// parts before it.
pub proof fn parts_are_read_and_written_in_pieces(
    run: &SmbFinalization,
    action: FinalizeAction,
    storage: &SmbStorage,
    id: &str,
    kept: String,
)
    requires
        run.wf(),
        call_ensures(SmbFinalization::next, (run,), action),
        storage.parts_path@ == run@.fixed.parts_path,
        id@ == run@.fixed.upload_id,
        call_ensures(SmbStorage::get_local_part_path, (storage, id, run@.part), kept),
    ensures
        run@.phase == Phase::Reading ==> (action matches FinalizeAction::Read {
            part_number,
            path,
        } && part_number == run@.part && path@ == kept@),
        run@.phase == Phase::Writing ==> (action matches FinalizeAction::Write(range) && range.from
            == run@.written && range.offset == run@.offset + run@.written && range.to
            - range.from == if run@.length - run@.written < 1048576 {
            run@.length - run@.written
        } else {
            1048576
        }),
{
}

/// With every part known to be there, a partial file that is as large as the whole
/// is renamed at once. Otherwise it is opened, and writing is taken up at the first
/// part that is not known to be there, or before that at the first that cannot be
/// there whole by the size of the file.
pub proof fn writing_is_taken_up_where_it_must(
    run: &mut SmbFinalization,
    size: u64,
)
    requires
        old(run).wf(),
        old(run)@.phase == Phase::Measuring,
        old(run)@.fixed.chunk_size > 0,
        call_ensures(SmbFinalization::handle, (run, FinalizeEvent::Measured(size)), ()),
    ensures
        ({
            let before = old(run)@;
            let end = final(run)@;
            let chunk = before.fixed.chunk_size;
            let done = size >= before.fixed.expected_size && before.known_parts
                >= before.fixed.total_parts;
            &&& end.fixed == before.fixed
            &&& end.attempt == before.attempt
            &&& end.known_parts == before.known_parts
            &&& done ==> end.phase == Phase::Renaming
            &&& !done ==> {
                &&& end.phase == Phase::Opening
                &&& 0 <= end.part <= before.known_parts
                &&& end.part * chunk <= size
                &&& end.part < before.known_parts ==> (end.part + 1) * chunk > size
                &&& end.offset == end.part * chunk
            }
        }),
{
    let before = old(run)@;
    resuming_stays_within_the_file(before, size);
    let chunk = before.fixed.chunk_size as int;
    let first = size as int / chunk;
    assert((first + 1) * chunk > size) by (nonlinear_arith)
        requires
            chunk > 0,
            size >= 0,
            first == size as int / chunk,
    ;
}

/// The way of a finalization to its end while everything succeeds: connect,
/// measure, open, read and write part after part, close, rename, remove the parts.
pub proof fn successes_lead_to_the_end(run: &mut SmbFinalization, event: FinalizeEvent)
    requires
        old(run).wf(),
        call_ensures(SmbFinalization::handle, (run, event), ()),
    ensures
        ({
            let before = old(run)@;
            let end = final(run)@;
            &&& end.fixed == before.fixed
            &&& event is Waited ==> end == (RunView { phase: Phase::Connecting, ..before })
            &&& event is Connected ==> end == (RunView { phase: Phase::Measuring, ..before })
            &&& event is Opened ==> end == (RunView {
                phase: if before.part < before.fixed.total_parts {
                    Phase::Reading
                } else {
                    Phase::Closing
                },
                ..before
            })
            &&& event is Closed || event is CloseTimedOut ==> end == (RunView {
                phase: Phase::Renaming,
                ..before
            })
            &&& event is Renamed ==> end.phase == Phase::CleaningUp && end.keep_connection
                && end.error is None && end.attempt == before.attempt
            &&& event is PartsRemoved ==> end == (RunView { phase: Phase::Finished, ..before })
        }),
{
}

/// A part of some bytes is written from its first byte on. When the last of them
/// was taken, the part is known to be there and the next is read, or the file
/// closed where there is none. An empty part is done at once.
pub proof fn parts_follow_each_other(run: &mut SmbFinalization, event: FinalizeEvent)
    requires
        old(run).wf(),
        call_ensures(SmbFinalization::handle, (run, event), ()),
        old(run)@.part < old(run)@.fixed.total_parts,
    ensures
        ({
            let before = old(run)@;
            let end = final(run)@;
            let next = {
                &&& end.part == before.part + 1
                &&& end.known_parts > before.part
                &&& end.known_parts >= before.known_parts
                &&& end.phase == if before.part + 1 < before.fixed.total_parts {
                    Phase::Reading
                } else {
                    Phase::Closing
                }
                &&& end.attempt == before.attempt
            };
            &&& event matches FinalizeEvent::PartRead(length) ==> before.offset + length
                <= u64::MAX ==> {
                &&& length > 0 ==> end.phase == Phase::Writing && end.length == length
                    && end.written == 0 && end.part == before.part && end.offset == before.offset
                    && end.attempt == before.attempt && end.known_parts == before.known_parts
                &&& length == 0 ==> next && end.offset == before.offset
            }
            &&& event matches FinalizeEvent::Wrote(n) ==> before.phase == Phase::Writing && n > 0
                ==> {
                &&& before.written + n < before.length ==> end == (RunView {
                    written: (before.written + n) as usize,
                    ..before
                })
                &&& before.written + n >= before.length ==> next && end.offset == before.offset
                    + before.length
            }
        }),
{
}

/// Whatever fails before the rename ends the attempt, and there are three of them:
/// after the first two the next is waited for, after the third the finalization has
/// failed with that error. Whether the connection is kept is as it was.
pub proof fn failures_are_tried_again(run: &mut SmbFinalization, event: FinalizeEvent)
    requires
        old(run).wf(),
        call_ensures(SmbFinalization::handle, (run, event), ()),
        event is ConnectFailed || event is ConnectTimedOut || event is OpenFailed
            || event is OpenTimedOut || event is ReadFailed || event is WriteFailed
            || event is WriteTimedOut || (event matches FinalizeEvent::Wrote(n) && n == 0) || (
        event is AttemptTimedOut && old(run)@.phase != Phase::Renaming),
    ensures
        final(run)@.error is Some,
        final(run)@.error->0 is Storage,
        final(run)@.keep_connection == old(run)@.keep_connection,
        final(run)@.known_parts == old(run)@.known_parts,
        final(run)@.fixed == old(run)@.fixed,
        old(run)@.attempt < 2 ==> final(run)@.phase == Phase::Waiting && final(run)@.attempt
            == old(run)@.attempt + 1,
        old(run)@.attempt == 2 ==> final(run)@.phase == Phase::Finished && final(run)@.attempt
            == 2,
{
}

/// A failed rename is not tried again: the finalization has failed, and the
/// connection is kept.
pub proof fn failed_renames_end_the_work(run: &mut SmbFinalization, event: FinalizeEvent)
    requires
        old(run).wf(),
        call_ensures(SmbFinalization::handle, (run, event), ()),
        event is RenameFailed || event is RenameTimedOut || (event is AttemptTimedOut
            && old(run)@.phase == Phase::Renaming),
    ensures
        final(run)@.phase == Phase::Finished,
        final(run)@.keep_connection,
        final(run)@.attempt == old(run)@.attempt,
        final(run)@.error is Some,
        event matches FinalizeEvent::RenameFailed(e) ==> final(run)@.error == Some(e@),
        event is RenameTimedOut ==> final(run)@.error == Some(
            ErrorView::Storage("SMB rename timed out (30s)"@),
        ),
{
}

/// What went wrong is reported with the reason, and with the number of the part
/// that it is about.
pub proof fn failures_are_reported_with_their_reason(
    run: &mut SmbFinalization,
    event: FinalizeEvent,
)
    requires
        old(run).wf(),
        call_ensures(SmbFinalization::handle, (run, event), ()),
    ensures
        event matches FinalizeEvent::ConnectFailed(e) ==> final(run)@.error == Some(
            ErrorView::Storage("SMB reconnect failed during finalization: "@ + e@),
        ),
        event is ConnectTimedOut ==> final(run)@.error == Some(
            ErrorView::Storage("SMB connection timed out (15s)"@),
        ),
        event matches FinalizeEvent::OpenFailed(e) ==> final(run)@.error == Some(
            ErrorView::Storage("Failed to open SMB partial file: "@ + e@),
        ),
        event is OpenTimedOut ==> final(run)@.error == Some(
            ErrorView::Storage("Timeout opening SMB partial file"@),
        ),
        event matches FinalizeEvent::ReadFailed(e) ==> final(run)@.error == Some(
            ErrorView::Storage(
                "Failed to read part "@ + decimal(old(run)@.part as int)
                    + " during finalization: "@ + e@,
            ),
        ),
        event matches FinalizeEvent::WriteFailed(e) ==> final(run)@.error == Some(
            ErrorView::Storage(
                "SMB write_at failed for part "@ + decimal(old(run)@.part as int) + ": "@ + e@,
            ),
        ),
        event is WriteTimedOut ==> final(run)@.error == Some(
            ErrorView::Storage(
                "SMB write timed out for part "@ + decimal(old(run)@.part as int)
                    + " (60s limit)"@,
            ),
        ),
        event matches FinalizeEvent::Wrote(n) ==> n == 0 ==> final(run)@.error == Some(
            ErrorView::Storage("SMB write returned 0 bytes"@),
        ),
        event is AttemptTimedOut ==> final(run)@.error == Some(
            ErrorView::Storage("SMB finalization attempt timed out (600s)"@),
        ),
{
}

/// A file whose size could not be found out counts as empty.
pub proof fn unmeasured_files_count_as_empty(
    run: &mut SmbFinalization,
    other: &mut SmbFinalization,
)
    requires
        *old(run) == *old(other),
        call_ensures(SmbFinalization::handle, (run, FinalizeEvent::MeasureFailed), ()),
        call_ensures(SmbFinalization::handle, (other, FinalizeEvent::Measured(0)), ()),
    ensures
        final(run)@ == final(other)@,
{
}

/// What is waited for has a limit: 15 seconds for connecting, 30 for opening,
/// measuring, closing and renaming, 60 for writing a part.
pub proof fn what_is_waited_for_has_a_limit(run: &SmbFinalization, seconds: Option<u64>)
    requires
        call_ensures(SmbFinalization::limit, (run,), seconds),
    ensures
        run@.phase == Phase::Connecting ==> seconds == Some(15u64),
        run@.phase == Phase::Measuring || run@.phase == Phase::Opening || run@.phase
            == Phase::Closing || run@.phase == Phase::Renaming ==> seconds == Some(30u64),
        run@.phase == Phase::Writing ==> seconds == Some(60u64),
        run@.phase == Phase::Waiting || run@.phase == Phase::Reading || run@.phase
            == Phase::CleaningUp || run@.phase == Phase::Finished ==> seconds is None,
{
}

/// A finalization gives back the path that clients are told exactly where nothing
/// went wrong in the end, and otherwise the last error.
pub proof fn finalizations_give_back_the_path_or_the_error(
    run: SmbFinalization,
    outcome: Result<String, AppError>,
)
    requires
        call_ensures(SmbFinalization::into_outcome, (run,), outcome),
    ensures
        run@.error is None ==> (outcome matches Ok(path) && path@ == run@.fixed.response_path),
        run@.error matches Some(error) ==> (outcome matches Err(e) && e@ == error),
{
}

// ---------------------------------------------------------------------------
// Writing a part in the background
// ---------------------------------------------------------------------------
/// The writing of a part is to the upload's partial file, as many chunks into it as
/// the part's number says, and begins with nothing written.
pub proof fn syncs_are_for_their_part(
    storage: &SmbStorage,
    upload: &Upload,
    part_number: i32,
    length: usize,
    sync: PartSync,
    id: &str,
    filename: &str,
    target: Option<&str>,
    partial: String,
)
    requires
        call_ensures(PartSync::begin, (storage, upload, part_number, length), sync),
        id@ == upload.id@,
        filename@ == upload.filename@,
        option_str_view(target) == option_view(upload.target_path),
        call_ensures(SmbStorage::get_smb_partial_path, (storage, id, filename, target), partial),
        part_number >= 0,
        upload.chunk_size >= 0,
        part_number * upload.chunk_size <= u64::MAX,
    ensures
        sync@.partial_path == partial@,
        sync@.offset == part_number * upload.chunk_size,
        sync@.length == length,
        sync@.written == 0,
        sync@.phase == SyncPhase::Connecting,
        sync@.error is None,
{
    parts_are_written_at_their_place(part_number, upload.chunk_size);
}

/// What is asked for next in each phase of the writing. In the end the connection
/// is kept exactly where nothing went wrong.
pub proof fn each_phase_of_a_sync_asks_for_its_own(sync: &PartSync, action: SyncAction)
    requires
        sync.wf(),
        call_ensures(PartSync::next, (sync,), action),
    ensures
        sync@.phase == SyncPhase::Connecting ==> action is Connect,
        sync@.phase == SyncPhase::Directories ==> (action matches SyncAction::EnsureDirectories(
            path,
        ) && path@ == sync@.partial_path),
        sync@.phase == SyncPhase::Opening ==> (action matches SyncAction::Open(address)
            && sync@.address is Ok && address@ == sync@.address->Ok_0),
        sync@.phase == SyncPhase::Writing ==> (action matches SyncAction::Write(range)
            && range.from == sync@.written && range.offset == sync@.offset + sync@.written
            && range.to - range.from == if sync@.length - sync@.written < 1048576 {
            sync@.length - sync@.written
        } else {
            1048576
        }),
        sync@.phase == SyncPhase::Closing ==> action is Close,
        sync@.phase == SyncPhase::Finished ==> (action matches SyncAction::Finish {
            keep_connection,
        } && keep_connection == sync@.error is None),
{
}

/// The way of the writing to its end while everything succeeds: connect, make the
/// directories, open the file, write piece after piece, close.
pub proof fn successes_finish_a_sync(sync: &mut PartSync, event: SyncEvent)
    requires
        old(sync).wf(),
        call_ensures(PartSync::handle, (sync, event), ()),
    ensures
        ({
            let before = old(sync)@;
            let end = final(sync)@;
            let goes_on = |written: int|
                if written < before.length {
                    SyncPhase::Writing
                } else {
                    SyncPhase::Closing
                };
            &&& end.partial_path == before.partial_path
            &&& end.offset == before.offset
            &&& end.length == before.length
            &&& event is Connected ==> end.phase == SyncPhase::Directories && end.error
                == before.error && end.written == before.written
            &&& event is DirectoriesReady && before.address is Ok ==> end.phase
                == SyncPhase::Opening && end.error == before.error
            &&& event == SyncEvent::Opened(ResourceKind::File) ==> end.phase == goes_on(
                before.written as int,
            ) && end.error == before.error && end.written == before.written
            &&& event matches SyncEvent::Wrote(n) ==> n > 0 && before.written + n <= before.length
                ==> {
                &&& end.written == before.written + n
                &&& end.phase == goes_on(before.written + n)
                &&& end.error == before.error
            }
            &&& event is Closed ==> end.phase == SyncPhase::Finished && end.error == before.error
        }),
{
}

/// Whatever fails ends the writing with an error that names the reason.
pub proof fn failures_end_a_sync(sync: &mut PartSync, event: SyncEvent)
    requires
        call_ensures(PartSync::handle, (sync, event), ()),
    ensures
        event matches SyncEvent::ConnectFailed(e) ==> final(sync)@.phase == SyncPhase::Finished
            && final(sync)@.error == Some("Sync client connect failed: "@ + e@),
        event matches SyncEvent::DirectoriesFailed(e) ==> final(sync)@.phase
            == SyncPhase::Finished && final(sync)@.error == Some("ensure dirs: "@ + e@),
        event matches SyncEvent::OpenFailed(e) ==> final(sync)@.phase == SyncPhase::Finished
            && final(sync)@.error == Some("open partial file: "@ + e@),
        event matches SyncEvent::Opened(kind) ==> kind != ResourceKind::File ==> final(sync)@.phase
            == SyncPhase::Finished && final(sync)@.error == Some("Expected file resource"@),
        event matches SyncEvent::Wrote(n) ==> n == 0 ==> final(sync)@.phase == SyncPhase::Finished
            && final(sync)@.error == Some("write_at returned 0 bytes"@),
        event matches SyncEvent::WriteFailed(e) ==> final(sync)@.phase == SyncPhase::Finished
            && final(sync)@.error == Some("write_at: "@ + e@),
        event is DirectoriesReady && old(sync)@.address is Err ==> final(sync)@.phase
            == SyncPhase::Finished && final(sync)@.error == Some(
            "build UNC: "@ + reason(old(sync)@.address->Err_0),
        ),
{
}

/// The writing succeeded exactly where there is no error, and exactly then the
/// connection is kept.
pub proof fn syncs_succeed_without_an_error(
    sync: &PartSync,
    result: Result<(), String>,
    keep: bool,
)
    requires
        call_ensures(PartSync::outcome, (sync,), result),
        call_ensures(PartSync::keep_connection, (sync,), keep),
    ensures
        result is Ok == sync@.error is None,
        keep == sync@.error is None,
        result matches Err(e) ==> sync@.error == Some(e@),
{
}

/// A part is written to the address that the partial file has within the share; the
/// writing ends with an error where it has none.
pub proof fn syncs_write_to_the_address_of_the_file(
    storage: &SmbStorage,
    upload: &Upload,
    part_number: i32,
    length: usize,
    sync: PartSync,
    partial: &str,
    config: &SmbConfig,
    address: Result<UncAddress, AppError>,
)
    requires
        call_ensures(PartSync::begin, (storage, upload, part_number, length), sync),
        partial@ == sync@.partial_path,
        *config == storage.smb_config,
        call_ensures(SmbConfig::build_unc_path_from_relative, (config, partial), address),
    ensures
        address matches Ok(a) ==> sync@.address == Ok::<UncView, ErrorView>(a@),
        address matches Err(e) ==> sync@.address == Err::<UncView, ErrorView>(e@),
{
}

/// The part at which writing is taken up follows from the size of the file: it is
/// the first that is not known to be there, or before that the first that the file
/// is too short for.
pub proof fn the_size_says_where_to_take_up_writing(
    run: &SmbFinalization,
    size: u64,
    part: i32,
    offset: u64,
)
    requires
        run.wf(),
        call_ensures(SmbFinalization::first_missing_part, (run, size), part),
        call_ensures(SmbFinalization::part_offset, (run,), offset),
    ensures
        0 <= part <= run@.known_parts,
        part * run@.fixed.chunk_size <= size,
        run@.fixed.chunk_size > 0 && part < run@.known_parts ==> (part + 1)
            * run@.fixed.chunk_size > size,
        run@.fixed.chunk_size == 0 ==> part == 0,
        offset == run@.offset,
{
    resuming_stays_within_the_file(run@, size);
    let chunk = run@.fixed.chunk_size as int;
    if chunk > 0 {
        let first = size as int / chunk;
        assert((first + 1) * chunk > size) by (nonlinear_arith)
            requires
                chunk > 0,
                size >= 0,
                first == size as int / chunk,
        ;
    }
}

/// That parts are not put together without being finalized, that a connection was
/// open already, and that a writing took too long is said in these words.
pub proof fn what_goes_on_at_the_share_is_said_in_words(
    failure: AppError,
    connected: String,
    late: String,
)
    requires
        call_ensures(SmbStorage::assemble_parts, (), failure),
        call_ensures(SmbConfig::connected_message, (), connected),
        call_ensures(PartSync::timed_out, (), late),
    ensures
        failure@ == ErrorView::Storage(
            "SMB backend uses finalize_upload directly; assemble_parts not supported"@,
        ),
        connected@ == "SMB connected"@,
        late@ == "Background sync timed out after 120s"@,
{
}

/// An attempt is given up after ten minutes and the writing of a part in the
/// background after two, which is what their failures say.
pub proof fn failures_say_how_long_was_waited(run: &mut SmbFinalization, late: String)
    requires
        old(run).wf(),
        call_ensures(SmbFinalization::handle, (run, FinalizeEvent::AttemptTimedOut), ()),
        call_ensures(PartSync::timed_out, (), late),
    ensures
        ATTEMPT_TIMEOUT_SECS == 10 * 60,
        SYNC_TIMEOUT_SECS == 2 * 60,
        final(run)@.error == Some(
            ErrorView::Storage(
                "SMB finalization attempt timed out ("@ + decimal(ATTEMPT_TIMEOUT_SECS as int)
                    + "s)"@,
            ),
        ),
        late@ == "Background sync timed out after "@ + decimal(SYNC_TIMEOUT_SECS as int) + "s"@,
{
    reveal_with_fuel(digits, 4);
    assert(decimal(600) =~= seq!['6', '0', '0']);
    assert(decimal(120) =~= seq!['1', '2', '0']);
    assert("SMB finalization attempt timed out ("@ + seq!['6', '0', '0'] + "s)"@
        =~= "SMB finalization attempt timed out (600s)"@) by {
        reveal_strlit("SMB finalization attempt timed out (");
        reveal_strlit("s)");
        reveal_strlit("SMB finalization attempt timed out (600s)");
    }
    assert("Background sync timed out after "@ + seq!['1', '2', '0'] + "s"@
        =~= "Background sync timed out after 120s"@) by {
        reveal_strlit("Background sync timed out after ");
        reveal_strlit("s");
        reveal_strlit("Background sync timed out after 120s");
    }
}

} // verus!
