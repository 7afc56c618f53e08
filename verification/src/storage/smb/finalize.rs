//! Completing the partial file on the share and renaming it.
//!
//! Where every part is known to be in the partial file, and the file is as large
//! as the whole, it is only renamed. Otherwise the parts are written to it from
//! the first that is not known to be there. What fails is tried again, three
//! times in all; a failed rename is not. Everything that waits for the server has
//! a limit, and so has each attempt.
use crate::cast::{to_unsigned, unsigned};
use crate::db::schema::Upload;
use crate::decimal::{decimal, push_decimal};
use crate::error::{AppError, ErrorView};
use crate::paths::{join, joined};
use crate::storage::parts::{part_path, part_path_of};
use crate::storage::smb::writer::{
    advance, next_range, range_after, written_after, WriteRange, SMB_WRITE_CHUNK,
};
use crate::storage::smb::{
    partial_files_are_apart, smb_file_path, smb_partial_path, storage_failure, SmbStorage,
};
use crate::storage::{build_response_path, response_path};
use crate::text::option_view;
use vstd::prelude::*;

verus! {

/// How often finalization is tried.
pub const ATTEMPTS: u32 = 3;

/// How many seconds connecting may take.
pub const CONNECT_TIMEOUT_SECS: u64 = 15;

/// How many seconds opening, measuring, closing or renaming a file may take.
pub const METADATA_TIMEOUT_SECS: u64 = 30;

/// How many seconds writing one part may take.
pub const PER_PART_TIMEOUT_SECS: u64 = 60;

/// How many seconds one attempt may take.
pub const ATTEMPT_TIMEOUT_SECS: u64 = 600;

/// What a finalization waits for.
#[derive(Debug, Clone, Copy, PartialEq, Eq, Structural)]
pub enum Phase {
    Waiting,
    Connecting,
    Measuring,
    Opening,
    Reading,
    Writing,
    Closing,
    Renaming,
    CleaningUp,
    Finished,
}

/// What is to be done next.
#[derive(Debug)]
pub enum FinalizeAction {
    /// Drop the connection and wait this many seconds.
    Wait(u64),
    /// Connect to the share, unless a connection is open.
    Connect,
    /// Find out how large the file is; a file that is not there has size 0.
    Measure(String),
    /// Make the directories above the file and open it, made where there is none.
    Open(String),
    /// Read a part from the local disk.
    Read { part_number: i32, path: String },
    /// Write these bytes of the part that was read last.
    Write(WriteRange),
    /// Close the file; a failure does not matter.
    Close,
    /// Make the directories above the target and rename the file.
    Rename { from: String, to: String },
    /// Remove the parts from the local disk; a failure does not matter.
    RemoveParts(String),
    /// Keep the connection, or drop it.
    Finish { keep_connection: bool },
}

/// What came of it.
#[derive(Debug)]
pub enum FinalizeEvent {
    Waited,
    Connected,
    ConnectFailed(String),
    ConnectTimedOut,
    Measured(u64),
    MeasureFailed,
    Opened,
    OpenFailed(String),
    OpenTimedOut,
    PartRead(usize),
    ReadFailed(String),
    Wrote(usize),
    WriteFailed(String),
    WriteTimedOut,
    Closed,
    CloseTimedOut,
    Renamed,
    RenameFailed(AppError),
    RenameTimedOut,
    PartsRemoved,
    /// The attempt took too long, whatever it was waiting for.
    AttemptTimedOut,
}

/// What of a finalization never changes.
#[derive(Debug)]
struct Fixed {
    upload_id: String,
    total_parts: i32,
    chunk_size: u64,
    expected_size: u64,
    partial_path: String,
    final_path: String,
    parts_path: String,
    response_path: String,
}

/// [`Fixed`] with its texts as sequences of characters.
#[verifier::ext_equal]
pub struct FixedView {
    pub upload_id: Seq<char>,
    pub total_parts: i32,
    pub chunk_size: u64,
    pub expected_size: u64,
    pub partial_path: Seq<char>,
    pub final_path: Seq<char>,
    pub parts_path: Seq<char>,
    pub response_path: Seq<char>,
}

impl View for Fixed {
    type V = FixedView;

    closed spec fn view(&self) -> FixedView {
        FixedView {
            upload_id: self.upload_id@,
            total_parts: self.total_parts,
            chunk_size: self.chunk_size,
            expected_size: self.expected_size,
            partial_path: self.partial_path@,
            final_path: self.final_path@,
            parts_path: self.parts_path@,
            response_path: self.response_path@,
        }
    }
}

/// A finalization under way.
#[derive(Debug)]
pub struct SmbFinalization {
    fixed: Fixed,
    attempt: u32,
    phase: Phase,
    known_parts: i32,
    part: i32,
    offset: u64,
    length: usize,
    written: usize,
    keep_connection: bool,
    error: Option<AppError>,
}

/// An [`SmbFinalization`] with its texts as sequences of characters.
#[verifier::ext_equal]
pub struct RunView {
    pub fixed: FixedView,
    /// The attempt, counted from 0.
    pub attempt: u32,
    pub phase: Phase,
    /// How many of the first parts are known to be in the partial file.
    pub known_parts: i32,
    /// The part whose turn it is.
    pub part: i32,
    /// Where that part begins in the file.
    pub offset: u64,
    /// Its length, once it was read.
    pub length: usize,
    /// How much of it was written.
    pub written: usize,
    pub keep_connection: bool,
    /// What went wrong last.
    pub error: Option<ErrorView>,
}

impl View for SmbFinalization {
    type V = RunView;

    closed spec fn view(&self) -> RunView {
        RunView {
            fixed: self.fixed@,
            attempt: self.attempt,
            phase: self.phase,
            known_parts: self.known_parts,
            part: self.part,
            offset: self.offset,
            length: self.length,
            written: self.written,
            keep_connection: self.keep_connection,
            error: match self.error {
                Some(e) => Some(e@),
                None => None,
            },
        }
    }
}

/// The first part of which the file does not hold all bytes, by the file's size.
pub open spec fn first_missing(chunk_size: u64, size: u64) -> int {
    if chunk_size > 0 {
        size as int / chunk_size as int
    } else {
        0
    }
}

/// How many of the first flags are set.
pub open spec fn leading(flags: Seq<bool>) -> nat
    decreases flags.len(),
{
    if flags.len() > 0 && flags[0] {
        1 + leading(flags.skip(1))
    } else {
        0
    }
}

/// How many of the first parts are known to be in the partial file, where
/// `synced` says of each part whether it is.
pub open spec fn known(synced: Seq<bool>, total_parts: int) -> int {
    if total_parts <= 0 {
        0
    } else if leading(synced) < total_parts {
        leading(synced) as int
    } else {
        total_parts
    }
}

/// The part at which writing is taken up when the file is `size` bytes large: the
/// first that is not known to be there, or that cannot be.
pub open spec fn resume_part(run: RunView, size: u64) -> int {
    if first_missing(run.fixed.chunk_size, size) < run.known_parts {
        first_missing(run.fixed.chunk_size, size)
    } else {
        run.known_parts as int
    }
}

/// The attempt failed: the next begins, or the whole finalization has failed
/// where this was the last.
pub open spec fn attempt_failed(run: RunView, error: ErrorView) -> RunView {
    if run.attempt + 1 < ATTEMPTS {
        RunView {
            attempt: (run.attempt + 1) as u32,
            phase: Phase::Waiting,
            error: Some(error),
            ..run
        }
    } else {
        RunView { phase: Phase::Finished, error: Some(error), ..run }
    }
}

/// The part is written, and so are those before it: the next is read, or the file
/// closed where this was the last.
pub open spec fn part_done(run: RunView) -> RunView {
    let part = run.part + 1;
    RunView {
        known_parts: if run.known_parts < part {
            part as i32
        } else {
            run.known_parts
        },
        part: part as i32,
        offset: (run.offset + run.length) as u64,
        written: run.length,
        phase: reading_or_closing(part, run.fixed.total_parts as int),
        ..run
    }
}

/// The phase in which a part is read, or the next where there are none left.
pub open spec fn reading_or_closing(part: int, total_parts: int) -> Phase {
    if part < total_parts {
        Phase::Reading
    } else {
        Phase::Closing
    }
}

/// The finalization is over: the connection is good, whatever came of the
/// rename.
pub open spec fn rename_failed(run: RunView, error: ErrorView) -> RunView {
    RunView { phase: Phase::Finished, keep_connection: true, error: Some(error), ..run }
}

/// The event answers what the finalization waits for, and numbers stay in their
/// range.
pub open spec fn expects(run: RunView, event: FinalizeEvent) -> bool {
    match event {
        FinalizeEvent::Waited => run.phase == Phase::Waiting,
        FinalizeEvent::Connected
        | FinalizeEvent::ConnectFailed(_)
        | FinalizeEvent::ConnectTimedOut => run.phase == Phase::Connecting,
        FinalizeEvent::Measured(_) | FinalizeEvent::MeasureFailed => run.phase == Phase::Measuring,
        FinalizeEvent::Opened | FinalizeEvent::OpenFailed(_) | FinalizeEvent::OpenTimedOut => {
            run.phase == Phase::Opening
        },
        FinalizeEvent::PartRead(length) => run.phase == Phase::Reading && run.offset + length
            <= u64::MAX,
        FinalizeEvent::ReadFailed(_) => run.phase == Phase::Reading,
        FinalizeEvent::Wrote(_) | FinalizeEvent::WriteFailed(_) | FinalizeEvent::WriteTimedOut => {
            run.phase == Phase::Writing
        },
        FinalizeEvent::Closed | FinalizeEvent::CloseTimedOut => run.phase == Phase::Closing,
        FinalizeEvent::Renamed
        | FinalizeEvent::RenameFailed(_)
        | FinalizeEvent::RenameTimedOut => run.phase == Phase::Renaming,
        FinalizeEvent::PartsRemoved => run.phase == Phase::CleaningUp,
        FinalizeEvent::AttemptTimedOut => in_attempt(run.phase),
    }
}

/// The phase is part of an attempt.
pub open spec fn in_attempt(phase: Phase) -> bool {
    phase != Phase::Waiting && phase != Phase::CleaningUp && phase != Phase::Finished
}

/// The file is `size` bytes large: it is renamed where that is all of it and
/// every part is known to be there, and otherwise opened to write what is
/// missing.
pub open spec fn measured(run: RunView, size: u64) -> RunView {
    if size >= run.fixed.expected_size && run.known_parts >= run.fixed.total_parts {
        RunView { phase: Phase::Renaming, ..run }
    } else {
        RunView {
            phase: Phase::Opening,
            part: resume_part(run, size) as i32,
            offset: (resume_part(run, size) * run.fixed.chunk_size) as u64,
            ..run
        }
    }
}

/// How an event takes the finalization on.
pub open spec fn run_after(run: RunView, event: FinalizeEvent) -> RunView {
    match event {
        FinalizeEvent::Waited => RunView { phase: Phase::Connecting, ..run },
        FinalizeEvent::Connected => RunView { phase: Phase::Measuring, ..run },
        FinalizeEvent::ConnectFailed(e) => attempt_failed(
            run,
            ErrorView::Storage("SMB reconnect failed during finalization: "@ + e@),
        ),
        FinalizeEvent::ConnectTimedOut => attempt_failed(
            run,
            ErrorView::Storage("SMB connection timed out (15s)"@),
        ),
        FinalizeEvent::Measured(size) => measured(run, size),
        FinalizeEvent::MeasureFailed => measured(run, 0),
        FinalizeEvent::Opened => RunView {
            phase: reading_or_closing(run.part as int, run.fixed.total_parts as int),
            ..run
        },
        FinalizeEvent::OpenFailed(e) => attempt_failed(
            run,
            ErrorView::Storage("Failed to open SMB partial file: "@ + e@),
        ),
        FinalizeEvent::OpenTimedOut => attempt_failed(
            run,
            ErrorView::Storage("Timeout opening SMB partial file"@),
        ),
        FinalizeEvent::PartRead(length) => {
            let read = RunView { length, written: 0, ..run };
            if length == 0 {
                part_done(read)
            } else {
                RunView { phase: Phase::Writing, ..read }
            }
        },
        FinalizeEvent::ReadFailed(e) => attempt_failed(
            run,
            ErrorView::Storage(
                "Failed to read part "@ + decimal(run.part as int) + " during finalization: "@
                    + e@,
            ),
        ),
        FinalizeEvent::Wrote(n) => if n == 0 {
            attempt_failed(run, ErrorView::Storage("SMB write returned 0 bytes"@))
        } else if written_after(run.length, run.written, n) == run.length {
            part_done(run)
        } else {
            RunView { written: written_after(run.length, run.written, n), ..run }
        },
        FinalizeEvent::WriteFailed(e) => attempt_failed(
            run,
            ErrorView::Storage(
                "SMB write_at failed for part "@ + decimal(run.part as int) + ": "@ + e@,
            ),
        ),
        FinalizeEvent::WriteTimedOut => attempt_failed(
            run,
            ErrorView::Storage(
                "SMB write timed out for part "@ + decimal(run.part as int) + " (60s limit)"@,
            ),
        ),
        FinalizeEvent::Closed | FinalizeEvent::CloseTimedOut => RunView {
            phase: Phase::Renaming,
            ..run
        },
        FinalizeEvent::Renamed => RunView {
            phase: Phase::CleaningUp,
            keep_connection: true,
            error: None,
            ..run
        },
        FinalizeEvent::RenameFailed(e) => rename_failed(run, e@),
        FinalizeEvent::RenameTimedOut => rename_failed(
            run,
            ErrorView::Storage("SMB rename timed out (30s)"@),
        ),
        FinalizeEvent::PartsRemoved => RunView { phase: Phase::Finished, ..run },
        FinalizeEvent::AttemptTimedOut => {
            let error = ErrorView::Storage("SMB finalization attempt timed out (600s)"@);
            if run.phase == Phase::Renaming {
                rename_failed(run, error)
            } else {
                attempt_failed(run, error)
            }
        },
    }
}

/// How many seconds what is waited for may take: for a part that is written,
/// from when it was read. What is done without the server has no limit but that
/// of the attempt.
pub open spec fn time_limit(phase: Phase) -> Option<u64> {
    match phase {
        Phase::Connecting => Some(CONNECT_TIMEOUT_SECS),
        Phase::Measuring | Phase::Opening | Phase::Closing | Phase::Renaming => Some(
            METADATA_TIMEOUT_SECS,
        ),
        Phase::Writing => Some(PER_PART_TIMEOUT_SECS),
        _ => None,
    }
}

/// The seconds to wait before an attempt: 2 to its power.
pub open spec fn backoff(attempt: u32) -> u64 {
    if attempt == 0 {
        1
    } else if attempt == 1 {
        2
    } else {
        4
    }
}

/// `action` is what is to be done next.
pub open spec fn asks(run: RunView, action: FinalizeAction) -> bool {
    match run.phase {
        Phase::Waiting => action matches FinalizeAction::Wait(seconds) && seconds == backoff(
            run.attempt,
        ),
        Phase::Connecting => action is Connect,
        Phase::Measuring => action matches FinalizeAction::Measure(path) && path@
            == run.fixed.partial_path,
        Phase::Opening => action matches FinalizeAction::Open(path) && path@
            == run.fixed.partial_path,
        Phase::Reading => action matches FinalizeAction::Read { part_number, path } && part_number
            == run.part && path@ == part_path(
            run.fixed.parts_path,
            run.fixed.upload_id,
            run.part as int,
        ),
        Phase::Writing => action matches FinalizeAction::Write(range) && range == next_range(
            run.offset,
            run.length,
            run.written,
        ),
        Phase::Closing => action is Close,
        Phase::Renaming => action matches FinalizeAction::Rename { from, to } && from@
            == run.fixed.partial_path && to@ == run.fixed.final_path,
        Phase::CleaningUp => action matches FinalizeAction::RemoveParts(path) && path@ == joined(
            run.fixed.parts_path,
            run.fixed.upload_id,
        ),
        Phase::Finished => action matches FinalizeAction::Finish { keep_connection }
            && keep_connection == run.keep_connection,
    }
}

/// What holds of a finalization at all times.
pub open spec fn in_order(run: RunView) -> bool {
    &&& run.attempt < ATTEMPTS
    &&& 0 <= run.known_parts
    &&& run.known_parts <= run.fixed.total_parts || run.known_parts == 0
    &&& run.fixed.partial_path != run.fixed.final_path
    &&& run.phase == Phase::Waiting ==> run.attempt > 0
    &&& run.phase == Phase::Reading || run.phase == Phase::Writing ==> run.part
        < run.fixed.total_parts
    &&& run.phase == Phase::Writing ==> run.written < run.length && run.offset + run.length
        <= u64::MAX
    &&& run.phase == Phase::CleaningUp ==> run.error is None
}

/// How many of the first parts are known to be in the partial file.
fn count_known(synced: &Vec<bool>, total_parts: i32) -> (count: i32)
    ensures
        count == known(synced@, total_parts as int),
        0 <= count,
        count <= total_parts || count == 0,
{
    let mut count: i32 = 0;
    assert(synced@.skip(0) =~= synced@);
    while count < total_parts && (count as usize) < synced.len() && synced[count as usize]
        invariant
            0 <= count <= synced@.len(),
            count <= total_parts || count == 0,
            leading(synced@) == count + leading(synced@.skip(count as int)),
        decreases total_parts - count,
    {
        assert(synced@.skip(count as int).skip(1) =~= synced@.skip(count + 1));
        count += 1;
    }
    count
}

impl SmbFinalization {
    /// The finalization is in order.
    pub open spec fn wf(&self) -> bool {
        in_order(self@)
    }

    /// Begins the finalization of an upload. `synced` says of each part whether it
    /// is known to be in the partial file.
    pub fn begin(storage: &SmbStorage, upload: &Upload, synced: &Vec<bool>) -> (run:
        SmbFinalization)
        ensures
            run.wf(),
            ({
                let base = storage.smb_config.base_path@;
                let target = option_view(upload.target_path);
                &&& run@.fixed == (FixedView {
                    upload_id: upload.id@,
                    total_parts: upload.total_parts,
                    chunk_size: unsigned(upload.chunk_size) as u64,
                    expected_size: unsigned(upload.total_size) as u64,
                    partial_path: smb_partial_path(base, upload.id@, upload.filename@, target),
                    final_path: smb_file_path(base, upload.id@, upload.filename@, target),
                    parts_path: storage.parts_path@,
                    response_path: response_path(upload.id@, upload.filename@, target),
                })
                &&& run@.attempt == 0
                &&& run@.known_parts == known(synced@, upload.total_parts as int)
                &&& run@.phase == Phase::Connecting
                &&& run@.error is None
                &&& !run@.keep_connection
            }),
    {
        let id: &str = upload.id.as_str();
        let name: &str = upload.filename.as_str();
        let target: Option<&str> = match &upload.target_path {
            Some(path) => Some(path.as_str()),
            None => None,
        };
        proof {
            partial_files_are_apart(
                storage.smb_config.base_path@,
                upload.id@,
                upload.filename@,
                option_view(upload.target_path),
            );
        }
        let fixed: Fixed = Fixed {
            upload_id: upload.id.clone(),
            total_parts: upload.total_parts,
            chunk_size: to_unsigned(upload.chunk_size),
            expected_size: to_unsigned(upload.total_size),
            partial_path: storage.get_smb_partial_path(id, name, target),
            final_path: storage.get_smb_file_path(id, name, target),
            parts_path: storage.parts_path.clone(),
            response_path: build_response_path(id, name, target),
        };
        SmbFinalization {
            fixed,
            attempt: 0,
            phase: Phase::Connecting,
            known_parts: count_known(synced, upload.total_parts),
            part: 0,
            offset: 0,
            length: 0,
            written: 0,
            keep_connection: false,
            error: None,
        }
    }

    /// What is to be done next. A piece to write is never empty and never larger
    /// than the largest piece.
    pub fn next(&self) -> (action: FinalizeAction)
        requires
            self.wf(),
        ensures
            asks(self@, action),
            action matches FinalizeAction::Write(range) ==> range.from < range.to <= self@.length
                && range.to - range.from <= SMB_WRITE_CHUNK && range.offset == self@.offset
                + self@.written,
    {
        match self.phase {
            Phase::Waiting => FinalizeAction::Wait(
                if self.attempt == 0 {
                    1
                } else if self.attempt == 1 {
                    2
                } else {
                    4
                },
            ),
            Phase::Connecting => FinalizeAction::Connect,
            Phase::Measuring => FinalizeAction::Measure(self.fixed.partial_path.clone()),
            Phase::Opening => FinalizeAction::Open(self.fixed.partial_path.clone()),
            Phase::Reading => FinalizeAction::Read {
                part_number: self.part,
                path: part_path_of(
                    self.fixed.parts_path.as_str(),
                    self.fixed.upload_id.as_str(),
                    self.part,
                ),
            },
            Phase::Writing => FinalizeAction::Write(
                range_after(self.offset, self.length, self.written),
            ),
            Phase::Closing => FinalizeAction::Close,
            Phase::Renaming => FinalizeAction::Rename {
                from: self.fixed.partial_path.clone(),
                to: self.fixed.final_path.clone(),
            },
            Phase::CleaningUp => FinalizeAction::RemoveParts(
                join(self.fixed.parts_path.as_str(), self.fixed.upload_id.as_str()),
            ),
            Phase::Finished => FinalizeAction::Finish { keep_connection: self.keep_connection },
        }
    }

    /// Ends the attempt with an error.
    fn fail(&mut self, error: AppError)
        requires
            old(self).wf(),
        ensures
            final(self).wf(),
            final(self)@ == attempt_failed(old(self)@, error@),
    {
        self.error = Some(error);
        if self.attempt + 1 < ATTEMPTS {
            self.attempt = self.attempt + 1;
            self.phase = Phase::Waiting;
        } else {
            self.phase = Phase::Finished;
        }
    }

    /// Ends the attempt with an error about the part whose turn it is.
    fn fail_part(&mut self, before: &str, after: &str)
        requires
            old(self).wf(),
        ensures
            final(self).wf(),
            final(self)@ == attempt_failed(
                old(self)@,
                ErrorView::Storage(before@ + decimal(old(self)@.part as int) + after@),
            ),
    {
        let mut message: String = before.to_owned();
        push_decimal(&mut message, self.part as i64);
        message.append(after);
        self.fail(AppError::Storage(message));
    }

    /// Goes on to the next part.
    fn finish_part(&mut self)
        requires
            old(self).wf(),
            old(self)@.part < old(self)@.fixed.total_parts,
            old(self)@.offset + old(self)@.length <= u64::MAX,
            old(self)@.phase != Phase::CleaningUp,
        ensures
            final(self).wf(),
            final(self)@ == part_done(old(self)@),
    {
        self.offset = self.offset + self.length as u64;
        self.part = self.part + 1;
        if self.known_parts < self.part {
            self.known_parts = self.part;
        }
        self.written = self.length;
        self.phase = if self.part < self.fixed.total_parts {
            Phase::Reading
        } else {
            Phase::Closing
        };
    }

    /// Takes up the size of the partial file.
    fn take_size(&mut self, size: u64)
        requires
            old(self).wf(),
            old(self)@.phase == Phase::Measuring,
        ensures
            final(self).wf(),
            final(self)@ == measured(old(self)@, size),
    {
        if size >= self.fixed.expected_size && self.known_parts >= self.fixed.total_parts {
            self.phase = Phase::Renaming;
            return;
        }
        let part: i32 = self.first_missing_part(size);
        proof {
            resuming_stays_within_the_file(self@, size);
        }
        self.part = part;
        self.offset = part as u64 * self.fixed.chunk_size;
        self.phase = Phase::Opening;
    }

    /// Takes up what came of the action.
    pub fn handle(&mut self, event: FinalizeEvent)
        requires
            old(self).wf(),
            expects(old(self)@, event),
        ensures
            final(self).wf(),
            final(self)@ == run_after(old(self)@, event),
    {
        match event {
            FinalizeEvent::Waited => {
                self.phase = Phase::Connecting;
            },
            FinalizeEvent::Connected => {
                self.phase = Phase::Measuring;
            },
            FinalizeEvent::ConnectFailed(e) => {
                self.fail(
                    storage_failure("SMB reconnect failed during finalization: ", e.as_str()),
                );
            },
            FinalizeEvent::ConnectTimedOut => {
                self.fail(AppError::Storage("SMB connection timed out (15s)".to_owned()));
            },
            FinalizeEvent::Measured(size) => {
                self.take_size(size);
            },
            FinalizeEvent::MeasureFailed => {
                self.take_size(0);
            },
            FinalizeEvent::Opened => {
                self.phase = if self.part < self.fixed.total_parts {
                    Phase::Reading
                } else {
                    Phase::Closing
                };
            },
            FinalizeEvent::OpenFailed(e) => {
                self.fail(storage_failure("Failed to open SMB partial file: ", e.as_str()));
            },
            FinalizeEvent::OpenTimedOut => {
                self.fail(AppError::Storage("Timeout opening SMB partial file".to_owned()));
            },
            FinalizeEvent::PartRead(length) => {
                self.length = length;
                self.written = 0;
                if length == 0 {
                    self.finish_part();
                } else {
                    self.phase = Phase::Writing;
                }
            },
            FinalizeEvent::ReadFailed(e) => {
                let mut detail: String = " during finalization: ".to_owned();
                detail.append(e.as_str());
                proof {
                    let n = decimal(self@.part as int);
                    assert("Failed to read part "@ + n + (" during finalization: "@ + e@)
                        =~= "Failed to read part "@ + n + " during finalization: "@ + e@);
                }
                self.fail_part("Failed to read part ", detail.as_str());
            },
            FinalizeEvent::Wrote(n) => {
                if n == 0 {
                    self.fail(AppError::Storage("SMB write returned 0 bytes".to_owned()));
                } else {
                    let now_written: usize = advance(self.length, self.written, n);
                    if now_written == self.length {
                        self.finish_part();
                    } else {
                        self.written = now_written;
                    }
                }
            },
            FinalizeEvent::WriteFailed(e) => {
                let mut detail: String = ": ".to_owned();
                detail.append(e.as_str());
                proof {
                    let n = decimal(self@.part as int);
                    assert("SMB write_at failed for part "@ + n + (": "@ + e@)
                        =~= "SMB write_at failed for part "@ + n + ": "@ + e@);
                }
                self.fail_part("SMB write_at failed for part ", detail.as_str());
            },
            FinalizeEvent::WriteTimedOut => {
                self.fail_part("SMB write timed out for part ", " (60s limit)");
            },
            FinalizeEvent::Closed | FinalizeEvent::CloseTimedOut => {
                self.phase = Phase::Renaming;
            },
            FinalizeEvent::Renamed => {
                self.phase = Phase::CleaningUp;
                self.keep_connection = true;
                self.error = None;
            },
            FinalizeEvent::RenameFailed(e) => {
                self.phase = Phase::Finished;
                self.keep_connection = true;
                self.error = Some(e);
            },
            FinalizeEvent::RenameTimedOut => {
                self.phase = Phase::Finished;
                self.keep_connection = true;
                self.error = Some(AppError::Storage("SMB rename timed out (30s)".to_owned()));
            },
            FinalizeEvent::PartsRemoved => {
                self.phase = Phase::Finished;
            },
            FinalizeEvent::AttemptTimedOut => {
                let error: AppError = AppError::Storage(
                    "SMB finalization attempt timed out (600s)".to_owned(),
                );
                if self.phase == Phase::Renaming {
                    self.phase = Phase::Finished;
                    self.keep_connection = true;
                    self.error = Some(error);
                } else {
                    self.fail(error);
                }
            },
        }
    }

    /// The part at which writing is taken up where the file has this size.
    pub fn first_missing_part(&self, size: u64) -> (part: i32)
        requires
            self.wf(),
        ensures
            part == resume_part(self@, size),
    {
        let chunk: u64 = self.fixed.chunk_size;
        let first: u64 = if chunk > 0 {
            size / chunk
        } else {
            0
        };
        if first < self.known_parts as u64 {
            first as i32
        } else {
            self.known_parts
        }
    }

    /// How many seconds what is waited for may take.
    pub fn limit(&self) -> (seconds: Option<u64>)
        ensures
            seconds == time_limit(self@.phase),
    {
        match self.phase {
            Phase::Connecting => Some(CONNECT_TIMEOUT_SECS),
            Phase::Measuring | Phase::Opening | Phase::Closing | Phase::Renaming => Some(
                METADATA_TIMEOUT_SECS,
            ),
            Phase::Writing => Some(PER_PART_TIMEOUT_SECS),
            _ => None,
        }
    }

    /// Where the part whose turn it is begins in the file.
    pub fn part_offset(&self) -> (offset: u64)
        ensures
            offset == self@.offset,
    {
        self.offset
    }

    /// What came of the finalization, once it has finished: the path that the
    /// client is given, or the last error.
    pub fn into_outcome(self) -> (outcome: Result<String, AppError>)
        ensures
            match self@.error {
                None => outcome matches Ok(path) && path@ == self@.fixed.response_path,
                Some(error) => outcome matches Err(e) && e@ == error,
            },
    {
        match self.error {
            None => Ok(self.fixed.response_path),
            Some(e) => Err(e),
        }
    }
}

// ---------------------------------------------------------------------------
// Laws
// ---------------------------------------------------------------------------
/// Writing is taken up within the file: the parts before are no more than fit
/// into it.
pub proof fn resuming_stays_within_the_file(run: RunView, size: u64)
    requires
        run.known_parts >= 0,
    ensures
        0 <= resume_part(run, size) <= run.known_parts,
        0 <= resume_part(run, size) * run.fixed.chunk_size <= size,
{
    let chunk = run.fixed.chunk_size as int;
    let first = first_missing(run.fixed.chunk_size, size);
    let part = resume_part(run, size);
    if chunk > 0 {
        assert(0 <= first && first * chunk <= size) by (nonlinear_arith)
            requires
                chunk > 0,
                size >= 0,
                first == size as int / chunk,
        ;
        assert(0 <= part * chunk <= first * chunk) by (nonlinear_arith)
            requires
                0 <= part <= first,
                chunk > 0,
        ;
    } else {
        assert(part * chunk == 0) by (nonlinear_arith)
            requires
                chunk == 0,
        ;
    }
}

/// What stands for an answer when the server gives none in time.
pub open spec fn given_up(phase: Phase) -> FinalizeEvent {
    match phase {
        Phase::Connecting => FinalizeEvent::ConnectTimedOut,
        Phase::Measuring => FinalizeEvent::MeasureFailed,
        Phase::Opening => FinalizeEvent::OpenTimedOut,
        Phase::Writing => FinalizeEvent::WriteTimedOut,
        Phase::Closing => FinalizeEvent::CloseTimedOut,
        _ => FinalizeEvent::RenameTimedOut,
    }
}

/// `phase` waits for the server.
pub open spec fn waits_for_server(phase: Phase) -> bool {
    phase == Phase::Connecting || phase == Phase::Measuring || phase == Phase::Opening || phase
        == Phase::Writing || phase == Phase::Closing || phase == Phase::Renaming
}

/// The server is never waited for without limit. Whatever it is asked has a limit
/// and can be given up, as can the whole attempt at any point, and giving up
/// brings the finalization nearer to its end.
pub proof fn the_server_is_never_waited_for_without_limit(run: RunView)
    requires
        in_order(run),
    ensures
        waits_for_server(run.phase) ==> {
            &&& time_limit(run.phase) is Some
            &&& time_limit(run.phase)->0 <= 60
            &&& expects(run, given_up(run.phase))
            &&& nearer(run, run_after(run, given_up(run.phase)))
        },
        in_attempt(run.phase) ==> {
            &&& expects(run, FinalizeEvent::AttemptTimedOut)
            &&& nearer(run, run_after(run, FinalizeEvent::AttemptTimedOut))
        },
{
    if waits_for_server(run.phase) {
        every_answer_brings_the_end_nearer(run, given_up(run.phase));
    }
    if in_attempt(run.phase) {
        every_answer_brings_the_end_nearer(run, FinalizeEvent::AttemptTimedOut);
    }
}

/// The order of the phases within an attempt.
pub open spec fn rank(phase: Phase) -> int {
    match phase {
        Phase::Waiting => 8,
        Phase::Connecting => 7,
        Phase::Measuring => 6,
        Phase::Opening => 5,
        Phase::Reading => 4,
        Phase::Writing => 4,
        Phase::Closing => 3,
        Phase::Renaming => 2,
        Phase::CleaningUp => 1,
        Phase::Finished => 0,
    }
}

/// What is left to do at a part: reading it and writing each of its bytes.
pub open spec fn left_at_part(run: RunView) -> int {
    if run.phase == Phase::Writing {
        run.length - run.written
    } else {
        0
    }
}

/// `b` is nearer to the end than `a`: in a later attempt, or in the same one and
/// further on.
pub open spec fn nearer(a: RunView, b: RunView) -> bool {
    ||| a.attempt < b.attempt
    ||| a.attempt == b.attempt && rank(b.phase) < rank(a.phase)
    ||| a.attempt == b.attempt && rank(b.phase) == rank(a.phase) && a.part < b.part
    ||| a.attempt == b.attempt && rank(b.phase) == rank(a.phase) && a.part == b.part && a.phase
        == Phase::Reading && b.phase == Phase::Writing
    ||| a.attempt == b.attempt && a.phase == b.phase && a.part == b.part && left_at_part(b)
        < left_at_part(a)
}

/// No finalization goes on for ever: every answer brings it nearer to the end,
/// and there are no more than three attempts.
pub proof fn every_answer_brings_the_end_nearer(run: RunView, event: FinalizeEvent)
    requires
        in_order(run),
        expects(run, event),
    ensures
        in_order(run_after(run, event)),
        nearer(run, run_after(run, event)),
        run_after(run, event).fixed == run.fixed,
{
}

/// A finalization ends well only when the partial file was renamed: where it has
/// finished without an error, its last answer was that the parts were removed
/// after the rename.
pub proof fn success_needs_the_rename(run: RunView, event: FinalizeEvent)
    requires
        in_order(run),
        expects(run, event),
        run_after(run, event).phase == Phase::Finished,
        run_after(run, event).error is None,
    ensures
        run.phase == Phase::CleaningUp,
        event is PartsRemoved,
{
}

/// Only the answer that the file was renamed leads to the cleaning up.
pub proof fn cleaning_up_follows_the_rename(run: RunView, event: FinalizeEvent)
    requires
        in_order(run),
        expects(run, event),
        run_after(run, event).phase == Phase::CleaningUp,
    ensures
        event is Renamed,
{
}

} // verus!
