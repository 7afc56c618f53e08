//! Writing a part to the partial file in the background.
//!
//! The upload of a part is answered as soon as the part is on the local disk.
//! Its copy on the share is written afterwards. A part whose writing did not
//! succeed is written again when the file is finalized.
use crate::cast::{to_unsigned, unsigned};
use crate::db::schema::Upload;
use crate::error::{message_of, AppError, ErrorView};
use crate::storage::smb::unc::{is_unc, UncAddress, UncView};
use crate::storage::smb::writer::{
    advance, next_range, overwritten, pieces_make_up_the_data, range_after, written_after,
    WriteRange, SMB_WRITE_CHUNK,
};
use crate::storage::smb::{address_of, invalid_unc, smb_partial_path, ResourceKind, SmbStorage};
use crate::text::option_view;
use vstd::prelude::*;

verus! {

/// After how many seconds the writing of a part is given up.
pub const SYNC_TIMEOUT_SECS: u64 = 120;

/// Where a part is written in the partial file, by its number and the chunk
/// size; 0 where that would lie beyond the range of offsets.
pub open spec fn sync_offset(part_number: i32, chunk_size: i64) -> u64 {
    let product = unsigned(part_number as i64) * unsigned(chunk_size);
    if product <= u64::MAX {
        product as u64
    } else {
        0
    }
}

/// Where a part is written in the partial file.
pub fn offset_of_part(part_number: i32, chunk_size: i64) -> (offset: u64)
    ensures
        offset == sync_offset(part_number, chunk_size),
{
    let number: u64 = to_unsigned(part_number as i64);
    let size: u64 = to_unsigned(chunk_size);
    assert(number * size <= u64::MAX * u64::MAX) by (nonlinear_arith)
        requires
            0 <= number <= u64::MAX,
            0 <= size <= u64::MAX,
    ;
    assert(number * size >= 0) by (nonlinear_arith)
        requires
            0 <= number,
            0 <= size,
    ;
    let product: u128 = number as u128 * size as u128;
    if product <= u64::MAX as u128 {
        product as u64
    } else {
        0
    }
}

/// A part has its place directly behind the chunks before it, wherever that can
/// be counted in 64 bits.
pub proof fn parts_are_written_at_their_place(part_number: i32, chunk_size: i64)
    requires
        part_number >= 0,
        chunk_size >= 0,
        part_number * chunk_size <= u64::MAX,
    ensures
        sync_offset(part_number, chunk_size) == part_number * chunk_size,
{
    assert(part_number * chunk_size >= 0) by (nonlinear_arith)
        requires
            part_number >= 0,
            chunk_size >= 0,
    ;
}

/// What the writing of a part waits for.
#[derive(Debug, Clone, Copy, PartialEq, Eq, Structural)]
pub enum SyncPhase {
    Connecting,
    Directories,
    Opening,
    Writing,
    Closing,
    Finished,
}

/// What is to be done next.
#[derive(Debug)]
pub enum SyncAction {
    /// Connect to the share, unless a connection is open.
    Connect,
    /// Make the directories above this path.
    EnsureDirectories(String),
    /// Open the file at this address, made where there is none.
    Open(UncAddress),
    /// Write these bytes of the part.
    Write(WriteRange),
    /// Close the file; a failure does not matter.
    Close,
    /// Keep the connection, or drop it where the writing failed.
    Finish { keep_connection: bool },
}

/// What came of it.
#[derive(Debug)]
pub enum SyncEvent {
    Connected,
    ConnectFailed(String),
    DirectoriesReady,
    DirectoriesFailed(String),
    Opened(ResourceKind),
    OpenFailed(String),
    Wrote(usize),
    WriteFailed(String),
    Closed,
}

/// The writing of one part.
#[derive(Debug)]
pub struct PartSync {
    partial_path: String,
    address: Result<UncAddress, AppError>,
    offset: u64,
    length: usize,
    written: usize,
    phase: SyncPhase,
    error: Option<String>,
}

/// A [`PartSync`] with its texts as sequences of characters.
#[verifier::ext_equal]
pub struct SyncView {
    pub partial_path: Seq<char>,
    /// The address of the partial file, or why there is none.
    pub address: Result<UncView, ErrorView>,
    pub offset: u64,
    pub length: usize,
    pub written: usize,
    pub phase: SyncPhase,
    pub error: Option<Seq<char>>,
}

impl View for PartSync {
    type V = SyncView;

    closed spec fn view(&self) -> SyncView {
        SyncView {
            partial_path: self.partial_path@,
            address: match self.address {
                Ok(address) => Ok(address@),
                Err(e) => Err(e@),
            },
            offset: self.offset,
            length: self.length,
            written: self.written,
            phase: self.phase,
            error: option_view(self.error),
        }
    }
}

/// The writing given up with this error.
pub open spec fn sync_given_up(sync: SyncView, error: Seq<char>) -> SyncView {
    SyncView { phase: SyncPhase::Finished, error: Some(error), ..sync }
}

/// The phase in which bytes are written, or the next where there are none left.
pub open spec fn writing_or_closing(length: usize, written: usize) -> SyncPhase {
    if written < length {
        SyncPhase::Writing
    } else {
        SyncPhase::Closing
    }
}

/// The event answers what the writing waits for.
pub open spec fn sync_expects(phase: SyncPhase, event: SyncEvent) -> bool {
    match event {
        SyncEvent::Connected | SyncEvent::ConnectFailed(_) => phase == SyncPhase::Connecting,
        SyncEvent::DirectoriesReady | SyncEvent::DirectoriesFailed(_) => phase
            == SyncPhase::Directories,
        SyncEvent::Opened(_) | SyncEvent::OpenFailed(_) => phase == SyncPhase::Opening,
        SyncEvent::Wrote(_) | SyncEvent::WriteFailed(_) => phase == SyncPhase::Writing,
        SyncEvent::Closed => phase == SyncPhase::Closing,
    }
}

/// How an event takes the writing on.
pub open spec fn sync_after(sync: SyncView, event: SyncEvent) -> SyncView {
    match event {
        SyncEvent::Connected => SyncView { phase: SyncPhase::Directories, ..sync },
        SyncEvent::ConnectFailed(e) => sync_given_up(sync, "Sync client connect failed: "@ + e@),
        SyncEvent::DirectoriesReady => match sync.address {
            Ok(_) => SyncView { phase: SyncPhase::Opening, ..sync },
            Err(e) => sync_given_up(sync, "build UNC: "@ + message_of(e)),
        },
        SyncEvent::DirectoriesFailed(e) => sync_given_up(sync, "ensure dirs: "@ + e@),
        SyncEvent::Opened(ResourceKind::File) => SyncView {
            phase: writing_or_closing(sync.length, sync.written),
            ..sync
        },
        SyncEvent::Opened(_) => sync_given_up(sync, "Expected file resource"@),
        SyncEvent::OpenFailed(e) => sync_given_up(sync, "open partial file: "@ + e@),
        SyncEvent::Wrote(n) => if n == 0 {
            sync_given_up(sync, "write_at returned 0 bytes"@)
        } else {
            let written = written_after(sync.length, sync.written, n);
            SyncView { written, phase: writing_or_closing(sync.length, written), ..sync }
        },
        SyncEvent::WriteFailed(e) => sync_given_up(sync, "write_at: "@ + e@),
        SyncEvent::Closed => SyncView { phase: SyncPhase::Finished, ..sync },
    }
}

/// `action` is what is to be done next.
pub open spec fn sync_asks(sync: SyncView, action: SyncAction) -> bool {
    match sync.phase {
        SyncPhase::Connecting => action is Connect,
        SyncPhase::Directories => action matches SyncAction::EnsureDirectories(path) && path@
            == sync.partial_path,
        SyncPhase::Opening => action matches SyncAction::Open(address) && sync.address == Ok::<
            UncView,
            ErrorView,
        >(address@),
        SyncPhase::Writing => action matches SyncAction::Write(range) && range == next_range(
            sync.offset,
            sync.length,
            sync.written,
        ),
        SyncPhase::Closing => action is Close,
        SyncPhase::Finished => action matches SyncAction::Finish { keep_connection }
            && keep_connection == (sync.error is None),
    }
}

impl PartSync {
    /// The writing keeps to the part, and a file that is being opened or written
    /// has an address.
    pub open spec fn wf(&self) -> bool {
        &&& self@.written <= self@.length
        &&& self@.offset + self@.length <= u64::MAX
        &&& self@.phase == SyncPhase::Writing ==> self@.written < self@.length
        &&& self@.phase == SyncPhase::Opening ==> self@.address is Ok
    }

    /// Begins to write a part of `length` bytes.
    pub fn begin(storage: &SmbStorage, upload: &Upload, part_number: i32, length: usize) -> (sync:
        PartSync)
        requires
            sync_offset(part_number, upload.chunk_size) + length <= u64::MAX,
        ensures
            sync.wf(),
            ({
                let path = smb_partial_path(
                    storage.smb_config.base_path@,
                    upload.id@,
                    upload.filename@,
                    option_view(upload.target_path),
                );
                sync@ == (SyncView {
                    partial_path: path,
                    address: if is_unc(storage.smb_config.unc_path@) {
                        Ok(address_of(storage.smb_config, path))
                    } else {
                        Err(invalid_unc(storage.smb_config.unc_path@))
                    },
                    offset: sync_offset(part_number, upload.chunk_size),
                    length,
                    written: 0,
                    phase: SyncPhase::Connecting,
                    error: None,
                })
            }),
    {
        let target: Option<&str> = match &upload.target_path {
            Some(path) => Some(path.as_str()),
            None => None,
        };
        let partial_path: String = storage.get_smb_partial_path(
            upload.id.as_str(),
            upload.filename.as_str(),
            target,
        );
        let address: Result<UncAddress, AppError> =
            storage.smb_config.build_unc_path_from_relative(partial_path.as_str());
        PartSync {
            partial_path,
            address,
            offset: offset_of_part(part_number, upload.chunk_size),
            length,
            written: 0,
            phase: SyncPhase::Connecting,
            error: None,
        }
    }

    /// What is to be done next.
    pub fn next(&self) -> (action: SyncAction)
        requires
            self.wf(),
        ensures
            sync_asks(self@, action),
            action matches SyncAction::Write(range) ==> range.from < range.to <= self@.length
                && range.to - range.from <= SMB_WRITE_CHUNK,
    {
        match self.phase {
            SyncPhase::Connecting => SyncAction::Connect,
            SyncPhase::Directories => SyncAction::EnsureDirectories(self.partial_path.clone()),
            SyncPhase::Opening => match &self.address {
                Ok(address) => SyncAction::Open(
                    UncAddress {
                        server: address.server.clone(),
                        share: crate::text::copy_option(&address.share),
                        path: crate::text::copy_option(&address.path),
                    },
                ),
                Err(_) => SyncAction::Finish { keep_connection: self.keep_connection() },
            },
            SyncPhase::Writing => SyncAction::Write(
                range_after(self.offset, self.length, self.written),
            ),
            SyncPhase::Closing => SyncAction::Close,
            SyncPhase::Finished => SyncAction::Finish {
                keep_connection: self.keep_connection(),
            },
        }
    }

    /// Gives the writing up.
    fn give_up(&mut self, prefix: &str, detail: &str)
        ensures
            final(self)@ == sync_given_up(old(self)@, prefix@ + detail@),
    {
        let mut error: String = prefix.to_owned();
        error.append(detail);
        self.error = Some(error);
        self.phase = SyncPhase::Finished;
    }

    /// Takes up what came of the action.
    pub fn handle(&mut self, event: SyncEvent)
        requires
            old(self).wf(),
            sync_expects(old(self)@.phase, event),
        ensures
            final(self).wf(),
            final(self)@ == sync_after(old(self)@, event),
    {
        match event {
            SyncEvent::Connected => {
                self.phase = SyncPhase::Directories;
            },
            SyncEvent::ConnectFailed(e) => {
                self.give_up("Sync client connect failed: ", e.as_str());
            },
            SyncEvent::DirectoriesReady => {
                let problem: Option<String> = match &self.address {
                    Ok(_) => None,
                    Err(e) => Some(e.message()),
                };
                match problem {
                    None => {
                        self.phase = SyncPhase::Opening;
                    },
                    Some(text) => {
                        self.give_up("build UNC: ", text.as_str());
                    },
                }
            },
            SyncEvent::DirectoriesFailed(e) => {
                self.give_up("ensure dirs: ", e.as_str());
            },
            SyncEvent::Opened(ResourceKind::File) => {
                self.phase = if self.written < self.length {
                    SyncPhase::Writing
                } else {
                    SyncPhase::Closing
                };
            },
            SyncEvent::Opened(_) => {
                self.error = Some("Expected file resource".to_owned());
                self.phase = SyncPhase::Finished;
            },
            SyncEvent::OpenFailed(e) => {
                self.give_up("open partial file: ", e.as_str());
            },
            SyncEvent::Wrote(n) => {
                if n == 0 {
                    self.error = Some("write_at returned 0 bytes".to_owned());
                    self.phase = SyncPhase::Finished;
                } else {
                    self.written = advance(self.length, self.written, n);
                    self.phase = if self.written < self.length {
                        SyncPhase::Writing
                    } else {
                        SyncPhase::Closing
                    };
                }
            },
            SyncEvent::WriteFailed(e) => {
                self.give_up("write_at: ", e.as_str());
            },
            SyncEvent::Closed => {
                self.phase = SyncPhase::Finished;
            },
        }
    }

    /// What came of the writing, once it has finished.
    pub fn outcome(&self) -> (result: Result<(), String>)
        ensures
            match self@.error {
                None => result is Ok,
                Some(error) => result matches Err(e) && e@ == error,
            },
    {
        match &self.error {
            None => Ok(()),
            Some(error) => Err(error.clone()),
        }
    }

    /// Whether the connection is kept, once the writing has finished: it is dropped
    /// after any failure, so that the next writing connects anew.
    pub fn keep_connection(&self) -> (keep: bool)
        ensures
            keep == (self@.error is None),
    {
        self.error.is_none()
    }

    /// What is reported when the writing took too long.
    pub fn timed_out() -> (error: String)
        ensures
            error@ == "Background sync timed out after 120s"@,
    {
        "Background sync timed out after 120s".to_owned()
    }
}

/// The writing of a part after these events.
pub open spec fn sync_through(sync: SyncView, events: Seq<SyncEvent>) -> SyncView
    decreases events.len(),
{
    if events.len() == 0 {
        sync
    } else {
        sync_after(sync_through(sync, events.drop_last()), events.last())
    }
}

/// These events are a history of the writing: each is expected, and no more is
/// said to be written than was asked for.
pub open spec fn sync_history(sync: SyncView, events: Seq<SyncEvent>) -> bool
    decreases events.len(),
{
    events.len() > 0 ==> {
        let before = sync_through(sync, events.drop_last());
        &&& sync_history(sync, events.drop_last())
        &&& sync_expects(before.phase, events.last())
        &&& events.last() matches SyncEvent::Wrote(n) ==> ({
            let range = next_range(before.offset, before.length, before.written);
            n <= range.to - range.from
        })
    }
}

/// The partial file after these events: what the server says it has written of
/// `data` stands at its place.
pub open spec fn file_through(
    sync: SyncView,
    events: Seq<SyncEvent>,
    file: Seq<u8>,
    data: Seq<u8>,
) -> Seq<u8>
    decreases events.len(),
{
    if events.len() == 0 {
        file
    } else {
        let before = sync_through(sync, events.drop_last());
        let so_far = file_through(sync, events.drop_last(), file, data);
        match events.last() {
            SyncEvent::Wrote(n) => {
                let range = next_range(before.offset, before.length, before.written);
                overwritten(
                    so_far,
                    data.subrange(range.from as int, range.from + n),
                    range.offset as int,
                )
            },
            _ => so_far,
        }
    }
}

/// Where the writing of a part ends without an error, the partial file is as if
/// the whole part had been written at its place at once.
pub proof fn a_finished_sync_has_written_the_part(
    sync: SyncView,
    events: Seq<SyncEvent>,
    file: Seq<u8>,
    data: Seq<u8>,
)
    requires
        sync.phase == SyncPhase::Connecting,
        sync.written == 0,
        sync.error is None,
        sync.length == data.len(),
        sync.offset + sync.length <= u64::MAX,
        sync_history(sync, events),
        sync_through(sync, events).phase == SyncPhase::Finished,
        sync_through(sync, events).error is None,
    ensures
        file_through(sync, events, file, data) == overwritten(file, data, sync.offset as int),
{
    lemma_sync_so_far(sync, events, file, data);
    assert(data.take(data.len() as int) =~= data);
}

proof fn lemma_sync_so_far(
    sync: SyncView,
    events: Seq<SyncEvent>,
    file: Seq<u8>,
    data: Seq<u8>,
)
    requires
        sync.phase == SyncPhase::Connecting,
        sync.written == 0,
        sync.error is None,
        sync.length == data.len(),
        sync.offset + sync.length <= u64::MAX,
        sync_history(sync, events),
    ensures
        ({
            let end = sync_through(sync, events);
            &&& end.offset == sync.offset
            &&& end.length == sync.length
            &&& end.written <= end.length
            &&& end.phase == SyncPhase::Writing ==> end.written < end.length
            &&& end.phase == SyncPhase::Closing ==> end.written == end.length
            &&& end.phase == SyncPhase::Finished && end.error is None ==> end.written == end.length
            &&& end.phase != SyncPhase::Finished ==> end.error is None
            &&& file_through(sync, events, file, data) == overwritten(
                file,
                data.take(end.written as int),
                sync.offset as int,
            )
        }),
    decreases events.len(),
{
    if events.len() == 0 {
        assert(overwritten(file, data.take(0), sync.offset as int) =~= file);
    } else {
        let front = events.drop_last();
        lemma_sync_so_far(sync, front, file, data);
        let before = sync_through(sync, front);
        if let SyncEvent::Wrote(n) = events.last() {
            pieces_make_up_the_data(file, data, before.offset, before.written, n);
            if n == 0 {
                assert(written_after(before.length, before.written, n) == before.written);
            }
        }
    }
}

} // verus!
