//! One upload, from the first byte to the catalog record.
//!
//! The bytes arrive from the network, the chunks go to disk and the record
//! goes to the catalog: all of that is done by the caller. An
//! [`UploadSession`] decides what is done next. It accumulates the stream,
//! orders one chunk at a time to be written, remembers every chunk it
//! ordered, and, should the upload fail at any point, names all of them
//! for removal.

use crate::catalog::{new_record, record_file, valid_file_name, validate_file_name};
use crate::chunk::{
    chunk_refs, concat_chunks, recorded_size, split_chunks, tracks, ChunkBuffer, ChunkRef,
    FileItemDto, WriterModel, CHUNK_SIZE,
};
use crate::errors::{AppError, ErrorKind};
use crate::models::{clone_items, extension_or_empty, FileInfo, FileRecord, FileType, PathInfo};
use crate::shard::{chunk_location, chunk_path};
use crate::text::lowercase;
use vstd::prelude::*;

verus! {

/// What an upload waits for.
#[derive(Clone, Copy, Debug, PartialEq, Eq, Structural)]
pub enum UploadPhase {
    /// More of the stream, or its end.
    Receiving,
    /// A directory and an id for the next chunk.
    Placing,
    /// The outcome of writing the chunk that was ordered.
    Writing,
    /// The outcome of adding the record to the catalog.
    Recording,
    /// Nothing: the file is stored and recorded.
    Done,
    /// Nothing: the upload failed; the chunks to remove were named.
    Aborted,
}

/// What happened since the last command.
#[derive(Debug)]
pub enum UploadEvent {
    /// The stream delivered these bytes.
    Slice(Vec<u8>),
    /// The stream has ended.
    EndOfStream,
    /// The next chunk is to lie in this shard directory under this id.
    Place { dir: String, chunk_id: String },
    /// The chunk that was ordered is on disk.
    ChunkWritten,
    /// The chunk that was ordered could not be written, or no directory
    /// could be secured for the next one.
    WriteFailed(String),
    /// The record is in the catalog.
    Inserted,
    /// The catalog did not take the record.
    InsertFailed(String),
    /// The client went away.
    Cancelled,
}

/// Mathematical model of an [`UploadEvent`].
pub enum EventModel {
    Slice(Seq<u8>),
    EndOfStream,
    Place { dir: Seq<char>, chunk_id: Seq<char> },
    ChunkWritten,
    WriteFailed(Seq<char>),
    Inserted,
    InsertFailed(Seq<char>),
    Cancelled,
}

impl View for UploadEvent {
    type V = EventModel;

    open spec fn view(&self) -> EventModel {
        match self {
            UploadEvent::Slice(bytes) => EventModel::Slice(bytes@),
            UploadEvent::EndOfStream => EventModel::EndOfStream,
            UploadEvent::Place { dir, chunk_id } => EventModel::Place {
                dir: dir@,
                chunk_id: chunk_id@,
            },
            UploadEvent::ChunkWritten => EventModel::ChunkWritten,
            UploadEvent::WriteFailed(m) => EventModel::WriteFailed(m@),
            UploadEvent::Inserted => EventModel::Inserted,
            UploadEvent::InsertFailed(m) => EventModel::InsertFailed(m@),
            UploadEvent::Cancelled => EventModel::Cancelled,
        }
    }
}

/// What the caller has to do next for an upload.
#[derive(Debug)]
pub enum UploadCommand {
    /// Read on from the stream.
    NeedData,
    /// Secure the shard directory of the present moment and allocate a
    /// fresh chunk id.
    NeedPlace,
    /// Write exactly these bytes to a new file at this path.
    WriteChunk { path: String, bytes: Vec<u8> },
    /// Add this record to the catalog.
    InsertRecord { record: FileInfo },
    /// Tell the client that the file is stored under this id.
    Complete { file_id: i64 },
    /// Remove these chunk files, then report the error.
    Abort { error: AppError, remove: Vec<String> },
    /// Nothing: the upload had ended before.
    Nothing,
}

/// Mathematical model of an [`UploadCommand`].
pub enum CommandModel {
    NeedData,
    NeedPlace,
    WriteChunk { path: Seq<char>, bytes: Seq<u8> },
    InsertRecord { record: FileRecord },
    Complete { file_id: i64 },
    Abort { kind: ErrorKind, text: Seq<char>, remove: Seq<Seq<char>> },
    Nothing,
}

impl View for UploadCommand {
    type V = CommandModel;

    open spec fn view(&self) -> CommandModel {
        match self {
            UploadCommand::NeedData => CommandModel::NeedData,
            UploadCommand::NeedPlace => CommandModel::NeedPlace,
            UploadCommand::WriteChunk { path, bytes } => CommandModel::WriteChunk {
                path: path@,
                bytes: bytes@,
            },
            UploadCommand::InsertRecord { record } => CommandModel::InsertRecord {
                record: record@,
            },
            UploadCommand::Complete { file_id } => CommandModel::Complete { file_id: *file_id },
            UploadCommand::Abort { error, remove } => CommandModel::Abort {
                kind: error.kind(),
                text: error.text(),
                remove: crate::text::texts(remove@),
            },
            UploadCommand::Nothing => CommandModel::Nothing,
        }
    }
}

/// The paths of a chunk list.
pub open spec fn chunk_paths(items: Seq<ChunkRef>) -> Seq<Seq<char>> {
    Seq::new(items.len(), |i: int| items[i].path)
}

/// Mathematical model of an [`UploadSession`].
pub struct UploadState {
    pub bucket_id: i64,
    /// Id of the destination directory; 0 for the top of the bucket.
    pub path_ref: i64,
    /// Full path of the destination directory.
    pub dir_path: Seq<char>,
    pub name: Seq<char>,
    pub file_id: i64,
    pub now: Seq<char>,
    /// Bytes accepted and not yet ordered to disk.
    pub pending: Seq<u8>,
    /// Number of bytes accepted.
    pub accepted: nat,
    /// The chunks ordered to disk so far, in order.
    pub items: Seq<ChunkRef>,
    /// Whether the stream has ended.
    pub ended: bool,
    pub phase: UploadPhase,
    /// All bytes accepted so far.
    pub stream: Seq<u8>,
    /// The contents of the chunks ordered to disk so far.
    pub written: Seq<Seq<u8>>,
}

impl UploadState {
    /// The upload ends in failure: every chunk ordered so far is named for
    /// removal.
    pub open spec fn abort(self, kind: ErrorKind, text: Seq<char>) -> (UploadState, CommandModel) {
        (
            UploadState { phase: UploadPhase::Aborted, ..self },
            CommandModel::Abort { kind, text, remove: chunk_paths(self.items) },
        )
    }

    /// The record of the file once all of it is on disk.
    pub open spec fn record(self) -> FileRecord {
        new_record(
            self.bucket_id,
            self.path_ref,
            self.dir_path,
            self.name,
            FileType::of_extension(lowercase(extension_or_empty(self.name))),
            self.items,
            self.accepted as u64,
            self.file_id,
            self.now,
        )
    }

    /// What comes next when nothing is in flight: a chunk is due as soon
    /// as `CHUNK_SIZE` bytes wait, or, after the end of the stream, as long
    /// as any byte waits. After the end of the stream with nothing
    /// waiting the record is due. Otherwise more data is.
    pub open spec fn proceed(self) -> (UploadState, CommandModel) {
        if self.pending.len() >= CHUNK_SIZE || (self.ended && self.pending.len() > 0) {
            (UploadState { phase: UploadPhase::Placing, ..self }, CommandModel::NeedPlace)
        } else if self.ended {
            if valid_file_name(self.name) && self.accepted as u64 == recorded_size(self.items) {
                (
                    UploadState { phase: UploadPhase::Recording, ..self },
                    CommandModel::InsertRecord { record: self.record() },
                )
            } else {
                self.abort(ErrorKind::InvalidInput, "size does not match chunks"@)
            }
        } else {
            (UploadState { phase: UploadPhase::Receiving, ..self }, CommandModel::NeedData)
        }
    }

    /// The chunk that is ordered next: the first `CHUNK_SIZE` bytes that
    /// wait, or all of them if they are fewer.
    pub open spec fn next_chunk(self) -> Seq<u8> {
        if self.pending.len() >= CHUNK_SIZE {
            self.pending.take(CHUNK_SIZE as int)
        } else {
            self.pending
        }
    }

    /// One step of the upload.
    pub open spec fn step(self, event: EventModel) -> (UploadState, CommandModel) {
        match (self.phase, event) {
            (UploadPhase::Done, _) | (UploadPhase::Aborted, _) => (self, CommandModel::Nothing),
            (_, EventModel::Cancelled) => self.abort(
                ErrorKind::InternalError,
                "upload cancelled"@,
            ),
            (UploadPhase::Receiving, EventModel::Slice(bytes)) => {
                if self.accepted + bytes.len() > u64::MAX {
                    self.abort(ErrorKind::InvalidInput, "file too large"@)
                } else {
                    (UploadState {
                        pending: self.pending + bytes,
                        accepted: self.accepted + bytes.len(),
                        stream: self.stream + bytes,
                        ..self
                    }).proceed()
                }
            },
            (UploadPhase::Receiving, EventModel::EndOfStream) => (UploadState {
                ended: true,
                ..self
            }).proceed(),
            (UploadPhase::Placing, EventModel::Place { dir, chunk_id }) => {
                if self.pending.len() == 0 {
                    self.abort(ErrorKind::InternalError, "unexpected event"@)
                } else {
                    let chunk = self.next_chunk();
                    let path = chunk_location(dir, chunk_id);
                    (
                        UploadState {
                            pending: self.pending.skip(chunk.len() as int),
                            items: self.items.push(ChunkRef { path, size: chunk.len() }),
                            written: self.written.push(chunk),
                            phase: UploadPhase::Writing,
                            ..self
                        },
                        CommandModel::WriteChunk { path, bytes: chunk },
                    )
                }
            },
            (UploadPhase::Writing, EventModel::ChunkWritten) => self.proceed(),
            (UploadPhase::Writing, EventModel::WriteFailed(text)) => self.abort(
                ErrorKind::StorageIO,
                text,
            ),
            (UploadPhase::Placing, EventModel::WriteFailed(text)) => self.abort(
                ErrorKind::StorageIO,
                text,
            ),
            (UploadPhase::Recording, EventModel::Inserted) => (
                UploadState { phase: UploadPhase::Done, ..self },
                CommandModel::Complete { file_id: self.file_id },
            ),
            (UploadPhase::Recording, EventModel::InsertFailed(text)) => self.abort(
                ErrorKind::CatalogError,
                text,
            ),
            _ => self.abort(ErrorKind::InternalError, "unexpected event"@),
        }
    }

    /// What holds of an upload at every moment: the chunks ordered so far
    /// are the first chunks of the stream and the bytes that wait are the
    /// rest of it; the chunk list records the size of each chunk; and the
    /// upload waits for what its buffer calls for.
    pub open spec fn consistent(self) -> bool {
        &&& valid_file_name(self.name)
        &&& self.accepted == self.stream.len()
        &&& self.accepted <= u64::MAX
        &&& self.items.len() == self.written.len()
        &&& forall|i: int|
            0 <= i < self.items.len() ==> (#[trigger] self.items[i]).size == self.written[i].len()
        &&& recorded_size(self.items) + self.pending.len() == self.accepted
        &&& if self.ended && self.pending.len() == 0 {
            self.written == split_chunks(self.stream)
        } else {
            tracks(WriterModel { emitted: self.written, pending: self.pending }, self.stream)
        }
        &&& self.phase == UploadPhase::Receiving ==> !self.ended && self.pending.len() < CHUNK_SIZE
        &&& self.phase == UploadPhase::Placing ==> self.pending.len() >= CHUNK_SIZE || (self.ended
            && self.pending.len() > 0)
        &&& (self.phase == UploadPhase::Recording || self.phase == UploadPhase::Done)
            ==> self.ended && self.pending.len() == 0
    }
}

/// An upload at its start: nothing accepted, nothing written, waiting for
/// data.
pub open spec fn upload_start(
    bucket_id: i64,
    path_ref: i64,
    dir_path: Seq<char>,
    name: Seq<char>,
    file_id: i64,
    now: Seq<char>,
) -> UploadState {
    UploadState {
        bucket_id,
        path_ref,
        dir_path,
        name,
        file_id,
        now,
        pending: Seq::empty(),
        accepted: 0,
        items: Seq::empty(),
        ended: false,
        phase: UploadPhase::Receiving,
        stream: Seq::empty(),
        written: Seq::empty(),
    }
}

/// An upload with a valid file name starts consistent.
pub proof fn lemma_start_consistent(
    bucket_id: i64,
    path_ref: i64,
    dir_path: Seq<char>,
    name: Seq<char>,
    file_id: i64,
    now: Seq<char>,
)
    requires
        valid_file_name(name),
    ensures
        upload_start(bucket_id, path_ref, dir_path, name, file_id, now).consistent(),
{
    let s = upload_start(bucket_id, path_ref, dir_path, name, file_id, now);
    assert(s.pending =~= s.stream.skip(0));
}

/// Adding a chunk to a chunk list adds its size to the recorded size.
pub proof fn lemma_recorded_size_push(items: Seq<ChunkRef>, item: ChunkRef)
    ensures
        recorded_size(items.push(item)) == recorded_size(items) + item.size,
{
    assert(items.push(item).drop_last() =~= items);
}

proof fn lemma_proceed_consistent(s: UploadState)
    requires
        s.consistent() || (UploadState { phase: UploadPhase::Writing, ..s }).consistent(),
        s.phase != UploadPhase::Done,
        s.phase != UploadPhase::Aborted,
    ensures
        s.proceed().0.consistent(),
{
    let w = UploadState { phase: UploadPhase::Writing, ..s };
    assert(w.consistent());
}

/// Every step keeps an upload consistent, whatever happens.
pub proof fn lemma_step_consistent(s: UploadState, event: EventModel)
    requires
        s.consistent(),
    ensures
        s.step(event).0.consistent(),
{
    let c = CHUNK_SIZE as int;
    match (s.phase, event) {
        (UploadPhase::Done, _) | (UploadPhase::Aborted, _) => {},
        (_, EventModel::Cancelled) => {},
        (UploadPhase::Receiving, EventModel::Slice(bytes)) => {
            if s.accepted + bytes.len() <= u64::MAX {
                let grown = UploadState {
                    pending: s.pending + bytes,
                    accepted: s.accepted + bytes.len(),
                    stream: s.stream + bytes,
                    ..s
                };
                crate::chunk::lemma_extend_tracks(
                    WriterModel { emitted: s.written, pending: s.pending },
                    s.stream,
                    bytes,
                );
                assert((UploadState { phase: UploadPhase::Writing, ..grown }).consistent());
                lemma_proceed_consistent(grown);
            }
        },
        (UploadPhase::Receiving, EventModel::EndOfStream) => {
            let ended = UploadState { ended: true, ..s };
            if s.pending.len() == 0 {
                crate::chunk::lemma_finish_tracks(
                    WriterModel { emitted: s.written, pending: s.pending },
                    s.stream,
                );
            }
            assert((UploadState { phase: UploadPhase::Writing, ..ended }).consistent());
            lemma_proceed_consistent(ended);
        },
        (UploadPhase::Placing, EventModel::Place { dir, chunk_id }) => {
            if s.pending.len() > 0 {
                let chunk = s.next_chunk();
                let path = chunk_location(dir, chunk_id);
                let item = ChunkRef { path, size: chunk.len() };
                let next = s.step(event).0;
                let w = WriterModel { emitted: s.written, pending: s.pending };
                lemma_recorded_size_push(s.items, item);
                if s.pending.len() >= CHUNK_SIZE {
                    crate::chunk::lemma_take_tracks(w, s.stream);
                    if s.ended && next.pending.len() == 0 {
                        crate::chunk::lemma_finish_tracks(
                            WriterModel { emitted: next.written, pending: next.pending },
                            s.stream,
                        );
                    }
                } else {
                    crate::chunk::lemma_finish_tracks(w, s.stream);
                    assert(next.pending =~= Seq::<u8>::empty());
                }
                assert forall|i: int| 0 <= i < next.items.len() implies (
                #[trigger] next.items[i]).size == next.written[i].len() by {
                    if i < s.items.len() {
                        assert(next.items[i] == s.items[i]);
                    }
                }
            }
        },
        (UploadPhase::Writing, EventModel::ChunkWritten) => {
            lemma_proceed_consistent(s);
        },
        _ => {},
    }
}

/// Whenever an upload is aborted, on a failed write, a failed catalog
/// insert, a cancellation or anything else, the chunks named for removal
/// are all the chunks ordered to disk since the upload began: none is left
/// behind. A failed catalog insert is reported as a catalog error, a failed
/// write as a storage error.
pub proof fn lemma_abort_removes_all(s: UploadState, event: EventModel)
    requires
        s.step(event).1 is Abort,
    ensures
        s.step(event).1->remove == chunk_paths(s.items),
        s.step(event).0.phase == UploadPhase::Aborted,
        s.phase == UploadPhase::Recording && event is InsertFailed ==> s.step(event).1->kind
            == ErrorKind::CatalogError,
        (s.phase == UploadPhase::Writing || s.phase == UploadPhase::Placing) && event
            is WriteFailed ==> s.step(event).1->kind == ErrorKind::StorageIO,
{
    match (s.phase, event) {
        (UploadPhase::Receiving, EventModel::Slice(bytes)) => {
            if s.accepted + bytes.len() <= u64::MAX {
                let grown = UploadState {
                    pending: s.pending + bytes,
                    accepted: s.accepted + bytes.len(),
                    stream: s.stream + bytes,
                    ..s
                };
                assert(grown.items == s.items);
            }
        },
        _ => {},
    }
}

/// A failure of the catalog or of the disk always aborts the upload.
pub proof fn lemma_failure_aborts(s: UploadState, event: EventModel)
    requires
        s.phase != UploadPhase::Done,
        s.phase != UploadPhase::Aborted,
        event is InsertFailed || event is WriteFailed || event is Cancelled,
    ensures
        s.step(event).1 is Abort,
{
}

/// The record that a consistent upload hands to the catalog is
/// well-formed and complete: its size is the length of the stream, its
/// chunk list holds the chunks of the stream, in order and with their
/// sizes, and the chunks laid end to end are the stream.
pub proof fn lemma_record_complete(s: UploadState, event: EventModel)
    requires
        s.consistent(),
        s.step(event).1 is InsertRecord,
    ensures
        ({
            let record = s.step(event).1->record;
            let after = s.step(event).0;
            &&& record.well_formed()
            &&& record.size == after.stream.len()
            &&& after.written == split_chunks(after.stream)
            &&& concat_chunks(after.written) == after.stream
            &&& record.items.len() == after.written.len()
            &&& forall|i: int|
                0 <= i < record.items.len() ==> (#[trigger] record.items[i]).size
                    == after.written[i].len()
        }),
{
    lemma_step_consistent(s, event);
    let after = s.step(event).0;
    crate::chunk::lemma_chunk_round_trip(after.stream);
}

/// What is uploaded can be downloaded: once a consistent upload hands its
/// record to the catalog, reading the chunks back as they were written
/// and reassembling them under that record yields the uploaded stream,
/// byte for byte, and the record's size is the stream's length.
pub proof fn lemma_upload_round_trip(s: UploadState, event: EventModel)
    requires
        s.consistent(),
        s.step(event).1 is InsertRecord,
    ensures
        ({
            let record = s.step(event).1->record;
            let after = s.step(event).0;
            let reads = Seq::new(
                after.written.len(),
                |i: int| crate::retrieval::ReadModel::Data(after.written[i]),
            );
            &&& crate::retrieval::reconstructed(record.size, record.items, reads) == Ok::<
                Seq<u8>,
                ErrorKind,
            >(after.stream)
            &&& record.size == after.stream.len()
            &&& recorded_size(record.items) == after.stream.len()
        }),
{
    lemma_record_complete(s, event);
    let record = s.step(event).1->record;
    let after = s.step(event).0;
    crate::retrieval::lemma_assembled_written(record.items, after.written);
}

/// One upload in progress.
pub struct UploadSession {
    bucket_id: i64,
    path_ref: i64,
    dir_path: String,
    name: String,
    file_id: i64,
    now: String,
    buffer: ChunkBuffer,
    items: Vec<FileItemDto>,
    ended: bool,
    phase: UploadPhase,
    stream: Ghost<Seq<u8>>,
    written: Ghost<Seq<Seq<u8>>>,
}

impl View for UploadSession {
    type V = UploadState;

    closed spec fn view(&self) -> UploadState {
        UploadState {
            bucket_id: self.bucket_id,
            path_ref: self.path_ref,
            dir_path: self.dir_path@,
            name: self.name@,
            file_id: self.file_id,
            now: self.now@,
            pending: self.buffer.pending(),
            accepted: self.buffer.accepted(),
            items: chunk_refs(self.items@),
            ended: self.ended,
            phase: self.phase,
            stream: self.stream@,
            written: self.written@,
        }
    }
}

/// Where an upload goes: the id and the full path of the destination
/// directory, both empty for the top of the bucket. A directory of
/// another bucket is refused.
pub fn check_destination(destination: Option<&PathInfo>, bucket_id: i64) -> (r: Result<
    (i64, String),
    AppError,
>)
    ensures
        match destination {
            None => r is Ok && r->Ok_0.0 == 0 && r->Ok_0.1@ == Seq::<char>::empty(),
            Some(dir) => if dir.bucket_id == bucket_id {
                r is Ok && r->Ok_0.0 == dir.id && r->Ok_0.1@ == dir.full_path@
            } else {
                r is Err && r->Err_0.kind() == ErrorKind::InvalidInput
            },
        },
{
    match destination {
        None => Ok((0, String::new())),
        Some(dir) => {
            if dir.bucket_id == bucket_id {
                Ok((dir.id, dir.full_path.clone()))
            } else {
                Err(AppError::InvalidInput(String::from_str("InvalidInput.params")))
            }
        },
    }
}

/// Copies the paths out of a chunk list.
pub fn paths_of(items: &Vec<FileItemDto>) -> (paths: Vec<String>)
    ensures
        crate::text::texts(paths@) == chunk_paths(chunk_refs(items@)),
{
    let mut paths: Vec<String> = Vec::new();
    let mut i: usize = 0;
    while i < items.len()
        invariant
            i <= items.len(),
            paths@.len() == i,
            forall|k: int| 0 <= k < i ==> (#[trigger] paths@[k])@ == items@[k].path@,
        decreases items.len() - i,
    {
        paths.push(items[i].path.clone());
        i += 1;
    }
    proof {
        assert(crate::text::texts(paths@) =~= chunk_paths(chunk_refs(items@)));
    }
    paths
}

impl UploadSession {
    /// Begins an upload of a file named `name` into a directory of a
    /// bucket. `file_id` is the id the file will be recorded under, `now`
    /// the creation time to record. A name that is empty or longer than 64
    /// bytes is refused.
    pub fn begin(
        bucket_id: i64,
        path_ref: i64,
        dir_path: &str,
        name: &str,
        file_id: i64,
        now: &str,
    ) -> (r: Result<UploadSession, AppError>)
        ensures
            r is Ok <==> valid_file_name(name@),
            r is Ok ==> r->Ok_0@ == upload_start(
                bucket_id,
                path_ref,
                dir_path@,
                name@,
                file_id,
                now@,
            ),
            r is Ok ==> r->Ok_0@.consistent(),
            r is Err ==> r->Err_0.kind() == ErrorKind::InvalidInput,
    {
        proof {
            if valid_file_name(name@) {
                lemma_start_consistent(bucket_id, path_ref, dir_path@, name@, file_id, now@);
            }
        }
        match validate_file_name(name) {
            Err(e) => Err(e),
            Ok(_) => {
                let session = UploadSession {
                    bucket_id,
                    path_ref,
                    dir_path: String::from_str(dir_path),
                    name: String::from_str(name),
                    file_id,
                    now: String::from_str(now),
                    buffer: ChunkBuffer::new(),
                    items: Vec::new(),
                    ended: false,
                    phase: UploadPhase::Receiving,
                    stream: Ghost(Seq::empty()),
                    written: Ghost(Seq::empty()),
                };
                proof {
                    assert(chunk_refs(session.items@) =~= Seq::<ChunkRef>::empty());
                }
                Ok(session)
            },
        }
    }

    /// What the upload waits for.
    pub fn phase(&self) -> (p: UploadPhase)
        ensures
            p == self@.phase,
    {
        self.phase
    }

    /// Number of bytes accepted so far.
    pub fn size(&self) -> (n: u64)
        ensures
            n == self@.accepted,
    {
        self.buffer.size()
    }

    fn abort(self, error: AppError) -> (out: (UploadSession, UploadCommand))
        ensures
            (out.0@, out.1@) == self@.abort(error.kind(), error.text()),
    {
        let remove = paths_of(&self.items);
        let mut session = self;
        session.phase = UploadPhase::Aborted;
        (session, UploadCommand::Abort { error, remove })
    }

    fn proceed(self) -> (out: (UploadSession, UploadCommand))
        ensures
            (out.0@, out.1@) == self@.proceed(),
    {
        let mut session = self;
        let waiting = session.buffer.pending_len();
        if waiting >= CHUNK_SIZE || (session.ended && waiting > 0) {
            session.phase = UploadPhase::Placing;
            (session, UploadCommand::NeedPlace)
        } else if session.ended {
            let file_type = FileType::get_file_type(session.name.as_str());
            let items = clone_items(&session.items);
            match record_file(
                session.bucket_id,
                session.path_ref,
                session.dir_path.as_str(),
                session.name.as_str(),
                file_type,
                items,
                session.buffer.size(),
                session.file_id,
                session.now.as_str(),
            ) {
                Ok(record) => {
                    session.phase = UploadPhase::Recording;
                    (session, UploadCommand::InsertRecord { record })
                },
                Err(_) => session.abort(
                    AppError::InvalidInput(String::from_str("size does not match chunks")),
                ),
            }
        } else {
            session.phase = UploadPhase::Receiving;
            (session, UploadCommand::NeedData)
        }
    }

    fn unexpected(self) -> (out: (UploadSession, UploadCommand))
        ensures
            (out.0@, out.1@) == self@.abort(ErrorKind::InternalError, "unexpected event"@),
    {
        self.abort(AppError::InternalError(String::from_str("unexpected event")))
    }

    fn place(self, dir: &str, chunk_id: &str) -> (out: (UploadSession, UploadCommand))
        requires
            self@.phase == UploadPhase::Placing,
        ensures
            (out.0@, out.1@) == self@.step(EventModel::Place { dir: dir@, chunk_id: chunk_id@ }),
    {
        let mut session = self;
        let waiting = session.buffer.pending_len();
        if waiting == 0 {
            return session.unexpected();
        }
        let taken = if waiting >= CHUNK_SIZE {
            session.buffer.take_chunk()
        } else {
            session.buffer.take_rest()
        };
        match taken {
            Some(bytes) => {
                let path = chunk_path(dir, chunk_id);
                let ghost before = session.items@;
                session.items.push(FileItemDto { path: path.clone(), size: bytes.len() as u32 });
                session.written = Ghost(session.written@.push(bytes@));
                session.phase = UploadPhase::Writing;
                proof {
                    assert(chunk_refs(session.items@) =~= chunk_refs(before).push(
                        ChunkRef { path: path@, size: bytes@.len() },
                    ));
                    assert(self@.pending.skip(self@.pending.len() as int) =~= Seq::<u8>::empty());
                    assert(self@.pending.take(self@.pending.len() as int) =~= self@.pending);
                }
                (session, UploadCommand::WriteChunk { path, bytes })
            },
            None => session.unexpected(),
        }
    }

    /// Takes what happened since the last command and says what to do
    /// next.
    pub fn step(self, event: UploadEvent) -> (out: (UploadSession, UploadCommand))
        ensures
            (out.0@, out.1@) == self@.step(event@),
            self@.consistent() ==> out.0@.consistent(),
    {
        proof {
            if self@.consistent() {
                lemma_step_consistent(self@, event@);
            }
        }
        match self.phase {
            UploadPhase::Done | UploadPhase::Aborted => {
                return (self, UploadCommand::Nothing);
            },
            _ => {},
        }
        match event {
            UploadEvent::Cancelled => self.abort(
                AppError::InternalError(String::from_str("upload cancelled")),
            ),
            UploadEvent::Slice(bytes) => {
                match self.phase {
                    UploadPhase::Receiving => {
                        let mut session = self;
                        let room: u64 = u64::MAX - session.buffer.size();
                        if bytes.len() as u64 > room {
                            session.abort(AppError::InvalidInput(String::from_str("file too large")))
                        } else {
                            session.buffer.push(bytes.as_slice());
                            session.stream = Ghost(session.stream@ + bytes@);
                            session.proceed()
                        }
                    },
                    _ => self.unexpected(),
                }
            },
            UploadEvent::EndOfStream => {
                match self.phase {
                    UploadPhase::Receiving => {
                        let mut session = self;
                        session.ended = true;
                        session.proceed()
                    },
                    _ => self.unexpected(),
                }
            },
            UploadEvent::Place { dir, chunk_id } => {
                match self.phase {
                    UploadPhase::Placing => self.place(dir.as_str(), chunk_id.as_str()),
                    _ => self.unexpected(),
                }
            },
            UploadEvent::ChunkWritten => {
                match self.phase {
                    UploadPhase::Writing => self.proceed(),
                    _ => self.unexpected(),
                }
            },
            UploadEvent::WriteFailed(text) => {
                match self.phase {
                    UploadPhase::Writing | UploadPhase::Placing => self.abort(
                        AppError::StorageIO(text),
                    ),
                    _ => self.unexpected(),
                }
            },
            UploadEvent::Inserted => {
                match self.phase {
                    UploadPhase::Recording => {
                        let file_id = self.file_id;
                        let mut session = self;
                        session.phase = UploadPhase::Done;
                        (session, UploadCommand::Complete { file_id })
                    },
                    _ => self.unexpected(),
                }
            },
            UploadEvent::InsertFailed(text) => {
                match self.phase {
                    UploadPhase::Recording => self.abort(AppError::CatalogError(text)),
                    _ => self.unexpected(),
                }
            },
        }
    }
}

} // verus!
