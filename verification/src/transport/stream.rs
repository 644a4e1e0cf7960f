//! Sending and receiving a file over a stream.
//!
//! A file goes over a stream of its own: a manifest frame, then a frame for every chunk. The
//! sending side is a [`FileSender`], the receiving side a [`FileReceiver`]; neither touches the
//! network or the disk, they say what is to be sent, read or written next.

use crate::file_relay::chunker::{
    chunk_len, chunk_start, chunks_joined, countable, law_all_chunks_but_the_last_are_full,
    law_chunks_tile_the_file, ChunkSpan, FileChunker,
};
use crate::file_relay::codec::{
    chunk_read, chunk_wire, law_chunk_header_survives_the_wire, varint, ManifestFields,
};
use crate::file_relay::manifest::{
    chunk_count, ChunkPayload, CodecError, FileManifest, CHUNK_SIZE,
};
use crate::file_relay::writer::{complete, placed, reservation, reserve, ChunkWrite, DiskWriter};
use crate::transport::buffer::{copied, to_vec, with_capacity};
use crate::transport::frame::{
    law_decode_inverts_encode, law_the_mark_and_the_version_make_a_header, parse_header,
    FrameError, FrameHeader, HEADER_LEN, TYPE_FILE_CHUNK_PAYLOAD, TYPE_FILE_MANIFEST,
};
use crate::wire::{be32, from_be32, join32, law_bytes_count_by_their_place_32, split32};
use vstd::prelude::*;
use vstd::string::StringExecFns;

verus! {

/// How many chunks go by between two progress reports.
pub const REPORT_INTERVAL: u32 = 50;

/// The status of a transfer that goes on.
pub const STREAMING: &'static str = "STREAMING";

/// The status of a transfer that is through.
pub const COMPLETED: &'static str = "COMPLETED";

/// The length of the size that stands behind a frame header.
pub const SIZE_LEN: usize = 4;

/// The four bytes that announce a body of `len` bytes.
pub open spec fn size_field(len: nat) -> Seq<u8> {
    be32((len % 0x1_0000_0000) as u32)
}

/// The header of a frame of this type and number.
pub open spec fn plain_header(frame_type: u8, seq_num: u32) -> FrameHeader {
    FrameHeader { frame_type, flags: 0, stream_id: 0, seq_num }
}

/// A frame: its header, the size of its body, and the body.
pub open spec fn frame_of(frame_type: u8, seq_num: u32, body: Seq<u8>) -> Seq<u8> {
    plain_header(frame_type, seq_num).wire() + size_field(body.len()) + body
}

/// The frame that announces a file.
pub open spec fn manifest_frame(announcement: ManifestFields) -> Seq<u8> {
    frame_of(TYPE_FILE_MANIFEST, 0, announcement.wire())
}

/// The frame that carries a chunk. The size in it is that of the chunk header alone; the bytes of
/// the chunk stand behind it.
pub open spec fn chunk_frame(index: u32, data: Seq<u8>) -> Seq<u8> {
    frame_of(TYPE_FILE_CHUNK_PAYLOAD, index, chunk_wire(index, data.len() as u32)) + data
}

/// How many bytes the first `n` of `total` chunks of a file of `size` bytes have.
pub open spec fn sent_with(size: int, total: int, n: int) -> int {
    if n == 0 {
        0
    } else {
        chunk_start(n - 1) + chunk_len(size, total, n - 1)
    }
}

/// Whether chunk `index` is followed by a progress report: every fiftieth is, and the last.
pub open spec fn report_due(total: u32, index: u32) -> bool {
    index % REPORT_INTERVAL == 0 || index == total - 1
}

/// How far a transfer has come.
#[derive(Debug)]
pub struct Progress {
    /// Names the transfer.
    pub transfer_id: String,
    /// How many bytes of the file have been sent.
    pub bytes_transferred: u64,
    /// The size of the file.
    pub total_bytes: u64,
    /// [`STREAMING`], or [`COMPLETED`] behind the last chunk.
    pub status: String,
}

/// Writes a frame.
fn write_frame(frame_type: u8, seq_num: u32, body: &[u8]) -> (frame: Vec<u8>)
    ensures
        frame@ == frame_of(frame_type, seq_num, body@),
{
    let header = FrameHeader { frame_type, flags: 0, stream_id: 0, seq_num };
    let mut header_buf = with_capacity(HEADER_LEN);
    header.encode(&mut header_buf);
    let mut frame: Vec<u8> = to_vec(&header_buf);
    let size: [u8; 4] = split32((body.len() as u64 % 0x1_0000_0000u64) as u32);
    frame.extend_from_slice(&size);
    frame.extend_from_slice(body);
    assert(frame@ =~= frame_of(frame_type, seq_num, body@));
    frame
}

/// Sends a file, chunk by chunk.
pub struct FileSender {
    chunker: FileChunker,
    next: u32,
    bytes_sent: u64,
    stopped: bool,
}

impl FileSender {
    /// The announcement of the file.
    pub closed spec fn announcement(self) -> ManifestFields {
        self.chunker.announcement()
    }

    /// The chunk to send next.
    pub closed spec fn next(self) -> u32 {
        self.next
    }

    /// How many bytes of the file have been sent.
    pub closed spec fn sent(self) -> u64 {
        self.bytes_sent
    }

    /// Whether nobody follows the transfer any more, so that it ends early.
    pub closed spec fn stopped(self) -> bool {
        self.stopped
    }

    /// No chunk is left out, and the bytes that were sent are counted.
    pub closed spec fn wf(self) -> bool {
        &&& self.next <= self.announcement().total_chunks
        &&& self.bytes_sent == sent_with(
            self.announcement().file_size as int,
            self.announcement().total_chunks as int,
            self.next as int,
        )
    }

    /// Starts with the first chunk.
    pub fn new(chunker: FileChunker) -> (sender: Self)
        ensures
            sender.wf(),
            sender.announcement() == chunker.announcement(),
            sender.next() == 0,
            sender.sent() == 0,
            !sender.stopped(),
    {
        FileSender { chunker, next: 0, bytes_sent: 0, stopped: false }
    }

    /// The frame to send before any chunk.
    pub fn manifest_frame(&self) -> (frame: Result<Vec<u8>, CodecError>)
        ensures
            frame is Ok,
            frame->Ok_0@ == manifest_frame(self.announcement()),
    {
        match self.chunker.manifest().to_bytes() {
            Ok(body) => Ok(write_frame(TYPE_FILE_MANIFEST, 0, body.as_slice())),
            Err(error) => Err(error),
        }
    }

    /// Which bytes of the file to read next, or `None` behind the last chunk, and once the transfer
    /// was stopped. The stream is finished then in either case.
    pub fn next_chunk(&self) -> (span: Option<ChunkSpan>)
        ensures
            span is Some <==> !self.stopped() && self.next() < self.announcement().total_chunks,
            span matches Some(span) ==> {
                &&& span.offset == chunk_start(self.next() as int)
                &&& span.header.chunk_index == self.next()
                &&& span.header.payload_length == chunk_len(
                    self.announcement().file_size as int,
                    self.announcement().total_chunks as int,
                    self.next() as int,
                )
            },
    {
        if self.stopped {
            return None;
        }
        match self.chunker.read_chunk(self.next) {
            Ok(span) => Some(span),
            Err(_) => None,
        }
    }

    /// The frame that carries the chunk whose bytes were read, and the progress to report once it
    /// is sent, if a report is due.
    pub fn chunk_frame(&mut self, data: &[u8]) -> (sent: Result<
        (Vec<u8>, Option<Progress>),
        CodecError,
    >)
        requires
            old(self).wf(),
            old(self).next() < old(self).announcement().total_chunks,
            data@.len() == chunk_len(
                old(self).announcement().file_size as int,
                old(self).announcement().total_chunks as int,
                old(self).next() as int,
            ),
        ensures
            final(self).wf(),
            final(self).announcement() == old(self).announcement(),
            final(self).next() == old(self).next() + 1,
            final(self).sent() == old(self).sent() + data@.len(),
            final(self).stopped() == old(self).stopped(),
            sent is Ok,
            (sent->Ok_0).0@ == chunk_frame(old(self).next(), data@),
            (sent->Ok_0).1 is Some <==> report_due(
                old(self).announcement().total_chunks,
                old(self).next(),
            ),
            (sent->Ok_0).1 matches Some(progress) ==> {
                &&& progress.bytes_transferred == final(self).sent()
                &&& progress.transfer_id@ == old(self).announcement().transfer_id
                &&& progress.bytes_transferred == sent_with(
                    old(self).announcement().file_size as int,
                    old(self).announcement().total_chunks as int,
                    old(self).next() + 1,
                )
                &&& progress.total_bytes == old(self).announcement().file_size
                &&& progress.status@ == if old(self).next() + 1 == old(
                    self,
                ).announcement().total_chunks {
                    COMPLETED@
                } else {
                    STREAMING@
                }
            },
    {
        let index: u32 = self.next;
        let total_chunks: u32 = self.chunker.manifest().total_chunks;
        let file_size: u64 = self.chunker.manifest().file_size;
        let header = ChunkPayload { chunk_index: index, payload_length: data.len() as u32 };
        let body = match header.to_bytes() {
            Ok(body) => body,
            Err(error) => {
                return Err(error);
            },
        };
        let mut frame = write_frame(TYPE_FILE_CHUNK_PAYLOAD, index, body.as_slice());
        frame.extend_from_slice(data);
        assert(frame@ =~= chunk_frame(index, data@));
        assert(index > 0 ==> chunk_start(index - 1) + CHUNK_SIZE == chunk_start(index as int));
        assert(chunk_start(index as int) + CHUNK_SIZE <= u64::MAX);
        self.bytes_sent = self.bytes_sent + data.len() as u64;
        self.next = index + 1;
        let last: bool = index == total_chunks - 1;
        let report = if index % REPORT_INTERVAL == 0 || last {
            Some(
                Progress {
                    transfer_id: self.chunker.manifest().transfer_id.clone(),
                    bytes_transferred: self.bytes_sent,
                    total_bytes: file_size,
                    status: if last {
                        String::from_str(COMPLETED)
                    } else {
                        String::from_str(STREAMING)
                    },
                },
            )
        } else {
            None
        };
        Ok((frame, report))
    }

    /// Takes note of whether a report found somebody to read it. Without a reader, the transfer
    /// stops.
    pub fn reported(&mut self, delivered: bool)
        requires
            old(self).wf(),
        ensures
            final(self).wf(),
            final(self).announcement() == old(self).announcement(),
            final(self).next() == old(self).next(),
            final(self).sent() == old(self).sent(),
            final(self).stopped() == (old(self).stopped() || !delivered),
    {
        if !delivered {
            self.stopped = true;
        }
    }
}

/// The report behind the last chunk accounts for the whole file. Files of more chunks than can be
/// counted are left out.
pub proof fn law_the_last_report_accounts_for_the_file(size: nat)
    requires
        countable(size),
    ensures
        sent_with(size as int, chunk_count(size) as int, chunk_count(size) as int) == size,
        size > 0 ==> report_due(chunk_count(size) as u32, (chunk_count(size) - 1) as u32),
{
}

/// What happened after a [`ReceiveAction`].
pub enum ReceiveEvent {
    /// The bytes that were asked for came in.
    Arrived(Vec<u8>),
    /// The stream ended before they did.
    Ended,
    /// Whether the file was created and given its size.
    Opened(bool),
    /// Whether the bytes were written to the file.
    Written(bool),
}

/// What a receiver wants done.
pub enum ReceiveAction {
    /// Read this many bytes from the stream.
    Read(usize),
    /// Create a file of this name; if a position comes with it, write a zero there.
    Open(String, Option<u64>),
    /// Write these bytes to the file, from this position on.
    Write(u64, Vec<u8>),
    /// Nothing more.
    Stop,
}

/// What happened, with byte strings as sequences.
pub enum Happening {
    /// The bytes that were asked for came in.
    Arrived(Seq<u8>),
    /// The stream ended before they did.
    Ended,
    /// Whether the file was created and given its size.
    Opened(bool),
    /// Whether the bytes were written to the file.
    Written(bool),
}

/// What is wanted, with byte strings as sequences.
pub enum Want {
    /// Read this many bytes from the stream.
    Read(nat),
    /// Create a file of this name; if a position comes with it, write a zero there.
    Open(Seq<char>, Option<u64>),
    /// Write these bytes to the file, from this position on.
    Write(u64, Seq<u8>),
    /// Nothing more.
    Stop,
}

impl View for ReceiveEvent {
    type V = Happening;

    open spec fn view(&self) -> Happening {
        match self {
            ReceiveEvent::Arrived(bytes) => Happening::Arrived(bytes@),
            ReceiveEvent::Ended => Happening::Ended,
            ReceiveEvent::Opened(done) => Happening::Opened(*done),
            ReceiveEvent::Written(done) => Happening::Written(*done),
        }
    }
}

impl View for ReceiveAction {
    type V = Want;

    open spec fn view(&self) -> Want {
        match self {
            ReceiveAction::Read(len) => Want::Read(*len as nat),
            ReceiveAction::Open(name, position) => Want::Open(name@, *position),
            ReceiveAction::Write(offset, data) => Want::Write(*offset, data@),
            ReceiveAction::Stop => Want::Stop,
        }
    }
}

/// How far a receiver is with the current frame.
pub enum Stage {
    /// It waits for the header of a frame.
    Header,
    /// It waits for the size of the body of a frame of this type.
    Size(u8),
    /// It waits for the body of a frame of this type.
    Body(u8),
    /// It waits for the bytes of the chunk of this index.
    Chunk(u32),
    /// It waits for the file so announced to be created.
    Opening(ManifestFields),
    /// It waits for the chunk of this index to be written.
    Writing(u32),
    /// It is done.
    Stopped,
}

/// A file that is being received: its announcement, and which chunks are there.
#[verifier::ext_equal]
pub struct Incoming {
    /// The announcement of the file.
    pub announcement: ManifestFields,
    /// Which chunks have been received.
    pub received: Seq<bool>,
}

/// The state of a receiver.
pub struct Reception {
    /// How far it is with the current frame.
    pub stage: Stage,
    /// The file it is receiving, if one was announced.
    pub file: Option<Incoming>,
}

impl Reception {
    /// The state at the start of a stream.
    pub open spec fn start() -> Self {
        Reception { stage: Stage::Header, file: None }
    }

    /// Goes on with the next frame.
    pub open spec fn next_frame(self) -> (Self, Want) {
        (Reception { stage: Stage::Header, ..self }, Want::Read(HEADER_LEN as nat))
    }

    /// Gives up on the stream.
    pub open spec fn stop(self) -> (Self, Want) {
        (Reception { stage: Stage::Stopped, ..self }, Want::Stop)
    }

    /// Takes the body of a frame: a manifest announces a file, a chunk header the bytes of a chunk
    /// of the file that was announced. What cannot be read, a chunk without a file, and frames of
    /// any other type are passed over.
    pub open spec fn body(self, frame_type: u8, body: Seq<u8>) -> (Self, Want) {
        if frame_type == TYPE_FILE_MANIFEST {
            match ManifestFields::read(body) {
                Some(announcement) => (
                    Reception { stage: Stage::Opening(announcement), ..self },
                    Want::Open(announcement.file_name, reservation(announcement.file_size)),
                ),
                None => self.next_frame(),
            }
        } else if frame_type == TYPE_FILE_CHUNK_PAYLOAD && self.file is Some {
            match chunk_read(body) {
                Some((index, len)) => (
                    Reception { stage: Stage::Chunk(index), ..self },
                    Want::Read(len as nat),
                ),
                None => self.next_frame(),
            }
        } else {
            self.next_frame()
        }
    }

    /// Takes the bytes of a chunk: those of a chunk that is not there yet are to be written.
    pub open spec fn chunk(self, index: u32, data: Seq<u8>) -> (Self, Want) {
        match placed(self.file->0.received, index) {
            Ok(ChunkWrite::At(offset)) => (
                Reception { stage: Stage::Writing(index), ..self },
                Want::Write(offset, data),
            ),
            _ => self.next_frame(),
        }
    }

    /// Starts on a file that was created. A file of more chunks than can be kept track of ends the
    /// stream.
    pub open spec fn opened(self, announcement: ManifestFields) -> (Self, Want) {
        if announcement.total_chunks <= usize::MAX / 8 {
            (Reception {
                stage: self.stage,
                file: Some(
                    Incoming {
                        announcement,
                        received: Seq::new(announcement.total_chunks as nat, |i: int| false),
                    },
                ),
            }).next_frame()
        } else {
            self.stop()
        }
    }

    /// Marks a chunk as received.
    pub open spec fn marked(self, index: u32) -> Self {
        Reception {
            stage: self.stage,
            file: Some(
                Incoming {
                    announcement: self.file->0.announcement,
                    received: self.file->0.received.update(index as int, true),
                },
            ),
        }
    }

    /// What comes of an event. A file that could not be created, and a chunk that could not be
    /// written, leave things as they were; so does a chunk whose bytes did not all come in. A frame
    /// that does not come in whole, or starts with no frame header, ends the stream.
    pub open spec fn on(self, event: Happening) -> (Self, Want) {
        match (self.stage, event) {
            (Stage::Header, Happening::Arrived(bytes)) => match parse_header(bytes) {
                Ok(header) => (
                    Reception { stage: Stage::Size(header.frame_type), ..self },
                    Want::Read(SIZE_LEN as nat),
                ),
                Err(_) => self.stop(),
            },
            (Stage::Size(frame_type), Happening::Arrived(bytes)) => if bytes.len() == SIZE_LEN {
                (
                    Reception { stage: Stage::Body(frame_type), ..self },
                    Want::Read(from_be32(bytes) as nat),
                )
            } else {
                self.stop()
            },
            (Stage::Body(frame_type), Happening::Arrived(bytes)) => self.body(frame_type, bytes),
            (Stage::Chunk(index), Happening::Arrived(bytes)) => self.chunk(index, bytes),
            (Stage::Chunk(_), Happening::Ended) => self.next_frame(),
            (Stage::Opening(announcement), Happening::Opened(done)) => if done {
                self.opened(announcement)
            } else {
                self.next_frame()
            },
            (Stage::Writing(index), Happening::Written(done)) => if done {
                self.marked(index).next_frame()
            } else {
                self.next_frame()
            },
            _ => self.stop(),
        }
    }
}

/// How far a receiver is with the current frame.
enum Phase {
    Header,
    Size(u8),
    Body(u8),
    Chunk(u32),
    Opening(FileManifest),
    Writing(u32),
    Stopped,
}

impl Phase {
    /// The stage that the phase stands for.
    spec fn stage(self) -> Stage {
        match self {
            Phase::Header => Stage::Header,
            Phase::Size(frame_type) => Stage::Size(frame_type),
            Phase::Body(frame_type) => Stage::Body(frame_type),
            Phase::Chunk(index) => Stage::Chunk(index),
            Phase::Opening(manifest) => Stage::Opening(manifest@),
            Phase::Writing(index) => Stage::Writing(index),
            Phase::Stopped => Stage::Stopped,
        }
    }
}

/// Receives a file, frame by frame.
pub struct FileReceiver {
    phase: Phase,
    writer: Option<DiskWriter>,
}

impl FileReceiver {
    /// The state of the receiver.
    pub closed spec fn reception(self) -> Reception {
        Reception {
            stage: self.phase.stage(),
            file: match self.writer {
                Some(writer) => Some(
                    Incoming { announcement: writer.announcement(), received: writer.received() },
                ),
                None => None,
            },
        }
    }

    /// A chunk is only waited for or written when a file was announced that has it.
    pub closed spec fn wf(self) -> bool {
        &&& self.writer matches Some(writer) ==> writer.wf()
        &&& self.phase is Chunk ==> self.writer is Some
        &&& self.phase matches Phase::Writing(index) ==> (self.writer matches Some(writer) && index
            < writer.announcement().total_chunks)
    }

    /// Starts at the beginning of a stream, with what is wanted first.
    pub fn new() -> (started: (Self, ReceiveAction))
        ensures
            started.0.wf(),
            (started.0.reception(), started.1@) == Reception::start().next_frame(),
    {
        (FileReceiver { phase: Phase::Header, writer: None }, ReceiveAction::Read(HEADER_LEN))
    }

    /// Takes what came of the last action, and says what is wanted next.
    pub fn step(&mut self, event: ReceiveEvent) -> (action: ReceiveAction)
        requires
            old(self).wf(),
        ensures
            final(self).wf(),
            (final(self).reception(), action@) == old(self).reception().on(event@),
    {
        let mut phase = Phase::Stopped;
        std::mem::swap(&mut phase, &mut self.phase);
        match (phase, event) {
            (Phase::Header, ReceiveEvent::Arrived(bytes)) => self.take_header(bytes),
            (Phase::Size(frame_type), ReceiveEvent::Arrived(bytes)) => {
                if bytes.len() != SIZE_LEN {
                    return ReceiveAction::Stop;
                }
                let size: u32 = join32(bytes[0], bytes[1], bytes[2], bytes[3]);
                assert(bytes@ =~= seq![bytes[0], bytes[1], bytes[2], bytes[3]]);
                self.phase = Phase::Body(frame_type);
                ReceiveAction::Read(size as usize)
            },
            (Phase::Body(frame_type), ReceiveEvent::Arrived(bytes)) => self.take_body(
                frame_type,
                bytes,
            ),
            (Phase::Chunk(index), ReceiveEvent::Arrived(bytes)) => self.take_chunk(index, bytes),
            (Phase::Chunk(_), ReceiveEvent::Ended) => self.next_frame(),
            (Phase::Opening(manifest), ReceiveEvent::Opened(done)) => {
                if done {
                    if manifest.total_chunks as usize > usize::MAX / 8 {
                        return ReceiveAction::Stop;
                    }
                    self.writer = Some(DiskWriter::new(manifest));
                }
                self.next_frame()
            },
            (Phase::Writing(index), ReceiveEvent::Written(done)) => {
                if done {
                    if let Some(writer) = &mut self.writer {
                        writer.mark_received(index);
                    }
                }
                self.next_frame()
            },
            _ => ReceiveAction::Stop,
        }
    }

    /// Whether a file was announced and all its chunks have been received.
    pub fn is_complete(&self) -> (done: bool)
        ensures
            done == (self.reception().file matches Some(file) && complete(file.received)),
    {
        match &self.writer {
            Some(writer) => writer.is_complete(),
            None => false,
        }
    }

    /// Goes on with the next frame.
    fn next_frame(&mut self) -> (action: ReceiveAction)
        requires
            old(self).writer matches Some(writer) ==> writer.wf(),
        ensures
            final(self).wf(),
            (final(self).reception(), action@) == old(self).reception().next_frame(),
    {
        self.phase = Phase::Header;
        ReceiveAction::Read(HEADER_LEN)
    }

    /// Takes the header of a frame.
    fn take_header(&mut self, bytes: Vec<u8>) -> (action: ReceiveAction)
        requires
            old(self).phase is Stopped,
            old(self).wf(),
        ensures
            final(self).wf(),
            (final(self).reception(), action@) == (Reception {
                stage: Stage::Header,
                ..old(self).reception()
            }).on(Happening::Arrived(bytes@)),
    {
        let mut buf = copied(bytes.as_slice());
        match FrameHeader::decode(&mut buf) {
            Ok(header) => {
                self.phase = Phase::Size(header.frame_type);
                ReceiveAction::Read(SIZE_LEN)
            },
            Err(_) => ReceiveAction::Stop,
        }
    }

    /// Takes the body of a frame.
    fn take_body(&mut self, frame_type: u8, bytes: Vec<u8>) -> (action: ReceiveAction)
        requires
            old(self).phase is Stopped,
            old(self).wf(),
        ensures
            final(self).wf(),
            (final(self).reception(), action@) == old(self).reception().body(frame_type, bytes@),
    {
        if frame_type == TYPE_FILE_MANIFEST {
            if let Ok(manifest) = FileManifest::from_bytes(bytes.as_slice()) {
                let name = manifest.file_name.clone();
                let position: Option<u64> = reserve(&manifest);
                self.phase = Phase::Opening(manifest);
                return ReceiveAction::Open(name, position);
            }
        } else if frame_type == TYPE_FILE_CHUNK_PAYLOAD && self.writer.is_some() {
            if let Ok(header) = ChunkPayload::from_bytes(bytes.as_slice()) {
                self.phase = Phase::Chunk(header.chunk_index);
                return ReceiveAction::Read(header.payload_length as usize);
            }
        }
        self.next_frame()
    }

    /// Takes the bytes of a chunk.
    fn take_chunk(&mut self, index: u32, bytes: Vec<u8>) -> (action: ReceiveAction)
        requires
            old(self).phase is Stopped,
            old(self).wf(),
            old(self).writer is Some,
        ensures
            final(self).wf(),
            (final(self).reception(), action@) == old(self).reception().chunk(index, bytes@),
    {
        if let Some(writer) = &self.writer {
            if let Ok(ChunkWrite::At(offset)) = writer.write_chunk(index) {
                self.phase = Phase::Writing(index);
                return ReceiveAction::Write(offset, bytes);
            }
        }
        self.next_frame()
    }
}

/// The bytes that are counted start from none, and every chunk adds its length. This holds of every
/// size and every number of chunks.
pub proof fn law_every_chunk_adds_its_length(size: int, total: int, n: int)
    requires
        0 <= n < total,
        size >= 0,
    ensures
        sent_with(size, total, 0) == 0,
        sent_with(size, total, n + 1) == sent_with(size, total, n) + chunk_len(size, total, n),
        sent_with(size, total, n + 1) > sent_with(size, total, n),
{
    law_all_chunks_but_the_last_are_full(size, total, n);
    if n > 0 {
        law_all_chunks_but_the_last_are_full(size, total, n - 1);
    }
}

/// The bytes that are counted are those of the chunks sent so far, one behind the other. Files of
/// more chunks than can be counted are left out.
pub proof fn law_what_is_counted_is_what_was_sent(content: Seq<u8>, n: nat)
    requires
        countable(content.len()),
        n <= chunk_count(content.len()),
    ensures
        sent_with(content.len() as int, chunk_count(content.len()) as int, n as int)
            == chunks_joined(content, n).len(),
    decreases n,
{
    if n > 0 {
        let total = chunk_count(content.len()) as int;
        law_what_is_counted_is_what_was_sent(content, (n - 1) as nat);
        law_every_chunk_adds_its_length(content.len() as int, total, n - 1);
        law_chunks_tile_the_file(content.len(), 0, n - 1);
    }
}

/// Reports come behind the first chunk and then behind every fiftieth, behind the last chunk, and
/// behind no other.
pub proof fn law_reports_come_every_fifty_chunks(total: u32, index: u32)
    ensures
        report_due(total, 0),
        report_due(total, index) <==> index + 1 == total || exists|k: int|
            #![trigger (50 * k)]
            index == 50 * k,
{
    if index % 50 == 0 {
        assert(index == 50 * (index as int / 50));
    }
}

/// Where a size and a body stand behind ten bytes.
#[verifier::spinoff_prover]
proof fn pieces_stand_in_their_places(header: Seq<u8>, size: Seq<u8>, body: Seq<u8>)
    requires
        header.len() == 10,
        size.len() == 4,
    ensures
        header + size + body == header + (size + body),
        (header + size + body).len() == 14 + body.len(),
        (header + size + body)[10] == size[0],
        (header + size + body)[11] == size[1],
        (header + size + body)[12] == size[2],
        (header + size + body)[13] == size[3],
        (header + size + body).skip(14) == body,
{
    assert(header + size + body =~= header + (size + body));
    assert((header + size + body).skip(14) =~= body);
}

/// A frame starts with a header that says its type and number and nothing else, then says how long
/// its body is, and then holds the body.
#[verifier::spinoff_prover]
proof fn frame_says_what_it_holds(frame_type: u8, seq_num: u32, body: Seq<u8>)
    requires
        body.len() < 0x1_0000_0000,
    ensures
        ({
            let frame = frame_of(frame_type, seq_num, body);
            &&& frame.len() == 14 + body.len()
            &&& parse_header(frame) == Ok::<FrameHeader, FrameError>(
                FrameHeader { frame_type, flags: 0, stream_id: 0, seq_num },
            )
            &&& 256 * (256 * (256 * frame[10] + frame[11]) + frame[12]) + frame[13] == body.len()
            &&& frame.skip(14) == body
        }),
{
    let frame = frame_of(frame_type, seq_num, body);
    let header = plain_header(frame_type, seq_num);
    let size = size_field(body.len());
    law_decode_inverts_encode(header, size + body);
    law_bytes_count_by_their_place_32(body.len() as u32, Seq::empty());
    pieces_stand_in_their_places(header.wire(), size, body);
}

/// A manifest frame is of type 5 and has the number 0; behind the header stands how long the
/// announcement is, and then the announcement. Announcements too long for their size are left out.
pub proof fn law_a_manifest_frame_holds_the_announcement(announcement: ManifestFields)
    requires
        announcement.wire().len() < 0x1_0000_0000,
    ensures
        ({
            let frame = manifest_frame(announcement);
            let body = announcement.wire();
            &&& parse_header(frame) == Ok::<FrameHeader, FrameError>(
                FrameHeader { frame_type: 0x05, flags: 0, stream_id: 0, seq_num: 0 },
            )
            &&& 256 * (256 * (256 * frame[10] + frame[11]) + frame[12]) + frame[13] == body.len()
            &&& frame.skip(14) == body
        }),
{
    frame_says_what_it_holds(0x05, 0, announcement.wire());
}

/// A chunk frame is of type 6 and has the number of its chunk; behind the header stands how long
/// the chunk header is, then the chunk header, which says the same number and the length of the
/// chunk, and then the chunk.
#[verifier::spinoff_prover]
pub proof fn law_a_chunk_frame_holds_the_chunk(index: u32, data: Seq<u8>)
    requires
        data.len() <= u32::MAX,
    ensures
        ({
            let frame = chunk_frame(index, data);
            let body = chunk_wire(index, data.len() as u32);
            &&& parse_header(frame) == Ok::<FrameHeader, FrameError>(
                FrameHeader { frame_type: 0x06, flags: 0, stream_id: 0, seq_num: index },
            )
            &&& 256 * (256 * (256 * frame[10] + frame[11]) + frame[12]) + frame[13] == body.len()
            &&& chunk_read(frame.skip(14)) == Some((index, data.len() as u32))
            &&& frame.skip(14) == body + data
        }),
{
    let frame = chunk_frame(index, data);
    let body = chunk_wire(index, data.len() as u32);
    varint_is_short(index as nat);
    varint_is_short(data.len());
    frame_says_what_it_holds(0x06, index, body);
    law_chunk_header_survives_the_wire(index, data.len() as u32, data);
    let front = frame_of(0x06, index, body);
    assert(frame =~= front + data);
    assert(frame.skip(14) =~= front.skip(14) + data);
    law_the_mark_and_the_version_make_a_header(front);
    law_the_mark_and_the_version_make_a_header(frame);
}

/// An integer that fits 32 bits takes no more than five bytes.
pub(crate) proof fn varint_is_short(x: nat)
    requires
        x <= u32::MAX,
    ensures
        varint(x).len() <= 5,
{
    reveal_with_fuel(varint, 6);
}

/// A receiver that waits for a header takes ten bytes that start with the mark and the version, and
/// then wants the size; anything else makes it stop. Its file stays as it is.
pub proof fn law_a_header_starts_a_frame(state: Reception, bytes: Seq<u8>)
    requires
        state.stage is Header,
    ensures
        ({
            let (next, want) = state.on(Happening::Arrived(bytes));
            &&& next.file == state.file
            &&& if bytes.len() >= 10 && bytes[0] == 0x49 && bytes[1] == 0x01 {
                next.stage == Stage::Size(bytes[2]) && want == Want::Read(4)
            } else {
                next.stage is Stopped && want is Stop
            }
        }),
{
}

/// A receiver that waits for a size takes four bytes, and then wants as many bytes as they say; its
/// file stays as it is.
pub proof fn law_a_size_asks_for_the_body(state: Reception, frame_type: u8, bytes: Seq<u8>)
    requires
        state.stage == Stage::Size(frame_type),
        bytes.len() == 4,
    ensures
        ({
            let (next, want) = state.on(Happening::Arrived(bytes));
            &&& next.file == state.file
            &&& next.stage == Stage::Body(frame_type)
            &&& want matches Want::Read(len) && len == 256 * (256 * (256 * bytes[0] + bytes[1])
                + bytes[2]) + bytes[3]
        }),
{
    law_bytes_count_by_their_place_32(0, bytes);
}

/// Frames of any type but 5 and 6 are passed over, and so are a manifest and a chunk header that
/// cannot be read, and a chunk as long as no file was announced: the next header is wanted, and the
/// file stays as it is.
pub proof fn law_what_says_nothing_is_passed_over(state: Reception, frame_type: u8, body: Seq<u8>)
    requires
        state.stage == Stage::Body(frame_type),
        ({
            ||| frame_type != 5 && frame_type != 6
            ||| frame_type == 5 && ManifestFields::read(body) is None
            ||| frame_type == 6 && chunk_read(body) is None
            ||| frame_type == 6 && state.file is None
        }),
    ensures
        ({
            let (next, want) = state.on(Happening::Arrived(body));
            &&& next.file == state.file
            &&& next.stage is Header
            &&& want == Want::Read(10)
        }),
{
}

/// A manifest asks for a file of its name with its size. Once that is created, it is the file that
/// is received, with none of its chunks; if it could not be created, the file stays the one before.
/// Either way the next header is wanted. A file of more chunks than can be kept track of ends the
/// stream.
pub proof fn law_a_manifest_starts_a_file(
    state: Reception,
    body: Seq<u8>,
    announcement: ManifestFields,
)
    requires
        state.stage == Stage::Body(5),
        ManifestFields::read(body) == Some(announcement),
    ensures
        ({
            let (asked, want) = state.on(Happening::Arrived(body));
            let (failed, after_failure) = asked.on(Happening::Opened(false));
            let (opened, after_success) = asked.on(Happening::Opened(true));
            &&& want matches Want::Open(name, last) && name == announcement.file_name && (last
                is None <==> announcement.file_size == 0) && (last matches Some(position)
                ==> position + 1 == announcement.file_size)
            &&& asked.file == state.file
            &&& failed.file == state.file && failed.stage is Header && after_failure == Want::Read(
                10,
            )
            &&& announcement.total_chunks <= usize::MAX / 8 ==> {
                &&& opened.stage is Header
                &&& after_success == Want::Read(10)
                &&& opened.file matches Some(file) && file.announcement == announcement
                    && file.received.len() == announcement.total_chunks && !file.received.contains(
                    true,
                )
            }
            &&& announcement.total_chunks > usize::MAX / 8 ==> opened.stage is Stopped
                && after_success is Stop
        }),
{
}

/// A chunk header asks for as many bytes as it says. A chunk of the file that is not there yet is
/// written where full chunks of its index end, and is there once that succeeded; one that is there
/// already, or that the file does not have, is passed over, and so is one that does not come in
/// whole. Nothing else of the file changes, and the next header is wanted in the end.
pub proof fn law_a_chunk_is_taken_once(
    state: Reception,
    body: Seq<u8>,
    index: u32,
    len: u32,
    data: Seq<u8>,
)
    requires
        state.stage == Stage::Body(6),
        state.file is Some,
        chunk_read(body) == Some((index, len)),
    ensures
        ({
            let received = state.file->0.received;
            let (asked, want) = state.on(Happening::Arrived(body));
            let (cut, after_cut) = asked.on(Happening::Ended);
            let (taken, then) = asked.on(Happening::Arrived(data));
            let (failed, after_failure) = taken.on(Happening::Written(false));
            let (written, after_success) = taken.on(Happening::Written(true));
            &&& want == Want::Read(len as nat) && asked.file == state.file
            &&& cut.file == state.file && cut.stage is Header && after_cut == Want::Read(10)
            &&& taken.file == state.file
            &&& index >= received.len() || received[index as int] ==> taken.stage is Header && then
                == Want::Read(10)
            &&& index < received.len() && !received[index as int] ==> {
                &&& then matches Want::Write(offset, bytes) && offset == index * 65_536 && bytes
                    == data
                &&& failed.file == state.file && failed.stage is Header && after_failure
                    == Want::Read(10)
                &&& written.stage is Header && after_success == Want::Read(10)
                &&& written.file matches Some(file) && file.announcement
                    == state.file->0.announcement && file.received == received.update(
                    index as int,
                    true,
                )
            }
        }),
{
}

/// A stream that ends within a frame, or an event out of turn, makes a receiver stop, and then it
/// wants nothing more, whatever happens. Its file stays as it is.
pub proof fn law_a_receiver_that_stopped_stays_stopped(
    state: Reception,
    event: Happening,
    later: Happening,
)
    requires
        ({
            ||| state.stage is Stopped
            ||| event is Ended && !(state.stage is Chunk)
            ||| event is Arrived && (state.stage is Opening || state.stage is Writing)
            ||| event is Opened && !(state.stage is Opening)
            ||| event is Written && !(state.stage is Writing)
        }),
    ensures
        ({
            let (next, want) = state.on(event);
            &&& next.stage is Stopped && want is Stop && next.file == state.file
            &&& next.on(later).0 == next && next.on(later).1 is Stop
        }),
{
}

/// An event and an action mean what they say: the same kind, with the same numbers and bytes.
pub proof fn law_events_and_actions_mean_what_they_say(event: ReceiveEvent, action: ReceiveAction)
    ensures
        event matches ReceiveEvent::Arrived(bytes) ==> event@ == Happening::Arrived(bytes@),
        event is Ended ==> event@ is Ended,
        event matches ReceiveEvent::Opened(done) ==> event@ == Happening::Opened(done),
        event matches ReceiveEvent::Written(done) ==> event@ == Happening::Written(done),
        action matches ReceiveAction::Read(len) ==> (action@ matches Want::Read(n) && n == len),
        action matches ReceiveAction::Open(name, last) ==> action@ == Want::Open(name@, last),
        action matches ReceiveAction::Write(offset, data) ==> action@ == Want::Write(
            offset,
            data@,
        ),
        action is Stop ==> action@ is Stop,
{
}

/// A stream starts without a file, and with the header of a frame.
pub proof fn law_a_stream_starts_with_a_header()
    ensures
        Reception::start().file is None,
        Reception::start().stage is Header,
        Reception::start().next_frame().0 == Reception::start(),
        Reception::start().next_frame().1 == Want::Read(10),
{
}

} // verus!
