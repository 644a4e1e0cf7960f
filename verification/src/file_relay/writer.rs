//! Putting a received file together on disk.

use super::bitmap::{all_bits, bit, bits, cleared, set_bit, Bitmap};
use super::chunker::{chunk_of, chunk_start, countable, law_chunks_tile_the_file};
use super::codec::ManifestFields;
use super::manifest::{chunk_count, FileManifest, CHUNK_SIZE};
use vstd::prelude::*;

verus! {

/// Why a chunk cannot be written.
#[derive(Debug, PartialEq, Eq, Structural)]
pub enum WriteError {
    /// The file has no chunk of this index.
    OutOfBounds(u32),
}

/// What to do with a chunk that has come in.
#[derive(Debug, PartialEq, Eq, Structural)]
pub enum ChunkWrite {
    /// Write it from this position on, then mark it as received.
    At(u64),
    /// Nothing: it has been received before.
    Skip,
}

/// What to do with chunk `index`, when `received` says which chunks are there.
pub open spec fn placed(received: Seq<bool>, index: u32) -> Result<ChunkWrite, WriteError> {
    if index >= received.len() {
        Err(WriteError::OutOfBounds(index))
    } else if received[index as int] {
        Ok(ChunkWrite::Skip)
    } else {
        Ok(ChunkWrite::At(chunk_start(index as int) as u64))
    }
}

/// Whether all chunks are there.
pub open spec fn complete(received: Seq<bool>) -> bool {
    forall|i: int| 0 <= i < received.len() ==> received[i]
}

/// Which byte to write, a zero, to give the file its full size before any chunk is there: the last
/// one, if there is one.
pub open spec fn reservation(size: u64) -> Option<u64> {
    if size > 0 {
        Some((size - 1) as u64)
    } else {
        None
    }
}

/// Where a single zero byte is to be written to give the announced file its full size at once.
pub fn reserve(manifest: &FileManifest) -> (position: Option<u64>)
    ensures
        position == reservation(manifest.file_size),
{
    if manifest.file_size > 0 {
        Some(manifest.file_size - 1)
    } else {
        None
    }
}

/// Keeps track of a file that is being received.
pub struct DiskWriter {
    manifest: FileManifest,
    received_chunks: Bitmap,
}

impl DiskWriter {
    /// The announcement of the file.
    pub closed spec fn announcement(self) -> ManifestFields {
        self.manifest@
    }

    /// Which chunks have been received.
    pub closed spec fn received(self) -> Seq<bool> {
        bits(self.received_chunks)
    }

    /// There is one bit for every chunk that was announced.
    pub open spec fn wf(self) -> bool {
        self.received().len() == self.announcement().total_chunks
    }

    /// Starts with no chunk received. A bit is kept for every chunk, and the address space holds no
    /// more than an eighth as many of them as bytes.
    pub fn new(manifest: FileManifest) -> (writer: Self)
        requires
            manifest.total_chunks <= usize::MAX / 8,
        ensures
            writer.wf(),
            writer.announcement() == manifest@,
            writer.received() == Seq::new(manifest.total_chunks as nat, |i: int| false),
    {
        let received_chunks = cleared(manifest.total_chunks as usize);
        DiskWriter { manifest, received_chunks }
    }

    /// The manifest that announced the file.
    pub fn manifest(&self) -> (manifest: &FileManifest)
        ensures
            manifest@ == self.announcement(),
    {
        &self.manifest
    }

    /// What to do with chunk `chunk_index`. A chunk that was received before is not written again.
    pub fn write_chunk(&self, chunk_index: u32) -> (write: Result<ChunkWrite, WriteError>)
        requires
            self.wf(),
        ensures
            write == placed(self.received(), chunk_index),
    {
        if chunk_index >= self.manifest.total_chunks {
            return Err(WriteError::OutOfBounds(chunk_index));
        }
        if bit(&self.received_chunks, chunk_index as usize) {
            return Ok(ChunkWrite::Skip);
        }
        assert(chunk_index * CHUNK_SIZE <= u64::MAX);
        Ok(ChunkWrite::At(chunk_index as u64 * CHUNK_SIZE as u64))
    }

    /// Marks a chunk as received, once its bytes are on disk.
    pub fn mark_received(&mut self, chunk_index: u32)
        requires
            old(self).wf(),
            chunk_index < old(self).announcement().total_chunks,
        ensures
            final(self).wf(),
            final(self).announcement() == old(self).announcement(),
            final(self).received() == old(self).received().update(chunk_index as int, true),
    {
        set_bit(&mut self.received_chunks, chunk_index as usize);
    }

    /// Whether every chunk has been received.
    pub fn is_complete(&self) -> (done: bool)
        ensures
            done == complete(self.received()),
    {
        all_bits(&self.received_chunks)
    }
}

/// The content of a file after `bytes` were written at `offset`: what lies between the old end and
/// the new bytes is zero.
pub open spec fn overwritten(disk: Seq<u8>, offset: int, bytes: Seq<u8>) -> Seq<u8> {
    let end = offset + bytes.len();
    if bytes.len() == 0 {
        disk
    } else {
        Seq::new(
            if end <= disk.len() {
                disk.len()
            } else {
                end as nat
            },
            |i: int|
                if offset <= i < end {
                    bytes[i - offset]
                } else if i < disk.len() {
                    disk[i]
                } else {
                    0u8
                },
        )
    }
}

/// A file that is being received: which chunks are there, and what is on disk.
#[verifier::ext_equal]
pub struct Landing {
    /// Which chunks have been received.
    pub received: Seq<bool>,
    /// The content of the file on disk.
    pub disk: Seq<u8>,
}

impl Landing {
    /// A file of `size` bytes of which no chunk is there yet.
    pub open spec fn start(size: u64) -> Self {
        Landing {
            received: Seq::new(chunk_count(size as nat), |i: int| false),
            disk: match reservation(size) {
                Some(last) => overwritten(Seq::empty(), last as int, seq![0u8]),
                None => Seq::empty(),
            },
        }
    }

    /// The file after a chunk has come in and been dealt with as [`placed`] says.
    pub open spec fn deliver(self, index: u32, payload: Seq<u8>) -> Self {
        match placed(self.received, index) {
            Ok(ChunkWrite::At(offset)) => Landing {
                received: self.received.update(index as int, true),
                disk: overwritten(self.disk, offset as int, payload),
            },
            _ => self,
        }
    }

    /// The file after these chunks have come in, in this order.
    pub open spec fn after(size: u64, deliveries: Seq<(u32, Seq<u8>)>) -> Self
        decreases deliveries.len(),
    {
        if deliveries.len() == 0 {
            Self::start(size)
        } else {
            let (index, payload) = deliveries.last();
            Self::after(size, deliveries.drop_last()).deliver(index, payload)
        }
    }
}

/// A chunk that comes in again changes nothing, whatever its bytes are this time.
pub proof fn law_a_repeated_chunk_changes_nothing(
    landing: Landing,
    index: u32,
    first: Seq<u8>,
    second: Seq<u8>,
)
    ensures
        landing.deliver(index, first).deliver(index, second) == landing.deliver(index, first),
{
}

/// A chunk counts as received once it has come in, wherever in the order and however often. The
/// transfer is complete once every chunk has.
pub proof fn law_complete_once_every_chunk_came_in(size: u64, deliveries: Seq<(u32, Seq<u8>)>)
    ensures
        Landing::after(size, deliveries).received.len() == chunk_count(size as nat),
        forall|i: int|
            0 <= i < chunk_count(size as nat) ==> (#[trigger] Landing::after(
                size,
                deliveries,
            ).received[i] <==> came_in(deliveries, i)),
        complete(Landing::after(size, deliveries).received) <==> forall|i: int|
            0 <= i < chunk_count(size as nat) ==> came_in(deliveries, i),
    decreases deliveries.len(),
{
    let received = Landing::after(size, deliveries).received;
    let total = chunk_count(size as nat);
    let before = deliveries.drop_last();
    if deliveries.len() > 0 {
        law_complete_once_every_chunk_came_in(size, before);
    }
    assert forall|i: int| 0 <= i < total implies (received[i] <==> came_in(deliveries, i)) by {
        if deliveries.len() > 0 {
            assert(Landing::after(size, before).received[i] <==> came_in(before, i));
            if came_in(before, i) {
                let k = choose|k: int| 0 <= k < before.len() && (#[trigger] before[k]).0 == i;
                assert(deliveries[k].0 == i);
            }
            if came_in(deliveries, i) {
                let k = choose|k: int|
                    0 <= k < deliveries.len() && (#[trigger] deliveries[k]).0 == i;
                if k < before.len() {
                    assert(before[k].0 == i);
                }
            }
            if deliveries.last().0 == i {
                assert(deliveries[deliveries.len() - 1].0 == i);
            }
        }
    }
    if complete(received) {
        assert forall|i: int| 0 <= i < total implies came_in(deliveries, i) by {
            assert(received[i]);
        }
    }
}

/// Whether chunk `index` is among those that came in.
pub open spec fn came_in(deliveries: Seq<(u32, Seq<u8>)>, index: int) -> bool {
    exists|k: int| 0 <= k < deliveries.len() && (#[trigger] deliveries[k]).0 == index
}

/// Whether every chunk that came in is the one of `content` of that index.
pub open spec fn faithful(content: Seq<u8>, deliveries: Seq<(u32, Seq<u8>)>) -> bool {
    forall|k: int|
        0 <= k < deliveries.len() && (#[trigger] deliveries[k]).0 < chunk_count(content.len())
            ==> deliveries[k].1 == chunk_of(content, deliveries[k].0 as int)
}

/// Once a transfer is complete, the file on disk is the file that was sent, in whatever order and
/// however often its chunks came in. Files of more than `u32::MAX` full chunks are left out: theirs
/// cannot all be counted.
pub proof fn law_a_complete_file_is_the_sent_file(
    content: Seq<u8>,
    size: u64,
    deliveries: Seq<(u32, Seq<u8>)>,
)
    requires
        content.len() == size,
        countable(content.len()),
        faithful(content, deliveries),
        complete(Landing::after(size, deliveries).received),
    ensures
        Landing::after(size, deliveries).disk == content,
{
    let landing = Landing::after(size, deliveries);
    received_chunks_are_on_disk(content, size, deliveries);
    law_complete_once_every_chunk_came_in(size, deliveries);
    assert forall|p: int| 0 <= p < content.len() implies landing.disk[p] == content[p] by {
        let index = p / (CHUNK_SIZE as int);
        law_chunks_tile_the_file(content.len(), p, 0);
        law_chunks_tile_the_file(content.len(), p, index);
        assert(landing.received[index]);
    }
    assert(landing.disk =~= content);
}

/// The bytes of every chunk that has been received are on disk as they were sent.
proof fn received_chunks_are_on_disk(content: Seq<u8>, size: u64, deliveries: Seq<(u32, Seq<u8>)>)
    requires
        content.len() == size,
        countable(content.len()),
        faithful(content, deliveries),
    ensures
        Landing::after(size, deliveries).disk.len() == size,
        Landing::after(size, deliveries).received.len() == chunk_count(size as nat),
        forall|p: int|
            0 <= p < size && Landing::after(size, deliveries).received[p / (CHUNK_SIZE as int)]
                ==> #[trigger] Landing::after(size, deliveries).disk[p] == content[p],
    decreases deliveries.len(),
{
    let total = chunk_count(size as nat) as int;
    let now = Landing::after(size, deliveries);
    if deliveries.len() == 0 {
        assert forall|p: int|
            0 <= p < size && now.received[p / (CHUNK_SIZE as int)] implies #[trigger] now.disk[p]
            == content[p] by {
            law_chunks_tile_the_file(size as nat, p, 0);
        }
    } else {
        let before = deliveries.drop_last();
        let was = Landing::after(size, before);
        let (index, payload) = deliveries.last();
        assert(faithful(content, before)) by {
            assert forall|k: int|
                0 <= k < before.len() && (#[trigger] before[k]).0 < chunk_count(
                    content.len(),
                ) implies before[k].1 == chunk_of(content, before[k].0 as int) by {
                assert(deliveries[k] == before[k]);
            }
        }
        received_chunks_are_on_disk(content, size, before);
        if placed(was.received, index) is Ok && !was.received[index as int] {
            assert(deliveries[deliveries.len() - 1] == deliveries.last());
            assert(payload == chunk_of(content, index as int));
            law_chunks_tile_the_file(size as nat, 0, index as int);
            assert forall|p: int|
                0 <= p < size && now.received[p / (
                CHUNK_SIZE as int)] implies #[trigger] now.disk[p] == content[p] by {
                law_chunks_tile_the_file(size as nat, p, index as int);
            }
        }
    }
}

/// A chunk is refused exactly if the file has none of its index, passed over exactly if it is there
/// already, and otherwise written as many bytes from the start as full chunks of its index hold.
pub proof fn law_a_chunk_has_its_place(received: Seq<bool>, index: u32)
    ensures
        placed(received, index) == Err::<ChunkWrite, WriteError>(WriteError::OutOfBounds(index))
            <==> index >= received.len(),
        placed(received, index) == Ok::<ChunkWrite, WriteError>(ChunkWrite::Skip) <==> index
            < received.len() && received[index as int],
        index < received.len() && !received[index as int] ==> (placed(received, index) matches Ok(
            ChunkWrite::At(offset),
        ) && offset == index * 65_536),
{
}

/// A transfer is complete exactly if no chunk is missing.
pub proof fn law_complete_means_that_none_is_missing(received: Seq<bool>)
    ensures
        complete(received) <==> !received.contains(false),
{
    if received.contains(false) {
        let i = choose|i: int| 0 <= i < received.len() && received[i] == false;
        assert(!received[i]);
    }
    if !received.contains(false) {
        assert forall|i: int| 0 <= i < received.len() implies received[i] by {
            if !received[i] {
                assert(received[i] == false);
            }
        }
    }
}

/// Writing changes the bytes from the offset on, leaves the others as they are, and fills a gap
/// with zeros. The file grows only as far as it has to.
pub proof fn law_writing_changes_only_its_bytes(disk: Seq<u8>, offset: int, bytes: Seq<u8>, i: int)
    requires
        0 <= offset,
        bytes.len() > 0,
        0 <= i < overwritten(disk, offset, bytes).len(),
    ensures
        overwritten(disk, offset, bytes).len() >= disk.len(),
        overwritten(disk, offset, bytes).len() >= offset + bytes.len(),
        overwritten(disk, offset, bytes).len() == disk.len() || overwritten(
            disk,
            offset,
            bytes,
        ).len() == offset + bytes.len(),
        offset <= i < offset + bytes.len() ==> overwritten(disk, offset, bytes)[i] == bytes[i
            - offset],
        (i < offset || offset + bytes.len() <= i) && i < disk.len() ==> overwritten(
            disk,
            offset,
            bytes,
        )[i] == disk[i],
        (i < offset || offset + bytes.len() <= i) && i >= disk.len() ==> overwritten(
            disk,
            offset,
            bytes,
        )[i] == 0,
{
}

/// A file has its full size, all zeros, and no chunk, before any chunk has come in.
pub proof fn law_a_file_has_its_size_from_the_start(size: u64)
    ensures
        Landing::start(size).disk == Seq::new(size as nat, |i: int| 0u8),
        Landing::start(size).received == Seq::new(chunk_count(size as nat), |i: int| false),
        size == 0 <==> reservation(size) is None,
        reservation(size) matches Some(last) ==> last + 1 == size,
{
    assert(Landing::start(size).disk =~= Seq::new(size as nat, |i: int| 0u8));
}

} // verus!
