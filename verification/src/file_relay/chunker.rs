//! Cutting a file into chunks.

use super::codec::ManifestFields;
use super::digest::{blake3_digest, ContentHasher};
use super::manifest::{announcement_of, chunk_count, ChunkPayload, FileManifest, CHUNK_SIZE};
use vstd::prelude::*;
use vstd::string::StringExecFns;

verus! {

/// The name of a file whose path ends in no readable name.
pub const UNNAMED: &'static str = "unknown.bin";

/// Why a chunk cannot be read.
#[derive(Debug, PartialEq, Eq, Structural)]
pub enum ChunkError {
    /// The file has no chunk of this index.
    OutOfBounds(u32),
}

/// Where chunk `index` starts.
pub open spec fn chunk_start(index: int) -> int {
    index * CHUNK_SIZE
}

/// How many bytes chunk `index` has, of a file of `size` bytes in `total` chunks: all chunks are
/// full but the last, which holds what is left.
pub open spec fn chunk_len(size: int, total: int, index: int) -> int {
    if index == total - 1 && size % (CHUNK_SIZE as int) > 0 {
        size % (CHUNK_SIZE as int)
    } else {
        CHUNK_SIZE as int
    }
}

/// Chunk `index` of `content`.
pub open spec fn chunk_of(content: Seq<u8>, index: int) -> Seq<u8> {
    let total = chunk_count(content.len()) as int;
    content.subrange(
        chunk_start(index),
        chunk_start(index) + chunk_len(content.len() as int, total, index),
    )
}

/// The first `n` chunks of `content`, one behind the other.
pub open spec fn chunks_joined(content: Seq<u8>, n: nat) -> Seq<u8>
    decreases n,
{
    if n == 0 {
        Seq::empty()
    } else {
        chunks_joined(content, (n - 1) as nat) + chunk_of(content, n - 1)
    }
}

/// Where the bytes of a chunk stand in the file, and the header that goes in front of them.
#[derive(Debug, PartialEq)]
pub struct ChunkSpan {
    /// The position of the first byte.
    pub offset: u64,
    /// Which chunk it is, and how many bytes it has.
    pub header: ChunkPayload,
}

/// Hands out the chunks of a file.
pub struct FileChunker {
    manifest: FileManifest,
}

impl FileChunker {
    /// The announcement of the file.
    pub closed spec fn announcement(self) -> ManifestFields {
        self.manifest@
    }

    /// Prepares a file of this name and size for sending, once its content has gone through
    /// `hasher`. A file without a readable name is announced as [`UNNAMED`].
    pub fn new(
        transfer_id: String,
        file_name: Option<String>,
        file_size: u64,
        hasher: &ContentHasher,
    ) -> (chunker: Self)
        requires
            hasher.wf(),
        ensures
            chunker.announcement() == announcement_of(
                transfer_id@,
                match file_name {
                    Some(name) => name@,
                    None => UNNAMED@,
                },
                file_size,
                blake3_digest(hasher.content()),
            ),
    {
        let name = match file_name {
            Some(name) => name,
            None => String::from_str(UNNAMED),
        };
        FileChunker { manifest: FileManifest::new(transfer_id, name, file_size, hasher.digest()) }
    }

    /// The manifest that announces the file.
    pub fn manifest(&self) -> (manifest: &FileManifest)
        ensures
            manifest@ == self.announcement(),
    {
        &self.manifest
    }

    /// Which bytes of the file make up chunk `chunk_index`. Chunks may be asked for in any order.
    pub fn read_chunk(&self, chunk_index: u32) -> (span: Result<ChunkSpan, ChunkError>)
        ensures
            match span {
                Ok(span) => {
                    &&& chunk_index < self.announcement().total_chunks
                    &&& span.offset == chunk_start(chunk_index as int)
                    &&& span.header.chunk_index == chunk_index
                    &&& span.header.payload_length == chunk_len(
                        self.announcement().file_size as int,
                        self.announcement().total_chunks as int,
                        chunk_index as int,
                    )
                },
                Err(error) => chunk_index >= self.announcement().total_chunks && error
                    == ChunkError::OutOfBounds(chunk_index),
            },
    {
        if chunk_index >= self.manifest.total_chunks {
            return Err(ChunkError::OutOfBounds(chunk_index));
        }
        assert(chunk_index * CHUNK_SIZE <= u64::MAX);
        let offset: u64 = chunk_index as u64 * CHUNK_SIZE as u64;
        let remainder: u64 = self.manifest.file_size % CHUNK_SIZE as u64;
        let payload_length: u32 = if chunk_index == self.manifest.total_chunks - 1 && remainder
            > 0 {
            remainder as u32
        } else {
            CHUNK_SIZE
        };
        Ok(ChunkSpan { offset, header: ChunkPayload { chunk_index, payload_length } })
    }
}

/// The largest file whose chunks can all be counted.
pub open spec fn countable(size: nat) -> bool {
    size <= u32::MAX * CHUNK_SIZE
}

/// Every chunk lies within the file, and every byte of the file lies in exactly one chunk, the one
/// that its position divided by the size of a chunk gives. Files of more than `u32::MAX` full
/// chunks are left out: theirs cannot all be counted.
pub proof fn law_chunks_tile_the_file(size: nat, position: int, index: int)
    requires
        countable(size),
        0 <= index < chunk_count(size),
        0 <= position < size,
    ensures
        0 < chunk_len(size as int, chunk_count(size) as int, index) <= CHUNK_SIZE,
        chunk_start(index) + chunk_len(size as int, chunk_count(size) as int, index) <= size,
        0 <= position / (CHUNK_SIZE as int) < chunk_count(size),
        chunk_start(index) <= position < chunk_start(index) + chunk_len(
            size as int,
            chunk_count(size) as int,
            index,
        ) <==> index == position / (CHUNK_SIZE as int),
{
}

/// The chunks of a file, one behind the other, are the file.
pub proof fn law_chunks_join_to_the_file(content: Seq<u8>)
    requires
        countable(content.len()),
    ensures
        chunks_joined(content, chunk_count(content.len())) == content,
{
    joined_is_a_prefix(content, chunk_count(content.len()));
    let n = chunk_count(content.len());
    if n > 0 {
        assert(chunk_start(n - 1) + chunk_len(content.len() as int, n as int, n - 1)
            == content.len());
        assert(content.subrange(0, content.len() as int) == content);
    }
}

/// The first `n` chunks, one behind the other, are the start of the file, up to the end of the last
/// of them.
proof fn joined_is_a_prefix(content: Seq<u8>, n: nat)
    requires
        countable(content.len()),
        n <= chunk_count(content.len()),
    ensures
        n == 0 ==> chunks_joined(content, n) == Seq::<u8>::empty(),
        n > 0 ==> chunks_joined(content, n) == content.subrange(
            0,
            chunk_start(n - 1) + chunk_len(
                content.len() as int,
                chunk_count(content.len()) as int,
                n - 1,
            ),
        ),
    decreases n,
{
    if n > 0 {
        let total = chunk_count(content.len()) as int;
        joined_is_a_prefix(content, (n - 1) as nat);
        if n > 1 {
            assert(chunk_start(n - 2) + chunk_len(content.len() as int, total, n - 2)
                == chunk_start(n - 1));
        }
        law_chunks_tile_the_file(content.len(), 0, n - 1);
        assert(chunks_joined(content, n) =~= content.subrange(
            0,
            chunk_start(n - 1) + chunk_len(content.len() as int, total, n - 1),
        ));
    }
}

/// Chunks follow each other without a gap from the start of the file, and all but the last are
/// full. The last one leaves a whole number of full chunks in front of it. This holds of every size
/// and every number of chunks.
pub proof fn law_all_chunks_but_the_last_are_full(size: int, total: int, index: int)
    requires
        0 <= index < total,
        size >= 0,
    ensures
        chunk_start(0) == 0,
        chunk_start(index + 1) == chunk_start(index) + 65_536,
        chunk_start(index) == index * 65_536,
        index + 1 < total ==> chunk_len(size, total, index) == 65_536,
        0 < chunk_len(size, total, index) <= 65_536,
        (size - chunk_len(size, total, total - 1)) % 65_536 == 0,
{
}

/// A chunk holds the bytes of the file from its start on, in order.
pub proof fn law_a_chunk_holds_its_bytes(content: Seq<u8>, index: int, i: int)
    requires
        countable(content.len()),
        0 <= index < chunk_count(content.len()),
        0 <= i < chunk_of(content, index).len(),
    ensures
        index * 65_536 + i < content.len(),
        chunk_of(content, index)[i] == content[index * 65_536 + i],
{
    law_chunks_tile_the_file(content.len(), 0, index);
}

/// The files that are left out elsewhere are those whose counted chunks cannot hold them.
pub proof fn law_a_countable_file_fits_its_chunks(size: nat)
    ensures
        countable(size) <==> size <= chunk_count(size) * 65_536,
{
}

} // verus!
