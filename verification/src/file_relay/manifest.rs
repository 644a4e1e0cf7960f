//! What a file transfer announces, and how it looks on the wire.

use super::codec::{
    chunk_read, chunk_wire, law_chunk_header_survives_the_wire, read_chunk_header, read_manifest,
    write_chunk_header, write_manifest, ManifestFields,
};
use vstd::prelude::*;

verus! {

/// The size of a chunk: 64 KB.
pub const CHUNK_SIZE: u32 = 65_536;

/// How many chunks a file of `size` bytes is cut into: as many as it takes to hold them all, or as
/// many as a `u32` can count.
pub open spec fn chunk_count(size: nat) -> nat {
    let needed = (size + CHUNK_SIZE - 1) as nat / CHUNK_SIZE as nat;
    if needed <= u32::MAX {
        needed
    } else {
        u32::MAX as nat
    }
}

/// Why a manifest or a chunk header could not be written or read.
#[derive(Debug)]
pub enum CodecError {
    /// The value could not be written.
    Encode(postcard::Error),
    /// The bytes hold no such value.
    Decode(postcard::Error),
}

/// Announces a file transfer.
#[derive(Debug, Clone, PartialEq)]
pub struct FileManifest {
    /// Names the transfer.
    pub transfer_id: String,
    /// The name of the file.
    pub file_name: String,
    /// The size of the file in bytes.
    pub file_size: u64,
    /// The size of a chunk in bytes.
    pub chunk_size: u32,
    /// How many chunks the file is cut into.
    pub total_chunks: u32,
    /// The BLAKE3 digest of the file.
    pub blake3_root_hash: [u8; 32],
}

/// What the manifest of a file of this name and size with this digest says.
pub open spec fn announcement_of(
    transfer_id: Seq<char>,
    file_name: Seq<char>,
    file_size: u64,
    root: Seq<u8>,
) -> ManifestFields {
    ManifestFields {
        transfer_id,
        file_name,
        file_size,
        chunk_size: CHUNK_SIZE,
        total_chunks: chunk_count(file_size as nat) as u32,
        root,
    }
}

impl View for FileManifest {
    type V = ManifestFields;

    open spec fn view(&self) -> ManifestFields {
        ManifestFields {
            transfer_id: self.transfer_id@,
            file_name: self.file_name@,
            file_size: self.file_size,
            chunk_size: self.chunk_size,
            total_chunks: self.total_chunks,
            root: self.blake3_root_hash@,
        }
    }
}

impl FileManifest {
    /// The manifest of a file of this name and size with this digest.
    pub fn new(
        transfer_id: String,
        file_name: String,
        file_size: u64,
        root_hash: [u8; 32],
    ) -> (manifest: Self)
        ensures
            manifest@ == announcement_of(transfer_id@, file_name@, file_size, root_hash@),
    {
        let whole: u64 = file_size / CHUNK_SIZE as u64;
        let needed: u64 = if file_size % CHUNK_SIZE as u64 > 0 {
            whole + 1
        } else {
            whole
        };
        let total_chunks: u32 = if needed <= u32::MAX as u64 {
            needed as u32
        } else {
            u32::MAX
        };
        FileManifest {
            transfer_id,
            file_name,
            file_size,
            chunk_size: CHUNK_SIZE,
            total_chunks,
            blake3_root_hash: root_hash,
        }
    }

    /// The manifest on the wire.
    pub fn to_bytes(&self) -> (written: Result<Vec<u8>, CodecError>)
        ensures
            written is Ok,
            written->Ok_0@ == self@.wire(),
    {
        match write_manifest(
            self.transfer_id.as_str(),
            self.file_name.as_str(),
            self.file_size,
            self.chunk_size,
            self.total_chunks,
            &self.blake3_root_hash,
        ) {
            Ok(bytes) => Ok(bytes),
            Err(error) => Err(CodecError::Encode(error)),
        }
    }

    /// Reads a manifest from the start of `data`; bytes behind it are passed over.
    pub fn from_bytes(data: &[u8]) -> (read: Result<Self, CodecError>)
        ensures
            match read {
                Ok(manifest) => ManifestFields::read(data@) == Some(manifest@),
                Err(error) => error is Decode && ManifestFields::read(data@) is None,
            },
    {
        match read_manifest(data) {
            Ok((transfer_id, file_name, file_size, chunk_size, total_chunks, root)) => {
                Ok(
                    FileManifest {
                        transfer_id,
                        file_name,
                        file_size,
                        chunk_size,
                        total_chunks,
                        blake3_root_hash: root,
                    },
                )
            },
            Err(error) => Err(CodecError::Decode(error)),
        }
    }
}

/// Stands in front of the bytes of a chunk.
#[derive(Debug, Clone, PartialEq)]
pub struct ChunkPayload {
    /// Which chunk it is.
    pub chunk_index: u32,
    /// How many bytes follow.
    pub payload_length: u32,
}

impl ChunkPayload {
    /// The header on the wire.
    pub open spec fn wire(self) -> Seq<u8> {
        chunk_wire(self.chunk_index, self.payload_length)
    }

    /// The header that `data` is read as, if any.
    pub open spec fn read(data: Seq<u8>) -> Option<Self> {
        match chunk_read(data) {
            Some((chunk_index, payload_length)) => Some(
                ChunkPayload { chunk_index, payload_length },
            ),
            None => None,
        }
    }

    /// The header on the wire.
    pub fn to_bytes(&self) -> (written: Result<Vec<u8>, CodecError>)
        ensures
            written is Ok,
            written->Ok_0@ == self.wire(),
    {
        match write_chunk_header(self.chunk_index, self.payload_length) {
            Ok(bytes) => Ok(bytes),
            Err(error) => Err(CodecError::Encode(error)),
        }
    }

    /// Reads a header from the start of `data`; bytes behind it are passed over.
    pub fn from_bytes(data: &[u8]) -> (read: Result<Self, CodecError>)
        ensures
            match read {
                Ok(header) => ChunkPayload::read(data@) == Some(header),
                Err(error) => error is Decode && ChunkPayload::read(data@) is None,
            },
    {
        match read_chunk_header(data) {
            Ok((chunk_index, payload_length)) => Ok(ChunkPayload { chunk_index, payload_length }),
            Err(error) => Err(CodecError::Decode(error)),
        }
    }
}

/// The chunks are as many as it takes to hold the file: one fewer would not. Where a `u32` cannot
/// count that many, they are as many as it can.
pub proof fn law_the_count_is_the_least_that_holds_the_file(size: nat)
    ensures
        chunk_count(size) <= 0xFFFF_FFFF,
        size <= 0xFFFF_FFFF * 65_536 ==> size <= chunk_count(size) * 65_536,
        size <= 0xFFFF_FFFF * 65_536 && chunk_count(size) > 0 ==> (chunk_count(size) - 1) * 65_536
            < size,
        size > 0xFFFF_FFFF * 65_536 ==> chunk_count(size) == 0xFFFF_FFFF,
{
}

/// An announcement carries what it was made with, each part unchanged.
pub proof fn law_an_announcement_carries_what_it_was_made_with(
    transfer_id: Seq<char>,
    file_name: Seq<char>,
    file_size: u64,
    root: Seq<u8>,
)
    ensures
        ({
            let announcement = announcement_of(transfer_id, file_name, file_size, root);
            &&& announcement.transfer_id == transfer_id
            &&& announcement.file_name == file_name
            &&& announcement.file_size == file_size
            &&& announcement.root == root
            &&& announcement.chunk_size == 65_536
            &&& announcement.total_chunks == chunk_count(file_size as nat)
        }),
{
}

/// A manifest announces its own fields, each unchanged.
pub proof fn law_a_manifest_announces_its_fields(manifest: FileManifest)
    ensures
        manifest@.transfer_id == manifest.transfer_id@,
        manifest@.file_name == manifest.file_name@,
        manifest@.file_size == manifest.file_size,
        manifest@.chunk_size == manifest.chunk_size,
        manifest@.total_chunks == manifest.total_chunks,
        manifest@.root == manifest.blake3_root_hash@,
{
}

/// A chunk header says its own fields, and is read back with them, whatever follows it.
pub proof fn law_a_chunk_header_says_its_fields(header: ChunkPayload, rest: Seq<u8>)
    ensures
        header.wire() == chunk_wire(header.chunk_index, header.payload_length),
        ChunkPayload::read(header.wire() + rest) == Some(header),
{
    law_chunk_header_survives_the_wire(header.chunk_index, header.payload_length, rest);
}

} // verus!
