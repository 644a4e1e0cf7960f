use decentis::file_relay::chunker::{ChunkError, FileChunker};
use decentis::file_relay::digest::ContentHasher;
use decentis::file_relay::manifest::{ChunkPayload, CodecError, FileManifest, CHUNK_SIZE};
use decentis::file_relay::writer::{reserve, ChunkWrite, DiskWriter, WriteError};

fn hashed(content: &[u8]) -> ContentHasher {
    let mut hasher = ContentHasher::new();
    hasher.absorb(content);
    hasher
}

#[test]
fn test_manifest_serialization() {
    let hash = blake3::hash(b"dummy data");
    let manifest = FileManifest::new(
        "transfer-123".to_string(),
        "ubuntu.iso".to_string(),
        1024 * 1024 * 500, // 500 MB
        *hash.as_bytes(),
    );

    // A 500 MB file should have exactly 8000 chunks of 64 KB
    assert_eq!(manifest.total_chunks, 8000);

    let bytes = manifest.to_bytes().unwrap();
    let decoded = FileManifest::from_bytes(&bytes).unwrap();

    assert_eq!(manifest, decoded);
}

#[test]
fn test_chunker_hashing_and_reading() {
    // 1. Content of exactly 100 KB
    // This will result in two chunks: Chunk 0 (65,536 bytes) and Chunk 1 (36,864 bytes).
    let file_size = 102_400;
    let dummy_data = vec![0x77; file_size];

    // 2. Initialize the Chunker
    let chunker = FileChunker::new(
        "transfer-777".to_string(),
        Some("test_chunker_source.bin".to_string()),
        dummy_data.len() as u64,
        &hashed(&dummy_data),
    );

    // 3. Verify Manifest Metadata
    let manifest = chunker.manifest();
    assert_eq!(manifest.file_size, 102_400);
    assert_eq!(manifest.total_chunks, 2);
    assert_eq!(
        manifest.blake3_root_hash,
        *blake3::hash(&dummy_data).as_bytes()
    );

    // 4. Verify Chunk 0 (Full 64 KB)
    let span0 = chunker.read_chunk(0).unwrap();
    let start0 = span0.offset as usize;
    let data0 = &dummy_data[start0..start0 + span0.header.payload_length as usize];
    assert_eq!(span0.header.chunk_index, 0);
    assert_eq!(span0.header.payload_length, CHUNK_SIZE);
    assert_eq!(data0.len(), CHUNK_SIZE as usize);
    assert_eq!(data0[0], 0x77);

    // 5. Verify Chunk 1 (Partial 36 KB)
    let span1 = chunker.read_chunk(1).unwrap();
    let start1 = span1.offset as usize;
    let data1 = &dummy_data[start1..start1 + span1.header.payload_length as usize];
    assert_eq!(span1.header.chunk_index, 1);
    assert_eq!(span1.header.payload_length, 36_864);
    assert_eq!(data1.len(), 36_864);
}

#[test]
fn test_sparse_allocation_and_out_of_order_writes() {
    let manifest = FileManifest::new(
        "test-transfer".to_string(),
        "sparse_test.bin".to_string(),
        CHUNK_SIZE as u64 * 3, // Exactly 3 chunks (192 KB)
        [0u8; 32],
    );

    let mut disk: Vec<u8> = Vec::new();
    if let Some(last) = reserve(&manifest) {
        disk.resize(last as usize + 1, 0);
    }
    assert_eq!(disk.len(), 196_608);

    let mut writer = DiskWriter::new(manifest);
    assert!(!writer.is_complete());

    let dummy_chunk = vec![0xAA; CHUNK_SIZE as usize];

    // Write Chunk 2 (Out of order), then Chunk 0, then Chunk 1
    for (index, done) in [(2u32, false), (0, false), (1, true)] {
        match writer.write_chunk(index) {
            Ok(ChunkWrite::At(offset)) => {
                let start = offset as usize;
                disk[start..start + dummy_chunk.len()].copy_from_slice(&dummy_chunk);
                writer.mark_received(index);
            }
            other => panic!("{:?}", other),
        }
        assert_eq!(writer.is_complete(), done);
    }

    // Transfer should now be marked complete
    assert!(writer.is_complete());
    assert!(disk.iter().all(|byte| *byte == 0xAA));
}

#[test]
fn a_manifest_has_its_bytes() {
    let manifest = FileManifest::new("ab".to_string(), "c".to_string(), 300, [7u8; 32]);
    let mut expected = vec![2, b'a', b'b', 1, b'c', 0xAC, 0x02, 0x80, 0x80, 0x04, 1];
    expected.extend_from_slice(&[7u8; 32]);
    assert_eq!(manifest.to_bytes().unwrap(), expected);
}

#[test]
fn text_is_counted_in_bytes() {
    let manifest = FileManifest::new("\u{e9}".to_string(), String::new(), 0, [0u8; 32]);
    let bytes = manifest.to_bytes().unwrap();
    assert_eq!(&bytes[..4], &[2, 0xC3, 0xA9, 0]);
    assert_eq!(FileManifest::from_bytes(&bytes).unwrap(), manifest);
}

#[test]
fn bytes_behind_a_manifest_are_passed_over() {
    let manifest = FileManifest::new("id".to_string(), "name".to_string(), u64::MAX, [1u8; 32]);
    let mut bytes = manifest.to_bytes().unwrap();
    bytes.extend_from_slice(&[9, 9, 9]);
    assert_eq!(FileManifest::from_bytes(&bytes).unwrap(), manifest);
}

#[test]
fn a_cut_or_damaged_manifest_is_refused() {
    let manifest = FileManifest::new("id".to_string(), "name".to_string(), 5, [1u8; 32]);
    let bytes = manifest.to_bytes().unwrap();
    for len in 0..bytes.len() {
        assert!(matches!(
            FileManifest::from_bytes(&bytes[..len]),
            Err(CodecError::Decode(_))
        ));
    }
    let mut damaged = bytes.clone();
    damaged[1] = 0xFF; // no UTF-8
    assert!(matches!(
        FileManifest::from_bytes(&damaged),
        Err(CodecError::Decode(_))
    ));
}

#[test]
fn a_chunk_header_has_its_bytes() {
    let header = ChunkPayload {
        chunk_index: 129,
        payload_length: 65_536,
    };
    let bytes = header.to_bytes().unwrap();
    assert_eq!(bytes, vec![0x81, 0x01, 0x80, 0x80, 0x04]);
    assert_eq!(ChunkPayload::from_bytes(&bytes).unwrap(), header);
    let largest = ChunkPayload {
        chunk_index: u32::MAX,
        payload_length: u32::MAX,
    };
    let bytes = largest.to_bytes().unwrap();
    assert_eq!(bytes.len(), 10);
    assert_eq!(ChunkPayload::from_bytes(&bytes).unwrap(), largest);
}

#[test]
fn chunk_headers_are_read_as_the_format_says() {
    // An integer may take more bytes than it needs ...
    assert_eq!(
        ChunkPayload::from_bytes(&[0x81, 0x80, 0x00, 0x05]).unwrap(),
        ChunkPayload {
            chunk_index: 1,
            payload_length: 5
        }
    );
    // ... but no more than five, and no more than 32 bits.
    for bad in [
        &[0x81, 0x80, 0x80, 0x80, 0x80, 0x00, 0x05][..],
        &[0xFF, 0xFF, 0xFF, 0xFF, 0x1F, 0x05][..],
        &[0x81][..],
        &[0x01][..],
        &[][..],
    ] {
        assert!(matches!(
            ChunkPayload::from_bytes(bad),
            Err(CodecError::Decode(_))
        ));
    }
}

#[test]
fn chunks_are_counted_up_to_what_a_number_holds() {
    let count = |size: u64| {
        FileManifest::new(String::new(), String::new(), size, [0u8; 32]).total_chunks
    };
    assert_eq!(count(0), 0);
    assert_eq!(count(1), 1);
    assert_eq!(count(65_535), 1);
    assert_eq!(count(65_536), 1);
    assert_eq!(count(65_537), 2);
    assert_eq!(count(u32::MAX as u64 * 65_536), u32::MAX);
    assert_eq!(count(u32::MAX as u64 * 65_536 + 1), u32::MAX);
    assert_eq!(count(u64::MAX), u32::MAX);
    for size in [0u64, 1, 65_536, 65_537, 1 << 33, (1 << 48) - 1, 1 << 53, u64::MAX] {
        assert_eq!(count(size), (size as f64 / CHUNK_SIZE as f64).ceil() as u32);
    }
}

#[test]
fn chunks_put_together_are_the_file() {
    for size in [0usize, 1, 65_535, 65_536, 65_537, 200_000] {
        let content: Vec<u8> = (0..size).map(|i| (i % 251) as u8).collect();
        let chunker = FileChunker::new(String::new(), None, size as u64, &hashed(&content));
        assert_eq!(chunker.manifest().file_name, "unknown.bin");
        let mut joined = Vec::new();
        for index in 0..chunker.manifest().total_chunks {
            let span = chunker.read_chunk(index).unwrap();
            let start = span.offset as usize;
            joined.extend_from_slice(&content[start..start + span.header.payload_length as usize]);
        }
        assert_eq!(joined, content);
        let total = chunker.manifest().total_chunks;
        assert_eq!(
            chunker.read_chunk(total),
            Err(ChunkError::OutOfBounds(total))
        );
    }
}

#[test]
fn a_digest_does_not_depend_on_the_pieces() {
    let content: Vec<u8> = (0..5000u32).map(|i| (i * 7) as u8).collect();
    let mut pieces = ContentHasher::new();
    for piece in content.chunks(13) {
        pieces.absorb(piece);
    }
    assert_eq!(pieces.digest(), hashed(&content).digest());
    assert_eq!(pieces.digest(), *blake3::hash(&content).as_bytes());
    assert_ne!(pieces.digest(), ContentHasher::new().digest());
    assert_eq!(ContentHasher::new().digest(), *blake3::hash(b"").as_bytes());
}

#[test]
fn a_chunk_is_written_once_and_only_where_there_is_one() {
    let manifest = FileManifest::new(String::new(), String::new(), 70_000, [0u8; 32]);
    assert_eq!(reserve(&manifest), Some(69_999));
    let mut writer = DiskWriter::new(manifest);
    assert_eq!(writer.manifest().total_chunks, 2);
    assert_eq!(writer.write_chunk(2), Err(WriteError::OutOfBounds(2)));
    assert_eq!(writer.write_chunk(1), Ok(ChunkWrite::At(65_536)));
    // Not marked yet: the write may have failed.
    assert_eq!(writer.write_chunk(1), Ok(ChunkWrite::At(65_536)));
    writer.mark_received(1);
    assert_eq!(writer.write_chunk(1), Ok(ChunkWrite::Skip));
    assert_eq!(writer.write_chunk(0), Ok(ChunkWrite::At(0)));
    writer.mark_received(0);
    assert!(writer.is_complete());
}

#[test]
fn an_empty_file_is_complete_from_the_start() {
    let manifest = FileManifest::new(String::new(), String::new(), 0, [0u8; 32]);
    assert_eq!(reserve(&manifest), None);
    assert!(DiskWriter::new(manifest).is_complete());
}

#[test]
fn a_cut_chunk_header_is_refused() {
    let header = ChunkPayload {
        chunk_index: 70_000,
        payload_length: 300,
    };
    let bytes = header.to_bytes().unwrap();
    for len in 0..bytes.len() {
        assert!(matches!(
            ChunkPayload::from_bytes(&bytes[..len]),
            Err(CodecError::Decode(_))
        ));
    }
}
