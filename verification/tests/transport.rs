use bytes::{BufMut, Bytes, BytesMut};
use decentis::file_relay::chunker::FileChunker;
use decentis::file_relay::digest::ContentHasher;
use decentis::file_relay::manifest::{ChunkPayload, FileManifest};
use decentis::transport::datagram::{
    bridge_step, packet, BridgeAction, BridgeEvent, PACKET_BUFFER,
};
use decentis::transport::endpoint::{
    certified_key, generate_dummy_cert, EndpointError, SERVER_NAME,
};
use decentis::transport::frame::{
    FrameError, FrameHeader, FLAG_PRIORITY_HIGH, PROTOCOL_VERSION, TYPE_FILE_CHUNK_PAYLOAD,
    TYPE_FILE_MANIFEST, TYPE_KEEPALIVE_PING, TYPE_L3_TUN_DATAGRAM,
};
use decentis::transport::stream::{
    FileReceiver, FileSender, ReceiveAction, ReceiveEvent, COMPLETED, STREAMING,
};
use decentis::wire::{join16, join32, split32};

#[test]
fn test_frame_encode_decode() {
    let header = FrameHeader {
        frame_type: TYPE_L3_TUN_DATAGRAM,
        flags: FLAG_PRIORITY_HIGH,
        stream_id: 1024,
        seq_num: 999_999,
    };

    let mut buf = BytesMut::with_capacity(10);
    header.encode(&mut buf);

    assert_eq!(buf.len(), 10);

    let decoded = FrameHeader::decode(&mut buf).expect("Failed to decode header");

    assert_eq!(header, decoded);
}

#[test]
fn test_invalid_magic_byte() {
    let mut buf = BytesMut::with_capacity(10);
    buf.put_u8(0xFF); // Wrong magic byte
    buf.put_u8(PROTOCOL_VERSION);
    buf.put_u64(0); // Fill the rest

    assert!(FrameHeader::decode(&mut buf).is_err());
}

#[test]
fn a_header_has_its_bytes() {
    let header = FrameHeader {
        frame_type: 0x06,
        flags: 0x02,
        stream_id: 0x1234,
        seq_num: 0x89AB_CDEF,
    };
    let mut buf = BytesMut::new();
    header.encode(&mut buf);
    assert_eq!(
        &buf[..],
        &[0x49, 0x01, 0x06, 0x02, 0x12, 0x34, 0x89, 0xAB, 0xCD, 0xEF]
    );
    buf.put_u8(0x55);
    assert_eq!(FrameHeader::decode(&mut buf), Ok(header));
    assert_eq!(&buf[..], &[0x55]);
}

#[test]
fn bytes_that_are_no_header_are_refused() {
    let mut short = BytesMut::from(&[0x49, 0x01, 0, 0, 0, 0, 0, 0, 0][..]);
    assert_eq!(FrameHeader::decode(&mut short), Err(FrameError::TooShort));
    assert_eq!(short.len(), 9);
    let mut magic = BytesMut::from(&[0x50, 0x01, 0, 0, 0, 0, 0, 0, 0, 0][..]);
    assert_eq!(
        FrameHeader::decode(&mut magic),
        Err(FrameError::Magic(0x50))
    );
    assert_eq!(magic.len(), 9);
    let mut version = BytesMut::from(&[0x49, 0x02, 0, 0, 0, 0, 0, 0, 0, 0][..]);
    assert_eq!(
        FrameHeader::decode(&mut version),
        Err(FrameError::Version(0x02))
    );
    assert_eq!(version.len(), 8);
}

#[test]
fn numbers_go_highest_byte_first() {
    assert_eq!(join16(0x12, 0x34), 0x1234);
    assert_eq!(join32(0x12, 0x34, 0x56, 0x78), 0x1234_5678);
    assert_eq!(split32(0x89AB_CDEF), [0x89, 0xAB, 0xCD, 0xEF]);
}

fn chunker_of(content: &[u8]) -> FileChunker {
    let mut hasher = ContentHasher::new();
    hasher.absorb(content);
    FileChunker::new(
        "id".to_string(),
        Some("name".to_string()),
        content.len() as u64,
        &hasher,
    )
}

/// All that is sent for a file, with the reports on the way.
fn send(content: &[u8]) -> (Vec<u8>, Vec<(u64, String)>) {
    let mut sender = FileSender::new(chunker_of(content));
    let mut stream = sender.manifest_frame().unwrap();
    let mut reports = Vec::new();
    while let Some(span) = sender.next_chunk() {
        let start = span.offset as usize;
        let data = &content[start..start + span.header.payload_length as usize];
        let (frame, progress) = sender.chunk_frame(data).unwrap();
        stream.extend_from_slice(&frame);
        if let Some(progress) = progress {
            assert_eq!(progress.transfer_id, "id");
            assert_eq!(progress.total_bytes, content.len() as u64);
            reports.push((progress.bytes_transferred, progress.status));
        }
    }
    (stream, reports)
}

/// What a receiver makes of a stream: the names it opened, what is on disk, and whether it is
/// complete. The `open` and `write` flags say whether the disk works.
fn receive(mut stream: &[u8], open: bool, write: bool) -> (Vec<String>, Vec<u8>, bool) {
    let (mut receiver, mut action) = FileReceiver::new();
    let mut names = Vec::new();
    let mut disk = Vec::new();
    loop {
        let event = match action {
            ReceiveAction::Read(len) => {
                if len <= stream.len() {
                    let (now, later) = stream.split_at(len);
                    stream = later;
                    ReceiveEvent::Arrived(now.to_vec())
                } else {
                    stream = &[];
                    ReceiveEvent::Ended
                }
            }
            ReceiveAction::Open(name, position) => {
                names.push(name);
                if open {
                    disk = vec![0u8; position.map_or(0, |last| last as usize + 1)];
                }
                ReceiveEvent::Opened(open)
            }
            ReceiveAction::Write(offset, data) => {
                if write {
                    let start = offset as usize;
                    if disk.len() < start + data.len() {
                        disk.resize(start + data.len(), 0);
                    }
                    disk[start..start + data.len()].copy_from_slice(&data);
                }
                ReceiveEvent::Written(write)
            }
            ReceiveAction::Stop => break,
        };
        action = receiver.step(event);
    }
    (names, disk, receiver.is_complete())
}

#[test]
fn a_sent_file_arrives_as_it_was() {
    for size in [0usize, 1, 65_536, 65_537, 300_000] {
        let content: Vec<u8> = (0..size).map(|i| (i % 253) as u8).collect();
        let (stream, _) = send(&content);
        let (names, disk, complete) = receive(&stream, true, true);
        assert_eq!(names, vec!["name".to_string()]);
        assert_eq!(disk, content);
        assert!(complete);
    }
}

#[test]
fn a_manifest_frame_has_its_bytes() {
    let sender = FileSender::new(chunker_of(b"xyz"));
    let body = chunker_of(b"xyz").manifest().to_bytes().unwrap();
    let mut expected = vec![0x49, 0x01, TYPE_FILE_MANIFEST, 0, 0, 0, 0, 0, 0, 0];
    expected.extend_from_slice(&[0, 0, 0, body.len() as u8]);
    expected.extend_from_slice(&body);
    assert_eq!(sender.manifest_frame().unwrap(), expected);
}

#[test]
fn a_chunk_frame_has_its_bytes() {
    let mut sender = FileSender::new(chunker_of(b"xyz"));
    let (frame, progress) = sender.chunk_frame(b"xyz").unwrap();
    assert_eq!(
        frame,
        vec![
            0x49, 0x01, TYPE_FILE_CHUNK_PAYLOAD, 0, 0, 0, 0, 0, 0, 0, // header
            0, 0, 0, 2, // size of the chunk header
            0, 3, // chunk header
            b'x', b'y', b'z',
        ]
    );
    let progress = progress.unwrap();
    assert_eq!(progress.bytes_transferred, 3);
    assert_eq!(progress.status, COMPLETED);
    assert!(sender.next_chunk().is_none());
}

#[test]
fn progress_is_reported_every_fifty_chunks_and_at_the_end() {
    let content = vec![0u8; 65_536 * 101 + 7];
    let (_, reports) = send(&content);
    let expected = vec![
        (65_536u64, STREAMING.to_string()),
        (65_536 * 51, STREAMING.to_string()),
        (65_536 * 101, STREAMING.to_string()),
        (65_536 * 101 + 7, COMPLETED.to_string()),
    ];
    assert_eq!(reports, expected);
    let (_, reports) = send(&[]);
    assert!(reports.is_empty());
}

fn frame(frame_type: u8, body: &[u8]) -> Vec<u8> {
    let header = FrameHeader {
        frame_type,
        flags: 0,
        stream_id: 0,
        seq_num: 0,
    };
    let mut buf = BytesMut::new();
    header.encode(&mut buf);
    buf.put_u32(body.len() as u32);
    buf.put_slice(body);
    buf.to_vec()
}

fn chunk(index: u32, data: &[u8]) -> Vec<u8> {
    let header = ChunkPayload {
        chunk_index: index,
        payload_length: data.len() as u32,
    };
    let mut bytes = frame(TYPE_FILE_CHUNK_PAYLOAD, &header.to_bytes().unwrap());
    bytes.extend_from_slice(data);
    bytes
}

fn announce(size: u64) -> Vec<u8> {
    let manifest = FileManifest::new("t".to_string(), "f".to_string(), size, [0u8; 32]);
    frame(TYPE_FILE_MANIFEST, &manifest.to_bytes().unwrap())
}

#[test]
fn chunks_may_come_out_of_order_and_again() {
    let first = vec![1u8; 65_536];
    let mut stream = announce(65_538);
    stream.extend_from_slice(&chunk(1, &[2, 3]));
    stream.extend_from_slice(&frame(TYPE_KEEPALIVE_PING, b"anything"));
    stream.extend_from_slice(&chunk(1, &[9, 9]));
    stream.extend_from_slice(&chunk(7, &[9, 9]));
    stream.extend_from_slice(&chunk(0, &first));
    let (_, disk, complete) = receive(&stream, true, true);
    let mut expected = first;
    expected.extend_from_slice(&[2, 3]);
    assert_eq!(disk, expected);
    assert!(complete);
}

#[test]
fn what_cannot_be_read_is_passed_over() {
    let mut stream = frame(TYPE_FILE_MANIFEST, &[1]);
    stream.extend_from_slice(&announce(2));
    stream.extend_from_slice(&frame(TYPE_FILE_CHUNK_PAYLOAD, &[0x80]));
    stream.extend_from_slice(&chunk(0, &[5, 6]));
    let (names, disk, complete) = receive(&stream, true, true);
    assert_eq!(names, vec!["f".to_string()]);
    assert_eq!(disk, vec![5, 6]);
    assert!(complete);
}

#[test]
fn a_chunk_without_a_file_leaves_its_bytes_on_the_stream() {
    // The bytes of the chunk are taken for the next frame.
    let mut stream = chunk(0, &announce(3));
    stream.extend_from_slice(&chunk(0, &[7, 8, 9]));
    let (names, disk, complete) = receive(&stream, true, true);
    assert_eq!(names, vec!["f".to_string()]);
    assert_eq!(disk, vec![7, 8, 9]);
    assert!(complete);
}

#[test]
fn a_stream_that_goes_wrong_is_given_up() {
    let mut stream = announce(2);
    stream.extend_from_slice(&[0u8; 10]);
    stream.extend_from_slice(&chunk(0, &[5, 6]));
    let (_, disk, complete) = receive(&stream, true, true);
    assert_eq!(disk, vec![0, 0]);
    assert!(!complete);
    for len in 0..announce(2).len() {
        let (names, _, complete) = receive(&announce(2)[..len], true, true);
        assert!(names.is_empty());
        assert!(!complete);
    }
    let mut cut = announce(2);
    cut.extend_from_slice(&chunk(0, &[5, 6])[..17]);
    let (_, disk, complete) = receive(&cut, true, true);
    assert_eq!(disk, vec![0, 0]);
    assert!(!complete);
}

#[test]
fn a_failing_disk_leaves_the_file_incomplete() {
    let (stream, _) = send(b"content");
    let (names, disk, complete) = receive(&stream, false, true);
    assert_eq!(names.len(), 1);
    assert!(disk.is_empty());
    assert!(!complete);
    let (_, disk, complete) = receive(&stream, true, false);
    assert_eq!(disk, vec![0u8; 7]);
    assert!(!complete);
}

#[test]
fn events_out_of_turn_stop_a_receiver() {
    let (mut receiver, action) = FileReceiver::new();
    assert!(matches!(action, ReceiveAction::Read(10)));
    assert!(matches!(
        receiver.step(ReceiveEvent::Written(true)),
        ReceiveAction::Stop
    ));
    assert!(matches!(
        receiver.step(ReceiveEvent::Arrived(announce(1)[..10].to_vec())),
        ReceiveAction::Stop
    ));
}

#[test]
fn packets_are_cut_to_their_length() {
    let mut buf = vec![0u8; PACKET_BUFFER];
    buf[..3].copy_from_slice(&[1, 2, 3]);
    assert_eq!(&packet(&buf, 3)[..], &[1, 2, 3]);
    assert_eq!(packet(&buf, 0).len(), 0);
    assert_eq!(packet(&buf, PACKET_BUFFER).len(), 1500);
}

#[test]
fn a_bridge_passes_packets_on_until_something_fails() {
    let datagram = Bytes::from_static(b"packet");
    assert!(matches!(
        bridge_step(BridgeEvent::Received(datagram.clone())),
        BridgeAction::Forward(forwarded) if forwarded == datagram
    ));
    assert!(matches!(
        bridge_step(BridgeEvent::Forwarded),
        BridgeAction::Receive
    ));
    assert!(matches!(
        bridge_step(BridgeEvent::ReceiveFailed),
        BridgeAction::Stop
    ));
    assert!(matches!(
        bridge_step(BridgeEvent::ForwardFailed),
        BridgeAction::Stop
    ));
}

#[test]
fn a_certificate_names_the_host() {
    let certified = generate_dummy_cert().unwrap();
    assert_eq!(certified.chain.len(), 1);
    let host = SERVER_NAME.as_bytes();
    assert!(certified.chain[0]
        .windows(host.len())
        .any(|window| window == host));
    assert!(!certified.key.is_empty());
    let other = generate_dummy_cert().unwrap();
    assert_ne!(certified.key, other.key);
}

#[test]
fn a_certificate_stands_alone_in_its_chain() {
    let certified = certified_key(Ok((vec![1, 2, 3], vec![4, 5]))).unwrap();
    assert_eq!(certified.chain, vec![vec![1, 2, 3]]);
    assert_eq!(certified.key, vec![4, 5]);
    assert!(matches!(
        certified_key(Err(rcgen::Error::CouldNotParseCertificate)),
        Err(EndpointError::Certificate(
            rcgen::Error::CouldNotParseCertificate
        ))
    ));
}

#[test]
fn a_transfer_that_nobody_follows_stops() {
    let content = vec![1u8; 65_536 * 3];
    let mut sender = FileSender::new(chunker_of(&content));
    let (_, progress) = sender.chunk_frame(&content[..65_536]).unwrap();
    assert!(progress.is_some());
    sender.reported(true);
    assert!(sender.next_chunk().is_some());
    sender.reported(false);
    assert!(sender.next_chunk().is_none());
    sender.reported(true);
    assert!(sender.next_chunk().is_none());
}
