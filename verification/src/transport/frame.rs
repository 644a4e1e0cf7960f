//! The header that precedes every frame.

use crate::transport::buffer::{
    buffered, get_u16, get_u32, get_u8, put_u16, put_u32, put_u8, remaining,
};
use crate::wire::{be16, be32, from_be16, from_be32, law_big_endian_16, law_big_endian_32};
use vstd::prelude::*;

verus! {

pub const MAGIC_BYTE: u8 = 0x49;  // 0x49 is ASCII 'I'

pub const PROTOCOL_VERSION: u8 = 0x01;

// --- Frame Types ---
pub const TYPE_HANDSHAKE_INIT: u8 = 0x01;

pub const TYPE_HANDSHAKE_RESP: u8 = 0x02;

pub const TYPE_KEEPALIVE_PING: u8 = 0x03;

pub const TYPE_L3_TUN_DATAGRAM: u8 = 0x04;

pub const TYPE_FILE_MANIFEST: u8 = 0x05;

pub const TYPE_FILE_CHUNK_PAYLOAD: u8 = 0x06;

pub const TYPE_FILE_CHUNK_ACK: u8 = 0x07;

pub const TYPE_RELAY_WRAPPER: u8 = 0x08;

// --- Flags ---
pub const FLAG_PRIORITY_HIGH: u8 = 0b0000_0001;

pub const FLAG_COMPRESSED_ZSTD: u8 = 0b0000_0010;

/// Length of an encoded header.
pub const HEADER_LEN: usize = 10;

#[derive(Debug, Clone, PartialEq, Eq, Structural)]
pub struct FrameHeader {
    pub frame_type: u8,
    pub flags: u8,
    pub stream_id: u16,
    pub seq_num: u32,  // Note: We use the lower 32-bits of the Noise u64 sequence
}

/// Why bytes are not a frame header.
#[derive(Debug, Clone, PartialEq, Eq, Structural)]
pub enum FrameError {
    /// There are fewer bytes than a header has.
    TooShort,
    /// The first byte is not the magic byte, but this one.
    Magic(u8),
    /// The protocol version is not ours, but this one.
    Version(u8),
}

/// The header that `bytes` start with, or what is wrong with them.
pub open spec fn parse_header(bytes: Seq<u8>) -> Result<FrameHeader, FrameError> {
    if bytes.len() < HEADER_LEN {
        Err(FrameError::TooShort)
    } else if bytes[0] != MAGIC_BYTE {
        Err(FrameError::Magic(bytes[0]))
    } else if bytes[1] != PROTOCOL_VERSION {
        Err(FrameError::Version(bytes[1]))
    } else {
        Ok(
            FrameHeader {
                frame_type: bytes[2],
                flags: bytes[3],
                stream_id: from_be16(bytes.subrange(4, 6)),
                seq_num: from_be32(bytes.subrange(6, 10)),
            },
        )
    }
}

/// How many bytes decoding takes off a buffer that holds `bytes`: the whole header, or what was
/// looked at before something turned out to be wrong.
pub open spec fn header_consumes(bytes: Seq<u8>) -> int {
    match parse_header(bytes) {
        Ok(_) => HEADER_LEN as int,
        Err(FrameError::TooShort) => 0,
        Err(FrameError::Magic(_)) => 1,
        Err(FrameError::Version(_)) => 2,
    }
}

impl FrameHeader {
    /// The ten bytes of the header.
    pub open spec fn wire(self) -> Seq<u8> {
        seq![MAGIC_BYTE, PROTOCOL_VERSION, self.frame_type, self.flags] + be16(self.stream_id)
            + be32(self.seq_num)
    }

    /// Encodes the header directly into a mutable byte buffer (10 bytes total)
    pub fn encode(&self, buf: &mut bytes::BytesMut)
        requires
            buffered(*old(buf)).len() + HEADER_LEN <= isize::MAX,
        ensures
            buffered(*final(buf)) == buffered(*old(buf)) + self.wire(),
    {
        put_u8(buf, MAGIC_BYTE);
        put_u8(buf, PROTOCOL_VERSION);
        put_u8(buf, self.frame_type);
        put_u8(buf, self.flags);
        put_u16(buf, self.stream_id);
        put_u32(buf, self.seq_num);
        assert(buffered(*buf) =~= buffered(*old(buf)) + self.wire());
    }

    /// Decodes a header from a byte buffer. Returns an error if the Magic Byte or Version is
    /// invalid.
    pub fn decode(buf: &mut bytes::BytesMut) -> (decoded: Result<Self, FrameError>)
        ensures
            decoded == parse_header(buffered(*old(buf))),
            buffered(*final(buf)) == buffered(*old(buf)).skip(
                header_consumes(buffered(*old(buf))),
            ),
            decoded matches Ok(header) ==> buffered(*old(buf)).take(HEADER_LEN as int)
                == header.wire(),
    {
        let ghost bytes = buffered(*buf);
        if remaining(buf) < HEADER_LEN {
            assert(bytes.skip(0) =~= bytes);
            return Err(FrameError::TooShort);
        }
        let magic = get_u8(buf);
        if magic != MAGIC_BYTE {
            return Err(FrameError::Magic(magic));
        }
        let version = get_u8(buf);
        assert(buffered(*buf) =~= bytes.skip(2));
        if version != PROTOCOL_VERSION {
            return Err(FrameError::Version(version));
        }
        let frame_type = get_u8(buf);
        let flags = get_u8(buf);
        assert(buffered(*buf) =~= bytes.skip(4));
        let stream_id = get_u16(buf);
        assert(buffered(*buf) =~= bytes.skip(6));
        let seq_num = get_u32(buf);
        let header = FrameHeader { frame_type, flags, stream_id, seq_num };
        proof {
            assert(be16(stream_id) =~= bytes.subrange(4, 6));
            assert(be32(seq_num) =~= bytes.subrange(6, 10));
            law_big_endian_16(stream_id, be16(stream_id));
            law_big_endian_32(seq_num, be32(seq_num));
            assert(buffered(*buf) =~= bytes.skip(10));
            assert(bytes.take(10) =~= header.wire()) by {
                assert(bytes.take(10) =~= bytes.take(4) + bytes.subrange(4, 6) + bytes.subrange(
                    6,
                    10,
                ));
                assert(bytes.take(4) =~= seq![MAGIC_BYTE, PROTOCOL_VERSION, frame_type, flags]);
            }
        }
        Ok(header)
    }
}

/// Decoding gives back the header that was encoded, whatever follows it.
pub proof fn law_decode_inverts_encode(header: FrameHeader, rest: Seq<u8>)
    ensures
        header.wire().len() == HEADER_LEN,
        parse_header(header.wire() + rest) == Ok::<FrameHeader, FrameError>(header),
        (header.wire() + rest).skip(header_consumes(header.wire() + rest)) == rest,
{
    let bytes = header.wire() + rest;
    law_big_endian_16(header.stream_id, be16(header.stream_id));
    law_big_endian_32(header.seq_num, be32(header.seq_num));
    assert(bytes.subrange(4, 6) =~= be16(header.stream_id));
    assert(bytes.subrange(6, 10) =~= be32(header.seq_num));
    assert(bytes.skip(10) =~= rest);
}

/// What stands where in a header: the mark, the version, the type, the flags, and the two numbers,
/// highest byte first.
pub proof fn law_a_header_says_everything_in_its_place(header: FrameHeader)
    ensures
        header.wire().len() == 10,
        header.wire()[0] == 0x49,
        header.wire()[1] == 0x01,
        header.wire()[2] == header.frame_type,
        header.wire()[3] == header.flags,
        256 * header.wire()[4] + header.wire()[5] == header.stream_id,
        256 * (256 * (256 * header.wire()[6] + header.wire()[7]) + header.wire()[8])
            + header.wire()[9] == header.seq_num,
{
}

/// Ten bytes that start with the mark and the version are a header, and nothing else is. The first
/// thing that is wrong is what is reported, and reading stops behind it.
pub proof fn law_the_mark_and_the_version_make_a_header(bytes: Seq<u8>)
    ensures
        parse_header(bytes) is Ok <==> bytes.len() >= 10 && bytes[0] == 0x49 && bytes[1] == 0x01,
        parse_header(bytes) matches Ok(header) ==> {
            &&& header.frame_type == bytes[2]
            &&& header.flags == bytes[3]
            &&& header.stream_id == 256 * bytes[4] + bytes[5]
            &&& header.seq_num == 256 * (256 * (256 * bytes[6] + bytes[7]) + bytes[8]) + bytes[9]
            &&& header_consumes(bytes) == 10
        },
        bytes.len() < 10 ==> parse_header(bytes) == Err::<FrameHeader, FrameError>(
            FrameError::TooShort,
        ) && header_consumes(bytes) == 0,
        bytes.len() >= 10 && bytes[0] != 0x49 ==> parse_header(bytes) == Err::<
            FrameHeader,
            FrameError,
        >(FrameError::Magic(bytes[0])) && header_consumes(bytes) == 1,
        bytes.len() >= 10 && bytes[0] == 0x49 && bytes[1] != 0x01 ==> parse_header(bytes) == Err::<
            FrameHeader,
            FrameError,
        >(FrameError::Version(bytes[1])) && header_consumes(bytes) == 2,
{
}

} // verus!
