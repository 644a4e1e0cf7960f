//! What arrives is what was sent: the two ends of a file transfer put together.

use crate::file_relay::chunker::{chunk_of, countable, law_chunks_tile_the_file};
use crate::file_relay::codec::{
    chunk_wire, law_chunk_header_survives_the_wire, law_manifest_survives_the_wire, ManifestFields,
};
use crate::file_relay::manifest::{
    announcement_of, chunk_count, law_an_announcement_carries_what_it_was_made_with,
};
use crate::file_relay::writer::{
    complete, faithful, law_a_complete_file_is_the_sent_file, overwritten, Landing,
};
use crate::transport::frame::{
    law_decode_inverts_encode, HEADER_LEN, TYPE_FILE_CHUNK_PAYLOAD, TYPE_FILE_MANIFEST,
};
use crate::transport::stream::{
    chunk_frame, frame_of, manifest_frame, plain_header, size_field, varint_is_short, Happening,
    Incoming, Reception, Stage, Want,
};
use crate::wire::law_big_endian_32;
use vstd::prelude::*;
use vstd::utf8::encode_utf8;

verus! {

/// The frames of the chunks of `content` from chunk `first` on.
pub open spec fn frames_from(content: Seq<u8>, first: nat) -> Seq<u8>
    decreases chunk_count(content.len()) - first,
{
    if first >= chunk_count(content.len()) {
        Seq::empty()
    } else {
        chunk_frame(first as u32, chunk_of(content, first as int)) + frames_from(content, first + 1)
    }
}

/// All that is sent for a file.
pub open spec fn file_stream(announcement: ManifestFields, content: Seq<u8>) -> Seq<u8> {
    manifest_frame(announcement) + frames_from(content, 0)
}

/// What has been sent for a file after its manifest frame and its first `n` chunk frames, each
/// behind the one before.
pub open spec fn sent_so_far(
    announcement: ManifestFields,
    content: Seq<u8>,
    n: nat,
) -> Seq<u8>
    decreases n,
{
    if n == 0 {
        manifest_frame(announcement)
    } else {
        sent_so_far(announcement, content, (n - 1) as nat) + chunk_frame(
            (n - 1) as u32,
            chunk_of(content, n - 1),
        )
    }
}

/// The manifest frame and then a frame for every chunk, in order, are all that is sent for a file;
/// at any point, the frames that are still missing make up the rest.
pub proof fn law_the_frames_in_order_are_the_stream(
    announcement: ManifestFields,
    content: Seq<u8>,
    n: nat,
)
    requires
        n <= chunk_count(content.len()),
    ensures
        sent_so_far(announcement, content, n) + frames_from(content, n) == file_stream(
            announcement,
            content,
        ),
        n == chunk_count(content.len()) ==> sent_so_far(announcement, content, n) == file_stream(
            announcement,
            content,
        ),
    decreases n,
{
    if n > 0 {
        law_the_frames_in_order_are_the_stream(announcement, content, (n - 1) as nat);
        assert(sent_so_far(announcement, content, n) + frames_from(content, n) =~= sent_so_far(
            announcement,
            content,
            (n - 1) as nat,
        ) + frames_from(content, (n - 1) as nat));
    }
    if n == chunk_count(content.len()) {
        assert(sent_so_far(announcement, content, n) + frames_from(content, n) =~= sent_so_far(
            announcement,
            content,
            n,
        ));
    }
}

/// The receiving end: the receiver, what it wants, the file on its disk, and the bytes that are
/// still to come in.
pub struct Receiving {
    /// The state of the receiver.
    pub reception: Reception,
    /// What the receiver wants.
    pub want: Want,
    /// The content of the file on disk.
    pub disk: Seq<u8>,
    /// The bytes that are still to come in.
    pub rest: Seq<u8>,
}

impl Receiving {
    /// The start of a stream on which `bytes` will come in.
    pub open spec fn start(bytes: Seq<u8>) -> Self {
        let (reception, want) = Reception::start().next_frame();
        Receiving { reception, want, disk: Seq::empty(), rest: bytes }
    }

    /// Does what the receiver wants, on a disk that does not fail, and tells it.
    pub open spec fn step(self) -> Self {
        match self.want {
            Want::Read(len) => if len <= self.rest.len() {
                let (reception, want) = self.reception.on(
                    Happening::Arrived(self.rest.take(len as int)),
                );
                Receiving { reception, want, disk: self.disk, rest: self.rest.skip(len as int) }
            } else {
                let (reception, want) = self.reception.on(Happening::Ended);
                Receiving { reception, want, disk: self.disk, rest: Seq::empty() }
            },
            Want::Open(_, position) => {
                let (reception, want) = self.reception.on(Happening::Opened(true));
                let disk = match position {
                    Some(last) => overwritten(Seq::empty(), last as int, seq![0u8]),
                    None => Seq::empty(),
                };
                Receiving { reception, want, disk, rest: self.rest }
            },
            Want::Write(offset, data) => {
                let (reception, want) = self.reception.on(Happening::Written(true));
                Receiving {
                    reception,
                    want,
                    disk: overwritten(self.disk, offset as int, data),
                    rest: self.rest,
                }
            },
            Want::Stop => self,
        }
    }

    /// Goes on for this many steps.
    pub open spec fn after(self, steps: nat) -> Self
        decreases steps,
    {
        if steps == 0 {
            self
        } else {
            self.step().after((steps - 1) as nat)
        }
    }
}

/// Going on for some steps and then for some more is going on for all of them.
proof fn steps_add_up(state: Receiving, first: nat, second: nat)
    ensures
        state.after(first + second) == state.after(first).after(second),
    decreases first,
{
    if first > 0 {
        steps_add_up(state.step(), (first - 1) as nat, second);
    }
}

/// A step takes in the header of a frame.
proof fn header_comes_in(state: Receiving, frame_type: u8, seq_num: u32, tail: Seq<u8>)
    requires
        state.reception.stage is Header,
        state.want == Want::Read(HEADER_LEN as nat),
        state.rest == plain_header(frame_type, seq_num).wire() + tail,
    ensures
        state.step() == (Receiving {
            reception: Reception { stage: Stage::Size(frame_type), file: state.reception.file },
            want: Want::Read(4),
            disk: state.disk,
            rest: tail,
        }),
{
    let header = plain_header(frame_type, seq_num);
    law_decode_inverts_encode(header, Seq::empty());
    assert(header.wire() + Seq::<u8>::empty() =~= header.wire());
    assert(state.rest.take(10) =~= header.wire());
    assert(state.rest.skip(10) =~= tail);
}

/// A step takes in the size of the body of a frame.
proof fn size_comes_in(state: Receiving, frame_type: u8, len: nat, tail: Seq<u8>)
    requires
        state.reception.stage == Stage::Size(frame_type),
        state.want == Want::Read(4),
        state.rest == size_field(len) + tail,
        len < 0x1_0000_0000,
    ensures
        state.step() == (Receiving {
            reception: Reception { stage: Stage::Body(frame_type), file: state.reception.file },
            want: Want::Read(len),
            disk: state.disk,
            rest: tail,
        }),
{
    let size = size_field(len);
    law_big_endian_32(len as u32, size);
    assert(state.rest.take(4) =~= size);
    assert(state.rest.skip(4) =~= tail);
}

/// Three steps take in the header, the size and the body of a frame.
proof fn frame_comes_in(
    state: Receiving,
    frame_type: u8,
    seq_num: u32,
    body: Seq<u8>,
    tail: Seq<u8>,
)
    requires
        state.reception.stage is Header,
        state.want == Want::Read(HEADER_LEN as nat),
        state.rest == frame_of(frame_type, seq_num, body) + tail,
        body.len() < 0x1_0000_0000,
    ensures
        ({
            let (reception, want) = state.reception.body(frame_type, body);
            state.after(3) == Receiving { reception, want, disk: state.disk, rest: tail }
        }),
{
    let size = size_field(body.len());
    assert(state.rest =~= plain_header(frame_type, seq_num).wire() + (size + (body + tail)));
    header_comes_in(state, frame_type, seq_num, size + (body + tail));
    let headed = state.step();
    size_comes_in(headed, frame_type, body.len(), body + tail);
    let sized = headed.step();
    assert(sized.rest.take(body.len() as int) =~= body);
    assert(sized.rest.skip(body.len() as int) =~= tail);
    assert(state.after(3) == sized.step()) by {
        reveal_with_fuel(Receiving::after, 4);
    }
}

/// Whether the file of `content` is as far received as its first `n` chunks.
spec fn received_up_to(
    state: Receiving,
    announcement: ManifestFields,
    content: Seq<u8>,
    n: nat,
) -> bool {
    let landing = Landing::after(content.len() as u64, in_order(content, n));
    &&& state.reception == (Reception {
        stage: Stage::Header,
        file: Some(Incoming { announcement, received: landing.received }),
    })
    &&& state.want == Want::Read(HEADER_LEN as nat)
    &&& state.disk == landing.disk
    &&& state.rest == frames_from(content, n)
}

/// The first `n` chunks of `content`, each once and in order.
pub open spec fn in_order(content: Seq<u8>, n: nat) -> Seq<(u32, Seq<u8>)> {
    Seq::new(n, |k: int| (k as u32, chunk_of(content, k)))
}

/// After the first `n` chunks, those are marked as received and the others are not.
proof fn marks_in_order(content: Seq<u8>, n: nat)
    requires
        n <= chunk_count(content.len()),
        content.len() <= u64::MAX,
    ensures
        ({
            let received = Landing::after(content.len() as u64, in_order(content, n)).received;
            &&& received.len() == chunk_count(content.len())
            &&& forall|i: int| 0 <= i < received.len() ==> (received[i] <==> i < n)
        }),
    decreases n,
{
    if n > 0 {
        marks_in_order(content, (n - 1) as nat);
        assert(in_order(content, n).drop_last() =~= in_order(content, (n - 1) as nat));
    }
}

/// Five steps take in the next chunk.
proof fn chunk_comes_in(state: Receiving, announcement: ManifestFields, content: Seq<u8>, n: nat)
    requires
        content.len() <= u64::MAX,
        countable(content.len()),
        n < chunk_count(content.len()),
        received_up_to(state, announcement, content, n),
    ensures
        received_up_to(state.after(5), announcement, content, n + 1),
{
    let index = n as u32;
    let data = chunk_of(content, n as int);
    law_chunks_tile_the_file(content.len(), 0, n as int);
    assert(data.len() <= u32::MAX);
    let body = chunk_wire(index, data.len() as u32);
    let tail = data + frames_from(content, n + 1);
    varint_is_short(index as nat);
    varint_is_short(data.len());
    assert(state.rest =~= frame_of(TYPE_FILE_CHUNK_PAYLOAD, index, body) + tail);
    frame_comes_in(state, TYPE_FILE_CHUNK_PAYLOAD, index, body, tail);
    law_chunk_header_survives_the_wire(index, data.len() as u32, Seq::empty());
    assert(body + Seq::<u8>::empty() =~= body);
    let headed = state.after(3);
    assert(headed.want == Want::Read(data.len()));
    assert(headed.rest.take(data.len() as int) =~= data);
    assert(headed.rest.skip(data.len() as int) =~= frames_from(content, n + 1));
    marks_in_order(content, n);
    let written = headed.step();
    steps_add_up(state, 3, 2);
    reveal_with_fuel(Receiving::after, 3);
    assert(in_order(content, n + 1).drop_last() =~= in_order(content, n));
    assert(state.after(5) == written.step());
}

/// Going on for five steps per chunk takes in the first `n` chunks.
proof fn chunks_come_in(state: Receiving, announcement: ManifestFields, content: Seq<u8>, n: nat)
    requires
        content.len() <= u64::MAX,
        countable(content.len()),
        n <= chunk_count(content.len()),
        received_up_to(state, announcement, content, 0),
    ensures
        received_up_to(state.after(5 * n), announcement, content, n),
    decreases n,
{
    if n > 0 {
        chunks_come_in(state, announcement, content, (n - 1) as nat);
        chunk_comes_in(state.after((5 * (n - 1)) as nat), announcement, content, (n - 1) as nat);
        steps_add_up(state, (5 * (n - 1)) as nat, 5);
    }
}

/// A file that is sent is received as it was: when all that is sent for it has come in, on a disk
/// that does not fail, the transfer is complete and the file on disk is the file that was sent.
/// Left out are files whose chunks the sender or the receiver cannot count, and announcements too
/// long for the size in front of them.
pub proof fn law_a_sent_file_is_received(
    transfer_id: Seq<char>,
    file_name: Seq<char>,
    root: Seq<u8>,
    content: Seq<u8>,
)
    requires
        root.len() == 32,
        countable(content.len()),
        chunk_count(content.len()) <= usize::MAX / 8,
        encode_utf8(transfer_id).len() <= usize::MAX,
        encode_utf8(file_name).len() <= usize::MAX,
        announcement_of(transfer_id, file_name, content.len() as u64, root).wire().len()
            < 0x1_0000_0000,
    ensures
        ({
            let announcement = announcement_of(
                transfer_id,
                file_name,
                content.len() as u64,
                root,
            );
            let end = Receiving::start(file_stream(announcement, content)).after(
                4 + 5 * chunk_count(content.len()),
            );
            &&& end.rest == Seq::<u8>::empty()
            &&& end.reception.stage is Header
            &&& end.reception.file matches Some(file) && file.announcement == announcement
                && complete(file.received)
            &&& end.disk == content
        }),
{
    let size = content.len() as u64;
    let announcement = announcement_of(transfer_id, file_name, size, root);
    let body = announcement.wire();
    let total = chunk_count(content.len());
    let start = Receiving::start(file_stream(announcement, content));
    frame_comes_in(start, TYPE_FILE_MANIFEST, 0, body, frames_from(content, 0));
    law_manifest_survives_the_wire(announcement, Seq::empty());
    assert(body + Seq::<u8>::empty() =~= body);
    steps_add_up(start, 3, 1);
    reveal_with_fuel(Receiving::after, 2);
    let opened = start.after(4);
    assert(in_order(content, 0) =~= Seq::empty());
    assert(received_up_to(opened, announcement, content, 0));
    chunks_come_in(opened, announcement, content, total);
    steps_add_up(start, 4, 5 * total);
    marks_in_order(content, total);
    let landing = Landing::after(size, in_order(content, total));
    assert(complete(landing.received));
    assert(faithful(content, in_order(content, total)));
    law_a_complete_file_is_the_sent_file(content, size, in_order(content, total));
}

/// The receiver of a file asks for it to be created under the name that the sender was given, and
/// with its size, before anything of it is written.
pub proof fn law_a_file_is_received_under_its_name(
    transfer_id: Seq<char>,
    file_name: Seq<char>,
    root: Seq<u8>,
    content: Seq<u8>,
)
    requires
        root.len() == 32,
        content.len() <= u64::MAX,
        encode_utf8(transfer_id).len() <= usize::MAX,
        encode_utf8(file_name).len() <= usize::MAX,
        announcement_of(transfer_id, file_name, content.len() as u64, root).wire().len()
            < 0x1_0000_0000,
    ensures
        ({
            let announcement = announcement_of(
                transfer_id,
                file_name,
                content.len() as u64,
                root,
            );
            let asked = Receiving::start(file_stream(announcement, content)).after(3);
            &&& asked.want matches Want::Open(name, last) && name == file_name && (
            last matches Some(position) ==> position + 1 == content.len()) && (last is None
                <==> content.len() == 0)
            &&& asked.disk == Seq::<u8>::empty()
        }),
{
    let announcement = announcement_of(transfer_id, file_name, content.len() as u64, root);
    let body = announcement.wire();
    let start = Receiving::start(file_stream(announcement, content));
    frame_comes_in(start, TYPE_FILE_MANIFEST, 0, body, frames_from(content, 0));
    law_an_announcement_carries_what_it_was_made_with(
        transfer_id,
        file_name,
        content.len() as u64,
        root,
    );
    law_manifest_survives_the_wire(announcement, Seq::empty());
    assert(body + Seq::<u8>::empty() =~= body);
}

} // verus!
