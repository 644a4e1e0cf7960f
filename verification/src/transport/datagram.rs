//! Carrying packets between the virtual interface and a peer.

use crate::transport::buffer::{copy_from_slice, held};
use vstd::prelude::*;

verus! {

/// The size of the buffer that a packet from the virtual interface is read into.
pub const PACKET_BUFFER: usize = 1500;

/// What happened after a [`BridgeAction`].
pub enum BridgeEvent {
    /// A packet came in.
    Received(bytes::Bytes),
    /// No packet can be received any more.
    ReceiveFailed,
    /// The packet was passed on.
    Forwarded,
    /// The packet could not be passed on.
    ForwardFailed,
}

/// What a direction of the bridge wants done.
pub enum BridgeAction {
    /// Receive a packet.
    Receive,
    /// Pass this packet on.
    Forward(bytes::Bytes),
    /// Nothing more.
    Stop,
}

/// The packet that was read into the first `len` bytes of `buf`.
pub fn packet(buf: &[u8], len: usize) -> (packet: bytes::Bytes)
    requires
        len <= buf@.len(),
    ensures
        held(packet) == buf@.take(len as int),
{
    let read = vstd::slice::slice_subrange(buf, 0, len);
    assert(read@ =~= buf@.take(len as int));
    copy_from_slice(read)
}

/// One direction of the bridge: every packet that comes in is passed on, then the next one is
/// received, until something fails.
pub fn bridge_step(event: BridgeEvent) -> (action: BridgeAction)
    ensures
        action == match event {
            BridgeEvent::Received(packet) => BridgeAction::Forward(packet),
            BridgeEvent::Forwarded => BridgeAction::Receive,
            BridgeEvent::ReceiveFailed => BridgeAction::Stop,
            BridgeEvent::ForwardFailed => BridgeAction::Stop,
        },
{
    match event {
        BridgeEvent::Received(packet) => BridgeAction::Forward(packet),
        BridgeEvent::Forwarded => BridgeAction::Receive,
        BridgeEvent::ReceiveFailed => BridgeAction::Stop,
        BridgeEvent::ForwardFailed => BridgeAction::Stop,
    }
}

} // verus!
