//! What goes over a connection to a peer.

pub mod buffer;
pub mod datagram;
pub mod endpoint;
pub mod frame;
pub mod handshake;
pub mod stream;
pub mod transfer;
