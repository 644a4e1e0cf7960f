//! The decision and protocol core of a Decentis mesh node.
//!
//! Sockets, files, timers, the async runtime and the protobuf form of the control and signaling
//! messages live outside this crate. What the node decides and computes, and the bytes of its own
//! frames and messages, live here, with contracts.

pub mod config;
pub mod control;
pub mod crypto;
pub mod file_relay;
pub mod transport;
pub mod traversal;
pub mod tun;
pub mod wire;
