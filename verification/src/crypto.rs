//! Cryptographic sessions between peers.

pub mod handshake;
pub mod identity;
pub mod key_text;
pub mod noise;
pub mod replay;
pub mod session;
