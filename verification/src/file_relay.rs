//! Sending and receiving files in chunks.

pub mod bitmap;
pub mod chunker;
pub mod codec;
pub mod digest;
pub mod manifest;
pub mod writer;
