//! Static keys, and the two sides of the Noise IK handshake.

use crate::crypto::noise::{
    curve_public, draw_keypair, noise_initiator, noise_remote_static, noise_responder,
    parse_pattern, start_initiator, start_responder, MAX_PRIVATE_KEY, MAX_REMOTE_KEY,
};
use vstd::prelude::*;

verus! {

// We use Curve25519 for DH, ChaCha20-Poly1305 for AEAD, and BLAKE2s for hashing.
pub const NOISE_PATTERN: &'static str = "Noise_IK_25519_ChaChaPoly_BLAKE2s";

/// A static Curve25519 key pair.
pub struct Keypair {
    pub private: Vec<u8>,
    pub public: Vec<u8>,
}

impl Keypair {
    /// Both keys have 32 bytes, and the public key belongs to the private one.
    pub open spec fn matched(&self) -> bool {
        &&& self.private@.len() == 32
        &&& self.public@.len() == 32
        &&& self.public@ == curve_public(self.private@)
    }
}

/// Why a handshake did not come about.
#[derive(Debug)]
pub enum HandshakeError {
    /// The protocol name is not supported.
    Pattern(snow::Error),
    /// No key pair could be drawn.
    Keypair(snow::Error),
    /// The initiator state could not be built.
    Initiator(snow::Error),
    /// The responder state could not be built.
    Responder(snow::Error),
    /// A handshake message could not be written.
    Write(snow::Error),
    /// A handshake message was not accepted.
    Read(snow::Error),
    /// The stream closed before the peer's message arrived.
    Closed,
    /// The peer's static key is not known at the end.
    Anonymous,
    /// The handshake did not finish.
    Unfinished(snow::Error),
}

/// Generates a new static Curve25519 keypair for a Decentis node.
pub fn generate_static_keypair() -> (generated: Result<Keypair, HandshakeError>)
    ensures
        generated matches Ok(keypair) ==> keypair.matched(),
        generated matches Err(e) ==> e is Keypair,
{
    match parse_pattern(NOISE_PATTERN) {
        Ok(params) => match draw_keypair(params) {
            Ok(keypair) => Ok(keypair),
            Err(e) => Err(HandshakeError::Keypair(e)),
        },
        Err(e) => Err(HandshakeError::Pattern(e)),
    }
}

/// Creates a Noise_IK Initiator state.
/// The initiator MUST know the responder's static public key in advance.
pub fn build_initiator(local_keypair: &Keypair, remote_pub_key: &[u8]) -> (built: Result<
    snow::HandshakeState,
    HandshakeError,
>)
    requires
        local_keypair.private@.len() <= MAX_PRIVATE_KEY,
        remote_pub_key@.len() <= MAX_REMOTE_KEY,
    ensures
        built is Ok,
        built->Ok_0 == noise_initiator(local_keypair.private@, remote_pub_key@),
{
    match parse_pattern(NOISE_PATTERN) {
        Ok(params) => match start_initiator(
            params,
            local_keypair.private.as_slice(),
            remote_pub_key,
        ) {
            Ok(state) => Ok(state),
            Err(e) => Err(HandshakeError::Initiator(e)),
        },
        Err(e) => Err(HandshakeError::Pattern(e)),
    }
}

/// Creates a Noise_IK Responder state.
/// The responder does not know the initiator's identity until the first packet arrives.
pub fn build_responder(local_keypair: &Keypair) -> (built: Result<
    snow::HandshakeState,
    HandshakeError,
>)
    requires
        local_keypair.private@.len() <= MAX_PRIVATE_KEY,
    ensures
        built is Ok,
        built->Ok_0 == noise_responder(local_keypair.private@),
        noise_remote_static(built->Ok_0) is None,
{
    match parse_pattern(NOISE_PATTERN) {
        Ok(params) => match start_responder(params, local_keypair.private.as_slice()) {
            Ok(state) => Ok(state),
            Err(e) => Err(HandshakeError::Responder(e)),
        },
        Err(e) => Err(HandshakeError::Pattern(e)),
    }
}

} // verus!
