//! The calls into the `snow` implementation of the Noise protocol framework.
//!
//! Nothing in this file is proved. Every function makes one call into `snow`, and its contract is
//! what the rest of the crate takes for granted about that call. The functions `noise_params`,
//! `curve_public`, `noise_initiator`, `noise_responder`, `noise_written`, `noise_read`,
//! `noise_remote_static`, `noise_transport`, `noise_sealed` and `noise_opened` name what the calls
//! return; [`IkRun`] and [`paired`] are defined from them.

use crate::crypto::handshake::{Keypair, NOISE_PATTERN};
use vstd::prelude::*;

verus! {

/// Longest private key that a handshake can be built with.
pub const MAX_PRIVATE_KEY: usize = 32;

/// Longest remote public key that a handshake can be built with.
pub const MAX_REMOTE_KEY: usize = 56;

/// Room that a handshake message takes beside its payload: an ephemeral key, an encrypted static
/// key with its tag, and the tag of the payload.
pub const HANDSHAKE_OVERHEAD: usize = 96;

/// Length of the authentication tag that ends every transport message.
pub const TAG_LEN: usize = 16;

/// Longest Noise message.
pub const MAX_MESSAGE: usize = 65535;

/// The error type of `snow`.
#[verifier::external_type_specification]
#[verifier::external_body]
pub struct ExNoiseError(snow::Error);

/// The parsed form of a Noise protocol name.
#[verifier::external_type_specification]
#[verifier::external_body]
pub struct ExNoiseParams(snow::params::NoiseParams);

/// A Noise handshake in progress.
#[verifier::external_type_specification]
#[verifier::external_body]
pub struct ExHandshakeState(snow::HandshakeState);

/// The transport phase of a Noise session, with explicit nonces.
#[verifier::external_type_specification]
#[verifier::external_body]
pub struct ExStatelessTransportState(snow::StatelessTransportState);

/// What parsing a Noise protocol name gives, if it is a supported one.
pub uninterp spec fn noise_params(pattern: Seq<char>) -> Option<snow::params::NoiseParams>;

/// The Curve25519 public key that belongs to a private key.
pub uninterp spec fn curve_public(private: Seq<u8>) -> Seq<u8>;

/// The state of an IK initiator that holds the private key `local` and knows the responder's
/// public key `remote`, before any message.
pub uninterp spec fn noise_initiator(local: Seq<u8>, remote: Seq<u8>) -> snow::HandshakeState;

/// The state of an IK responder that holds the private key `local`, before any message.
pub uninterp spec fn noise_responder(local: Seq<u8>) -> snow::HandshakeState;

/// The state after, and the bytes of, the message with the given payload that a handshake writes
/// when the random source yields `ephemeral` as the ephemeral private key.
pub uninterp spec fn noise_written(
    state: snow::HandshakeState,
    payload: Seq<u8>,
    ephemeral: Seq<u8>,
) -> (snow::HandshakeState, Seq<u8>);

/// The state after, and the payload in, a message that a handshake reads, if it accepts it.
pub uninterp spec fn noise_read(state: snow::HandshakeState, message: Seq<u8>) -> Option<
    (snow::HandshakeState, Seq<u8>),
>;

/// The peer's static public key, once a handshake knows it.
pub uninterp spec fn noise_remote_static(state: snow::HandshakeState) -> Option<Seq<u8>>;

/// The transport phase that a handshake ends in, if it is finished.
pub uninterp spec fn noise_transport(state: snow::HandshakeState) -> Option<
    snow::StatelessTransportState,
>;

/// The message that carries `payload` under `nonce`, if the transport can write it.
pub uninterp spec fn noise_sealed(
    transport: snow::StatelessTransportState,
    nonce: u64,
    payload: Seq<u8>,
) -> Option<Seq<u8>>;

/// The payload of a message received under `nonce`, if the transport accepts it.
pub uninterp spec fn noise_opened(
    transport: snow::StatelessTransportState,
    nonce: u64,
    message: Seq<u8>,
) -> Option<Seq<u8>>;

/// Whether `params` is the parsed form of [`NOISE_PATTERN`].
pub open spec fn is_ik(params: snow::params::NoiseParams) -> bool {
    noise_params(NOISE_PATTERN@) == Some(params)
}

/// A run of the IK handshake in which every message arrives as it was written. It is determined
/// by the static and the ephemeral private keys of both sides.
pub struct IkRun {
    pub initiator: Seq<u8>,
    pub responder: Seq<u8>,
    pub initiator_ephemeral: Seq<u8>,
    pub responder_ephemeral: Seq<u8>,
}

impl IkRun {
    /// All four private keys have the length of a Curve25519 key.
    pub open spec fn well_formed(self) -> bool {
        &&& self.initiator.len() == 32
        &&& self.responder.len() == 32
        &&& self.initiator_ephemeral.len() == 32
        &&& self.responder_ephemeral.len() == 32
    }

    /// The initiator's state and message after it wrote.
    pub open spec fn opening(self) -> (snow::HandshakeState, Seq<u8>) {
        noise_written(
            noise_initiator(self.initiator, curve_public(self.responder)),
            Seq::empty(),
            self.initiator_ephemeral,
        )
    }

    /// What the responder makes of the opening message.
    pub open spec fn greeted(self) -> Option<(snow::HandshakeState, Seq<u8>)> {
        noise_read(noise_responder(self.responder), self.opening().1)
    }

    /// The responder's state and message after it replied.
    pub open spec fn reply(self) -> (snow::HandshakeState, Seq<u8>) {
        noise_written((self.greeted()->0).0, Seq::empty(), self.responder_ephemeral)
    }

    /// What the initiator makes of the reply.
    pub open spec fn settled(self) -> Option<(snow::HandshakeState, Seq<u8>)> {
        noise_read(self.opening().0, self.reply().1)
    }

    /// The initiator's transport.
    pub open spec fn initiator_end(self) -> Option<snow::StatelessTransportState> {
        noise_transport((self.settled()->0).0)
    }

    /// The responder's transport.
    pub open spec fn responder_end(self) -> Option<snow::StatelessTransportState> {
        noise_transport(self.reply().0)
    }

    /// `near` and `far` are the two transports that this run ends in.
    pub open spec fn joins(
        self,
        near: snow::StatelessTransportState,
        far: snow::StatelessTransportState,
    ) -> bool {
        &&& self.well_formed()
        &&& {
            ||| self.initiator_end() == Some(near) && self.responder_end() == Some(far)
            ||| self.initiator_end() == Some(far) && self.responder_end() == Some(near)
        }
    }
}

/// Whether two transports come out of one and the same handshake.
pub open spec fn paired(
    near: snow::StatelessTransportState,
    far: snow::StatelessTransportState,
) -> bool {
    exists|run: IkRun| #[trigger] run.joins(near, far)
}

/// Parses a protocol name: `NoiseParams::from_str`. The result is a function of the name, and
/// [`NOISE_PATTERN`] is a supported name.
#[verifier::external_body]
pub(crate) fn parse_pattern(pattern: &str) -> (params: Result<
    snow::params::NoiseParams,
    snow::Error,
>)
    ensures
        params matches Ok(p) ==> noise_params(pattern@) == Some(p),
        params is Err ==> noise_params(pattern@) is None,
        pattern@ == NOISE_PATTERN@ ==> params is Ok,
{
    pattern.parse()
}

/// Draws a new static key pair: `snow::Builder::generate_keypair`. Which key comes out is left to
/// chance, and so is success, as the random source can fail; both keys have 32 bytes, and the
/// public one belongs to the private one.
#[verifier::external_body]
pub(crate) fn draw_keypair(params: snow::params::NoiseParams) -> (drawn: Result<
    Keypair,
    snow::Error,
>)
    requires
        is_ik(params),
    ensures
        drawn matches Ok(k) ==> k.private@.len() == 32 && k.public@.len() == 32 && k.public@
            == curve_public(k.private@),
{
    snow::Builder::new(params).generate_keypair().map(
        |k| Keypair { private: k.private, public: k.public },
    )
}

/// Builds an initiator: `snow::Builder::build_initiator` with a local private key and a remote
/// public key. For the IK pattern it succeeds. It panics on longer keys than the contract admits.
#[verifier::external_body]
pub(crate) fn start_initiator(
    params: snow::params::NoiseParams,
    local: &[u8],
    remote: &[u8],
) -> (state: Result<snow::HandshakeState, snow::Error>)
    requires
        is_ik(params),
        local@.len() <= MAX_PRIVATE_KEY,
        remote@.len() <= MAX_REMOTE_KEY,
    ensures
        state is Ok && state->Ok_0 == noise_initiator(local@, remote@),
{
    snow::Builder::new(params).local_private_key(local)?.remote_public_key(
        remote,
    )?.build_initiator()
}

/// Builds a responder: `snow::Builder::build_responder` with a local private key. For the IK
/// pattern it succeeds, and the responder does not know any remote key yet. It panics on a longer
/// key than the contract admits.
#[verifier::external_body]
pub(crate) fn start_responder(params: snow::params::NoiseParams, local: &[u8]) -> (state: Result<
    snow::HandshakeState,
    snow::Error,
>)
    requires
        is_ik(params),
        local@.len() <= MAX_PRIVATE_KEY,
    ensures
        state is Ok && state->Ok_0 == noise_responder(local@),
        noise_remote_static(state->Ok_0) is None,
{
    snow::Builder::new(params).local_private_key(local)?.build_responder()
}

/// Writes a handshake message: `HandshakeState::write_message`. The message and the state after
/// it are a function of the state before, the payload and the ephemeral private key, which the
/// call draws at random. It can fail for want of randomness, out of turn, or on a payload that
/// does not fit a message. It can panic on a buffer shorter, or a payload longer, than the contract
/// admits.
#[verifier::external_body]
pub(crate) fn write_handshake(
    state: &mut snow::HandshakeState,
    payload: &[u8],
    message: &mut [u8],
) -> (written: Result<usize, snow::Error>)
    requires
        payload@.len() <= MAX_MESSAGE,
        old(message)@.len() >= payload@.len() + HANDSHAKE_OVERHEAD,
    ensures
        final(message)@.len() == old(message)@.len(),
        written matches Ok(n) ==> n <= final(message)@.len() && exists|ephemeral: Seq<u8>|
            ephemeral.len() == 32 && #[trigger] noise_written(*old(state), payload@, ephemeral) == (
            *final(state),
            final(message)@.take(n as int),
        ),
{
    state.write_message(payload, message)
}

/// Reads a handshake message: `HandshakeState::read_message`. Whether it is accepted, the payload
/// and the state after it are a function of the state before and the message; the payload has to
/// fit the buffer as well. In a run of the protocol without interference the responder accepts
/// the opening and then knows the initiator's public key, and the initiator accepts the reply.
/// Nothing is said of an opening that was made for another responder: that it is refused rests on
/// the strength of the cipher, and fails with a probability that is tiny but not zero.
#[verifier::external_body]
pub(crate) fn read_handshake(
    state: &mut snow::HandshakeState,
    message: &[u8],
    payload: &mut [u8],
) -> (read: Result<usize, snow::Error>)
    ensures
        final(payload)@.len() == old(payload)@.len(),
        read matches Ok(n) ==> n <= final(payload)@.len() && noise_read(*old(state), message@)
            == Some((*final(state), final(payload)@.take(n as int))),
        read is Err ==> (noise_read(*old(state), message@) matches Some((_, p)) ==> p.len() > old(
            payload,
        )@.len()),
        forall|run: IkRun|
            run.well_formed() && *old(state) == noise_responder(run.responder) && message@
                == #[trigger] run.opening().1 ==> read is Ok && read->Ok_0 == 0
                && noise_remote_static(*final(state)) == Some(curve_public(run.initiator)),
        forall|run: IkRun|
            run.well_formed() && *old(state) == run.opening().0 && message@
                == #[trigger] run.reply().1 ==> read is Ok && read->Ok_0 == 0,
{
    state.read_message(message, payload)
}

/// The peer's static public key: `HandshakeState::get_remote_static`, copied out.
#[verifier::external_body]
pub(crate) fn remote_static(state: &snow::HandshakeState) -> (key: Option<Vec<u8>>)
    ensures
        key matches Some(k) ==> noise_remote_static(*state) == Some(k@),
        key is None ==> noise_remote_static(*state) is None,
{
    state.get_remote_static().map(<[u8]>::to_vec)
}

/// Ends a handshake: `HandshakeState::into_stateless_transport_mode`. It succeeds on a finished
/// handshake, such as either side of a run without interference.
#[verifier::external_body]
pub(crate) fn into_transport(state: snow::HandshakeState) -> (transport: Result<
    snow::StatelessTransportState,
    snow::Error,
>)
    ensures
        transport matches Ok(t) ==> noise_transport(state) == Some(t),
        transport is Err ==> noise_transport(state) is None,
        forall|run: IkRun|
            run.well_formed() && state == ((#[trigger] run.settled())->0).0 ==> transport is Ok,
        forall|run: IkRun|
            run.well_formed() && state == (#[trigger] run.reply()).0 ==> transport is Ok,
{
    state.into_stateless_transport_mode()
}

/// Encrypts: `StatelessTransportState::write_message`. The bytes are a function of the transport,
/// the nonce and the payload; they have to fit the buffer, whose other bytes stay as they are.
/// A transport that a handshake ended in writes every payload that a message can hold, under any
/// nonce but the reserved highest one.
#[verifier::external_body]
pub(crate) fn seal(
    transport: &snow::StatelessTransportState,
    nonce: u64,
    payload: &[u8],
    message: &mut [u8],
) -> (written: Result<usize, snow::Error>)
    ensures
        written matches Ok(n) ==> {
            &&& noise_sealed(*transport, nonce, payload@) is Some
            &&& noise_sealed(*transport, nonce, payload@)->0.len() == n
            &&& n == payload@.len() + TAG_LEN
            &&& n <= MAX_MESSAGE
            &&& nonce < u64::MAX
            &&& n <= old(message)@.len()
            &&& final(message)@ == noise_sealed(*transport, nonce, payload@)->0 + old(
                message,
            )@.skip(n as int)
        },
        written is Err ==> final(message)@ == old(message)@ && (noise_sealed(
            *transport,
            nonce,
            payload@,
        ) is None || payload@.len() + TAG_LEN > old(message)@.len()),
        forall|far: snow::StatelessTransportState|
            #[trigger] paired(*transport, far) && nonce < u64::MAX && payload@.len() + TAG_LEN
                <= MAX_MESSAGE && payload@.len() + TAG_LEN <= old(message)@.len() ==> written is Ok,
{
    transport.write_message(nonce, payload, message)
}

/// Decrypts: `StatelessTransportState::read_message`. Whether the message is accepted, and its
/// payload, are a function of the transport, the nonce and the message; the payload has to fit
/// the buffer, whose other bytes then stay as they are. A message that the paired transport wrote
/// under the same nonce is accepted and gives back what was written. A message longer than the
/// longest one, or under the reserved highest nonce, is refused. After a refused message the buffer
/// has its old length, and nothing is said of its bytes.
#[verifier::external_body]
pub(crate) fn open(
    transport: &snow::StatelessTransportState,
    nonce: u64,
    message: &[u8],
    payload: &mut [u8],
) -> (read: Result<usize, snow::Error>)
    ensures
        final(payload)@.len() == old(payload)@.len(),
        read matches Ok(n) ==> {
            &&& noise_opened(*transport, nonce, message@) is Some
            &&& n == noise_opened(*transport, nonce, message@)->0.len()
            &&& n + TAG_LEN == message@.len()
            &&& message@.len() <= MAX_MESSAGE
            &&& nonce < u64::MAX
            &&& n <= old(payload)@.len()
            &&& final(payload)@ == noise_opened(*transport, nonce, message@)->0 + old(
                payload,
            )@.skip(n as int)
        },
        read is Err ==> (noise_opened(*transport, nonce, message@) matches Some(p) ==> p.len()
            > old(payload)@.len()),
        forall|far: snow::StatelessTransportState, p: Seq<u8>|
            paired(far, *transport) && #[trigger] noise_sealed(far, nonce, p) == Some(message@)
                && p.len() <= old(payload)@.len() ==> read is Ok && noise_opened(
                *transport,
                nonce,
                message@,
            ) == Some(p),
{
    transport.read_message(nonce, message, payload)
}

} // verus!
