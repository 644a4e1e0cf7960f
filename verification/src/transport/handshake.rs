//! The messages of the Noise handshake that opens a connection.
//!
//! The dialing side sends an opening message and waits for the reply; the listening side waits for
//! the opening message and sends the reply. Both end in a session.

use crate::crypto::handshake::{build_initiator, build_responder, HandshakeError, Keypair};
use crate::crypto::noise::{
    curve_public, into_transport, noise_initiator, noise_read, noise_remote_static,
    noise_responder, noise_transport, noise_written, paired, read_handshake, remote_static,
    write_handshake, IkRun, MAX_PRIVATE_KEY, MAX_REMOTE_KEY,
};
use crate::crypto::replay::Window;
use crate::crypto::session::ActiveSession;
use vstd::prelude::*;

verus! {

/// The size of the buffer that a handshake message is written to or read from.
pub const HANDSHAKE_BUFFER: usize = 1024;

/// Whether a session is a fresh one over `transport`.
pub open spec fn fresh_session(
    session: ActiveSession,
    transport: snow::StatelessTransportState,
) -> bool {
    &&& session.transport() == transport
    &&& session.window() == Window::empty()
    &&& session.next_seq() == 0
}

/// The state of a handshake after `message` was read, if the message is accepted and its payload
/// fits the buffer.
pub open spec fn advanced(state: snow::HandshakeState, message: Seq<u8>) -> Option<
    snow::HandshakeState,
> {
    match noise_read(state, message) {
        Some((next, payload)) => if payload.len() <= HANDSHAKE_BUFFER {
            Some(next)
        } else {
            None
        },
        None => None,
    }
}

/// The dialing side, waiting for the reply.
pub struct Initiation {
    state: snow::HandshakeState,
}

/// The listening side, once it has read the opening message and written the reply.
pub struct Acceptance {
    state: snow::HandshakeState,
    remote: Option<Vec<u8>>,
}

/// Starts a handshake with the node whose public key is `remote_pub`, and gives the opening message
/// to send. Only the random source can make it fail.
pub fn initiate_noise_handshake(local_key: &Keypair, remote_pub: &[u8]) -> (opened: Result<
    (Initiation, Vec<u8>),
    HandshakeError,
>)
    requires
        local_key.private@.len() <= MAX_PRIVATE_KEY,
        remote_pub@.len() <= MAX_REMOTE_KEY,
    ensures
        opened matches Ok((initiation, message)) ==> message@.len() <= HANDSHAKE_BUFFER && exists|
            ephemeral: Seq<u8>,
        |
            ephemeral.len() == 32 && #[trigger] noise_written(
                noise_initiator(local_key.private@, remote_pub@),
                Seq::empty(),
                ephemeral,
            ) == (initiation.state(), message@),
        opened matches Err(e) ==> e is Write,
{
    match build_initiator(local_key, remote_pub) {
        Ok(mut state) => {
            let nothing: [u8; 0] = [];
            assert(nothing@ =~= Seq::empty());
            let mut buf: Vec<u8> = vec![0u8; HANDSHAKE_BUFFER];
            match write_handshake(&mut state, &nothing, buf.as_mut_slice()) {
                Ok(len) => {
                    let ghost message = buf@.take(len as int);
                    buf.truncate(len);
                    assert(buf@ =~= message);
                    Ok((Initiation { state }, buf))
                },
                Err(e) => Err(HandshakeError::Write(e)),
            }
        },
        Err(e) => Err(e),
    }
}

impl Initiation {
    /// The handshake so far.
    pub closed spec fn state(self) -> snow::HandshakeState {
        self.state
    }

    /// Ends the handshake with the reply, or with `None` if the stream closed before it came. The
    /// reply to the opening message of an undisturbed handshake ends in the dialing side's session.
    pub fn finish(self, reply: Option<&[u8]>) -> (session: Result<ActiveSession, HandshakeError>)
        ensures
            match reply {
                None => session matches Err(e) && e is Closed,
                Some(message) => match advanced(self.state(), message@) {
                    None => session matches Err(e) && e is Read,
                    Some(state) => match noise_transport(state) {
                        None => session matches Err(e) && e is Unfinished,
                        Some(transport) => session matches Ok(s) && fresh_session(s, transport),
                    },
                },
            },
            forall|run: IkRun|
                run.well_formed() && self.state() == run.opening().0 && (reply matches Some(
                    message,
                ) && message@ == #[trigger] run.reply().1) ==> session is Ok && Some(
                    session->Ok_0.transport(),
                ) == run.initiator_end(),
    {
        let message = match reply {
            Some(message) => message,
            None => {
                return Err(HandshakeError::Closed);
            },
        };
        let mut state = self.state;
        let mut buf: Vec<u8> = vec![0u8; HANDSHAKE_BUFFER];
        match read_handshake(&mut state, message, buf.as_mut_slice()) {
            Ok(_) => match into_transport(state) {
                Ok(transport) => Ok(ActiveSession::new(transport)),
                Err(e) => Err(HandshakeError::Unfinished(e)),
            },
            Err(e) => Err(HandshakeError::Read(e)),
        }
    }
}

/// Answers a handshake that another node started with the opening message `init`, or with `None`
/// if the stream closed before it came, and gives the reply to send. The opening message of an
/// undisturbed handshake tells who sent it.
pub fn respond_noise_handshake(local_key: &Keypair, init: Option<&[u8]>) -> (answered: Result<
    (Acceptance, Vec<u8>),
    HandshakeError,
>)
    requires
        local_key.private@.len() <= MAX_PRIVATE_KEY,
    ensures
        init is None <==> (answered matches Err(e) && e is Closed),
        init matches Some(message) ==> (advanced(
            noise_responder(local_key.private@),
            message@,
        ) is None <==> (answered matches Err(e) && e is Read)),
        answered matches Err(e) ==> e is Closed || e is Read || e is Write,
        answered matches Ok((acceptance, reply)) ==> {
            let state = advanced(noise_responder(local_key.private@), init->0@)->0;
            &&& reply@.len() <= HANDSHAKE_BUFFER
            &&& exists|ephemeral: Seq<u8>|
                ephemeral.len() == 32 && #[trigger] noise_written(state, Seq::empty(), ephemeral)
                    == (acceptance.state(), reply@)
            &&& acceptance.remote() == noise_remote_static(state)
        },
        forall|run: IkRun|
            run.well_formed() && local_key.private@ == run.responder && (init matches Some(message)
                && message@ == #[trigger] run.opening().1) ==> (answered matches Ok((a, _))
                ==> a.remote() == Some(curve_public(run.initiator))) && (answered matches Err(e)
                ==> e is Write),
{
    let message = match init {
        Some(message) => message,
        None => {
            return Err(HandshakeError::Closed);
        },
    };
    match build_responder(local_key) {
        Ok(mut state) => {
            let mut buf: Vec<u8> = vec![0u8; HANDSHAKE_BUFFER];
            match read_handshake(&mut state, message, buf.as_mut_slice()) {
                Ok(_) => {
                    let remote = remote_static(&state);
                    let nothing: [u8; 0] = [];
                    assert(nothing@ =~= Seq::empty());
                    match write_handshake(&mut state, &nothing, buf.as_mut_slice()) {
                        Ok(len) => {
                            let ghost reply = buf@.take(len as int);
                            buf.truncate(len);
                            assert(buf@ =~= reply);
                            Ok((Acceptance { state, remote }, buf))
                        },
                        Err(e) => Err(HandshakeError::Write(e)),
                    }
                },
                Err(e) => Err(HandshakeError::Read(e)),
            }
        },
        Err(e) => Err(e),
    }
}

impl Acceptance {
    /// The handshake so far.
    pub closed spec fn state(self) -> snow::HandshakeState {
        self.state
    }

    /// The public key of the node that dialed, if the handshake tells.
    pub closed spec fn remote(self) -> Option<Seq<u8>> {
        match self.remote {
            Some(key) => Some(key@),
            None => None,
        }
    }

    /// Ends the handshake once the reply is sent, and gives the session and the public key of the
    /// node that dialed. An undisturbed handshake ends in the listening side's session.
    pub fn finish(self) -> (ended: Result<(ActiveSession, Vec<u8>), HandshakeError>)
        ensures
            match noise_transport(self.state()) {
                None => ended matches Err(e) && e is Unfinished,
                Some(transport) => match self.remote() {
                    None => ended matches Err(e) && e is Anonymous,
                    Some(key) => ended matches Ok((session, remote)) && fresh_session(
                        session,
                        transport,
                    ) && remote@ == key,
                },
            },
            forall|run: IkRun|
                run.well_formed() && self.state() == (#[trigger] run.reply()).0
                    && self.remote() is Some ==> ended is Ok && Some((ended->Ok_0).0.transport())
                    == run.responder_end(),
    {
        match into_transport(self.state) {
            Ok(transport) => match self.remote {
                Some(remote) => Ok((ActiveSession::new(transport), remote)),
                None => Err(HandshakeError::Anonymous),
            },
            Err(e) => Err(HandshakeError::Unfinished(e)),
        }
    }
}

/// When the opening message and the reply arrive as they were written, the two sessions that come
/// out belong together: what one side encrypts, the other decrypts.
pub proof fn law_an_undisturbed_handshake_pairs_the_sessions(
    dialer: Keypair,
    listener: Keypair,
    opening: (snow::HandshakeState, Seq<u8>),
    reply: (snow::HandshakeState, Seq<u8>),
    dialer_ephemeral: Seq<u8>,
    listener_ephemeral: Seq<u8>,
    near: ActiveSession,
    far: ActiveSession,
)
    requires
        dialer.matched(),
        listener.matched(),
        dialer_ephemeral.len() == 32,
        listener_ephemeral.len() == 32,
        opening == noise_written(
            noise_initiator(dialer.private@, listener.public@),
            Seq::empty(),
            dialer_ephemeral,
        ),
        advanced(noise_responder(listener.private@), opening.1) matches Some(greeted) && reply
            == noise_written(greeted, Seq::empty(), listener_ephemeral),
        advanced(opening.0, reply.1) matches Some(settled) && noise_transport(settled) == Some(
            near.transport(),
        ),
        noise_transport(reply.0) == Some(far.transport()),
    ensures
        paired(near.transport(), far.transport()),
        paired(far.transport(), near.transport()),
{
    let run = IkRun {
        initiator: dialer.private@,
        responder: listener.private@,
        initiator_ephemeral: dialer_ephemeral,
        responder_ephemeral: listener_ephemeral,
    };
    assert(run.joins(near.transport(), far.transport()));
    assert(run.joins(far.transport(), near.transport()));
}

/// A message takes a handshake further exactly if the handshake accepts it and it carries no more
/// than 1024 bytes, and then to the state that reading it leads to.
pub proof fn law_an_accepted_message_takes_a_handshake_further(
    state: snow::HandshakeState,
    message: Seq<u8>,
)
    ensures
        advanced(state, message) is Some <==> (noise_read(state, message) matches Some((_, payload))
            && payload.len() <= 1024),
        advanced(state, message) matches Some(next) ==> (noise_read(state, message)->0).0 == next,
{
}

} // verus!
