//! An established session: encryption with increasing sequence numbers, and decryption behind
//! the replay filter.

use crate::crypto::noise::{
    noise_opened, noise_sealed, open, paired, seal, MAX_MESSAGE, TAG_LEN,
};
use crate::crypto::replay::{history, law_no_packet_is_accepted_twice, ReplayFilter, Window};
use vstd::prelude::*;

verus! {

/// Why a packet was not encrypted or not decrypted.
#[derive(Debug)]
pub enum SessionError {
    /// The payload could not be encrypted.
    Encryption(snow::Error),
    /// The packet with this sequence number was dropped by the replay filter.
    Replayed(u64),
    /// The packet could not be decrypted.
    Decryption(snow::Error),
}

/// Manages an active cryptographic session with a peer.
pub struct ActiveSession {
    transport: snow::StatelessTransportState,
    replay_filter: ReplayFilter,
    tx_seq: u64,
}

impl ActiveSession {
    /// The keys that the handshake ended in.
    pub closed spec fn transport(&self) -> snow::StatelessTransportState {
        self.transport
    }

    /// What the session remembers of the packets it was given to decrypt.
    pub closed spec fn window(&self) -> Window {
        self.replay_filter@
    }

    /// The sequence number of the next packet to encrypt.
    pub closed spec fn next_seq(&self) -> u64 {
        self.tx_seq
    }

    /// Creates a new ActiveSession from a completed Noise_IK handshake.
    pub fn new(transport: snow::StatelessTransportState) -> (session: Self)
        ensures
            session.transport() == transport,
            session.window() == Window::empty(),
            session.next_seq() == 0,
    {
        ActiveSession { transport, replay_filter: ReplayFilter::new(), tx_seq: 0 }
    }

    /// Encrypts a plaintext payload.
    /// Returns the sequence number used and the length of the ciphertext.
    ///
    /// The sequence number is used up whether or not the encryption succeeds, so no two packets
    /// share one. A session that came out of a handshake encrypts every payload that fits a
    /// message and the buffer; a longer one is refused.
    pub fn encrypt(&mut self, plaintext: &[u8], ciphertext: &mut [u8]) -> (sealed: Result<
        (u64, usize),
        SessionError,
    >)
        requires
            old(self).next_seq() < u64::MAX,
        ensures
            final(self).next_seq() == old(self).next_seq() + 1,
            final(self).transport() == old(self).transport(),
            final(self).window() == old(self).window(),
            sealed is Ok <==> noise_sealed(
                old(self).transport(),
                old(self).next_seq(),
                plaintext@,
            ) is Some && plaintext@.len() + TAG_LEN <= old(ciphertext)@.len(),
            sealed matches Ok((seq, len)) ==> {
                &&& seq == old(self).next_seq()
                &&& len == plaintext@.len() + TAG_LEN
                &&& len <= MAX_MESSAGE
                &&& final(ciphertext)@ == noise_sealed(
                    old(self).transport(),
                    seq,
                    plaintext@,
                )->0 + old(ciphertext)@.skip(len as int)
                &&& noise_sealed(old(self).transport(), seq, plaintext@)->0.len() == len
            },
            sealed matches Err(e) ==> e is Encryption && final(ciphertext)@ == old(ciphertext)@,
            forall|far: snow::StatelessTransportState| #[trigger]
                paired(old(self).transport(), far) && plaintext@.len() + TAG_LEN <= MAX_MESSAGE
                    && plaintext@.len() + TAG_LEN <= old(ciphertext)@.len() ==> sealed is Ok,
    {
        let seq = self.tx_seq;
        self.tx_seq = self.tx_seq + 1;  // Monotonically increase for the next packet
        match seal(&self.transport, seq, plaintext, ciphertext) {
            Ok(len) => Ok((seq, len)),
            Err(e) => Err(SessionError::Encryption(e)),
        }
    }

    /// Decrypts a ciphertext payload.
    /// Checks the anti-replay window FIRST before allocating CPU cycles to decryption.
    ///
    /// A packet that passes the filter is marked as seen whether or not it decrypts. A packet
    /// that the peer's session encrypted under this sequence number gives back what the peer
    /// encrypted.
    pub fn decrypt(&mut self, seq: u64, ciphertext: &[u8], plaintext: &mut [u8]) -> (opened: Result<
        usize,
        SessionError,
    >)
        ensures
            final(self).window() == old(self).window().offer(seq),
            final(self).transport() == old(self).transport(),
            final(self).next_seq() == old(self).next_seq(),
            final(plaintext)@.len() == old(plaintext)@.len(),
            !old(self).window().accepts(seq) <==> (opened matches Err(e) && e is Replayed),
            !old(self).window().accepts(seq) ==> final(plaintext)@ == old(plaintext)@ && opened
                == Err::<usize, SessionError>(SessionError::Replayed(seq)),
            opened is Ok <==> old(self).window().accepts(seq) && (noise_opened(
                old(self).transport(),
                seq,
                ciphertext@,
            ) matches Some(p) && p.len() <= old(plaintext)@.len()),
            opened matches Ok(len) ==> {
                &&& len == noise_opened(old(self).transport(), seq, ciphertext@)->0.len()
                &&& len + TAG_LEN == ciphertext@.len()
                &&& ciphertext@.len() <= MAX_MESSAGE
                &&& seq < u64::MAX
                &&& final(plaintext)@ == noise_opened(
                    old(self).transport(),
                    seq,
                    ciphertext@,
                )->0 + old(plaintext)@.skip(len as int)
            },
            opened matches Err(e) ==> e is Replayed || e is Decryption,
            forall|far: snow::StatelessTransportState, p: Seq<u8>|
                paired(far, old(self).transport()) && #[trigger] noise_sealed(far, seq, p) == Some(
                    ciphertext@,
                ) && old(self).window().accepts(seq) && p.len() <= old(plaintext)@.len()
                    ==> opened is Ok && opened->Ok_0 == p.len() && final(plaintext)@.take(
                    p.len() as int,
                ) == p,
    {
        // 1. Check the replay filter
        if !self.replay_filter.check_and_mark(seq) {
            return Err(SessionError::Replayed(seq));
        }
        // 2. Perform ChaCha20-Poly1305 decryption and MAC authentication
        match open(&self.transport, seq, ciphertext, plaintext) {
            Ok(len) => Ok(len),
            Err(e) => Err(SessionError::Decryption(e)),
        }
    }
}

/// A packet that was handed to a session is refused when it comes again, straight away or after
/// other packets, whether or not it was accepted the first time.
pub proof fn law_a_packet_is_refused_when_it_comes_again(seqs: Seq<u64>, seq: u64)
    requires
        seqs.contains(seq),
    ensures
        !history(seqs).accepts(seq),
{
    let i = choose|i: int| 0 <= i < seqs.len() && seqs[i] == seq;
    let again = seqs.push(seq);
    law_no_packet_is_accepted_twice(again, i, seqs.len() as int);
    assert(again.take(seqs.len() as int) =~= seqs);
}

} // verus!
