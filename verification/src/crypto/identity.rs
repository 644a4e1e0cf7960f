//! The persistent identity of a node: a static key pair, and the record that keeps it on disk.

use crate::crypto::handshake::{generate_static_keypair, HandshakeError, Keypair};
use crate::file_relay::digest::{blake3_digest, ContentHasher};
use vstd::prelude::*;
use vstd::slice::{slice_subrange, slice_to_vec};

verus! {

/// Length of an identity record: a 32-byte public key and a 32-byte private key.
pub const RECORD_LEN: usize = 64;

/// What opening and reading the identity file came to.
pub enum IdentityFile {
    /// The file was read, and holds these bytes.
    Present(Vec<u8>),
    /// There is no such file.
    Absent,
    /// The file is there, but could not be opened or read.
    Unreadable,
}

/// The identity to run under.
pub struct Identity {
    pub keypair: Keypair,
    /// The record that has to be stored, if the identity is a new one.
    pub record: Option<Vec<u8>>,
}

/// Why there is no identity.
#[derive(Debug)]
pub enum IdentityError {
    /// The existing identity file could not be read.
    Unreadable,
    /// No new key pair could be generated.
    Generation(HandshakeError),
}

/// The record of a key pair: the public key, then the private key.
pub open spec fn record_of(keypair: Keypair) -> Seq<u8> {
    keypair.public@ + keypair.private@
}

/// Whether `record` is the record of some key pair, which its length decides.
pub open spec fn is_record(record: Seq<u8>) -> bool {
    record.len() == RECORD_LEN
}

/// The public half of a record.
pub open spec fn record_public(record: Seq<u8>) -> Seq<u8> {
    record.subrange(0, 32)
}

/// The private half of a record.
pub open spec fn record_private(record: Seq<u8>) -> Seq<u8> {
    record.subrange(32, 64)
}

/// Reads a key pair back from its record, if the record has the right length.
pub fn parse_record(record: &[u8]) -> (keypair: Option<Keypair>)
    ensures
        keypair is Some <==> is_record(record@),
        keypair matches Some(k) ==> k.public@ == record_public(record@) && k.private@
            == record_private(record@) && record_of(k) == record@,
{
    // A Curve25519 Keypair contains exactly 32 bytes public + 32 bytes private = 64 bytes
    if record.len() == RECORD_LEN {
        let public = slice_to_vec(slice_subrange(record, 0, 32));
        let private = slice_to_vec(slice_subrange(record, 32, 64));
        assert(public@ + private@ =~= record@);
        Some(Keypair { private, public })
    } else {
        None
    }
}

/// Writes the record of a key pair.
pub fn write_record(keypair: &Keypair) -> (record: Vec<u8>)
    ensures
        record@ == record_of(*keypair),
{
    let mut record: Vec<u8> = Vec::with_capacity(RECORD_LEN);
    record.extend_from_slice(keypair.public.as_slice());
    record.extend_from_slice(keypair.private.as_slice());
    assert(record@ =~= record_of(*keypair));
    record
}

/// Takes the persistent Noise keypair from what is on disk, or generates a new one, with the
/// record to be saved, if the file does not exist or does not have the size of a record.
pub fn load_or_generate_identity(stored: IdentityFile) -> (identity: Result<
    Identity,
    IdentityError,
>)
    ensures
        stored is Unreadable <==> (identity matches Err(e) && e is Unreadable),
        stored matches IdentityFile::Present(bytes) ==> (is_record(bytes@) ==> {
            &&& identity is Ok
            &&& identity->Ok_0.keypair.public@ == record_public(bytes@)
            &&& identity->Ok_0.keypair.private@ == record_private(bytes@)
            &&& identity->Ok_0.record is None
        }),
        !(stored matches IdentityFile::Present(bytes) && is_record(bytes@)) ==> (
        identity matches Ok(i) ==> {
            &&& i.keypair.matched()
            &&& i.record matches Some(r) && r@ == record_of(i.keypair)
        }),
        identity matches Err(e) ==> e is Unreadable || (e matches IdentityError::Generation(g) && g
            is Keypair),
{
    match stored {
        IdentityFile::Present(bytes) => {
            if let Some(keypair) = parse_record(bytes.as_slice()) {
                return Ok(Identity { keypair, record: None });
            }
        },
        IdentityFile::Absent => {},
        IdentityFile::Unreadable => {
            return Err(IdentityError::Unreadable);
        },
    }
    new_identity(generate_static_keypair())
}

/// Makes a freshly generated key pair an identity, with the record to be saved.
pub fn new_identity(generated: Result<Keypair, HandshakeError>) -> (identity: Result<
    Identity,
    IdentityError,
>)
    ensures
        generated matches Ok(k) ==> {
            &&& identity is Ok
            &&& identity->Ok_0.keypair == k
            &&& identity->Ok_0.record matches Some(r) && r@ == record_of(k)
        },
        generated matches Err(e) ==> identity is Err && identity->Err_0
            == IdentityError::Generation(e),
{
    match generated {
        Ok(keypair) => {
            let record = write_record(&keypair);
            Ok(Identity { keypair, record: Some(record) })
        },
        Err(e) => Err(IdentityError::Generation(e)),
    }
}

/// The virtual address of the node with this public key, as a number: in 10.99.0.0/16, with the
/// first two bytes of the digest of the key.
pub open spec fn virtual_address(public_key: Seq<u8>) -> int {
    let digest = blake3_digest(public_key);
    0x0A63_0000 + 0x100 * digest[0] + digest[1]
}

/// The virtual address of the node with this public key, as a number.
pub fn derive_virtual_ip(public_key: &[u8]) -> (ip: u32)
    ensures
        ip == virtual_address(public_key@),
{
    let mut hasher = ContentHasher::new();
    hasher.absorb(public_key);
    assert(hasher.content() =~= public_key@);
    let digest: [u8; 32] = hasher.digest();
    0x0A63_0000 + 0x100 * (digest[0] as u32) + digest[1] as u32
}

/// What is stored for a key pair is loaded back as that key pair.
pub proof fn law_record_restores_keypair(keypair: Keypair)
    requires
        keypair.public@.len() == 32,
        keypair.private@.len() == 32,
    ensures
        is_record(record_of(keypair)),
        record_public(record_of(keypair)) == keypair.public@,
        record_private(record_of(keypair)) == keypair.private@,
{
    assert(record_public(record_of(keypair)) =~= keypair.public@);
    assert(record_private(record_of(keypair)) =~= keypair.private@);
}

/// A virtual address lies in 10.99.0.0/16, and its two free bytes are the first two bytes of the
/// digest of the public key.
pub proof fn law_a_virtual_address_tells_the_digest(public_key: Seq<u8>)
    ensures
        0 <= virtual_address(public_key) <= u32::MAX,
        virtual_address(public_key) / 0x100_0000 == 10,
        virtual_address(public_key) / 0x1_0000 % 0x100 == 99,
        virtual_address(public_key) / 0x100 % 0x100 == blake3_digest(public_key)[0],
        virtual_address(public_key) % 0x100 == blake3_digest(public_key)[1],
{
}

/// A record is the public key and then the private key: its first 32 bytes are those of the one, in
/// order, and its last 32 those of the other; nothing but 64 bytes is a record.
pub proof fn law_a_record_is_public_then_private(keypair: Keypair, record: Seq<u8>, i: int)
    requires
        keypair.public@.len() == 32,
        keypair.private@.len() == 32,
        0 <= i < 32,
    ensures
        record_of(keypair).len() == 64,
        record_of(keypair)[i] == keypair.public@[i],
        record_of(keypair)[32 + i] == keypair.private@[i],
        is_record(record) <==> record.len() == 64,
        is_record(record) ==> record_public(record).len() == 32 && record_public(record)[i]
            == record[i] && record_private(record).len() == 32 && record_private(record)[i]
            == record[32 + i],
{
}

} // verus!
