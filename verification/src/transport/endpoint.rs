//! The settings of the QUIC endpoint, and the certificate it presents.

use vstd::prelude::*;
use vstd::string::StringExecFns;

verus! {

/// The host name that certificates are made out to, and that peers are dialed under.
pub const SERVER_NAME: &'static str = "decentis.local";

/// The application protocol that the endpoint offers.
pub const APPLICATION_PROTOCOL: &'static str = "decentis-mesh";

/// The size of the buffer for incoming datagrams, in bytes.
pub const DATAGRAM_RECEIVE_BUFFER: usize = 65536;

/// How often a quiet connection is kept alive, in seconds.
pub const KEEP_ALIVE_SECS: u64 = 10;

/// Why there is no certificate.
#[derive(Debug)]
pub enum EndpointError {
    /// The certificate could not be made.
    Certificate(rcgen::Error),
}

/// A certificate chain and the private key it belongs to, in DER.
pub struct CertifiedKey {
    pub chain: Vec<Vec<u8>>,
    pub key: Vec<u8>,
}

/// Why `rcgen` could not make a certificate.
#[verifier::external_type_specification]
#[verifier::external_body]
pub struct ExRcgenError(rcgen::Error);

/// Whether `certificate` is a self-signed certificate that is valid for `host` and belongs to the
/// private key `key`.
pub uninterp spec fn certifies(certificate: Seq<u8>, key: Seq<u8>, host: Seq<char>) -> bool;

/// Makes a new key and a certificate of it for `host`: `rcgen::generate_simple_self_signed`. Which
/// key it is, is left to chance, and so is success. Of the bytes only what they are is claimed.
#[verifier::external_body]
fn self_signed(host: String) -> (made: Result<(Vec<u8>, Vec<u8>), rcgen::Error>)
    ensures
        made matches Ok((certificate, key)) ==> certifies(certificate@, key@, host@),
{
    rcgen::generate_simple_self_signed(vec![host]).map(
        |made| (made.cert.der().to_vec(), made.signing_key.serialize_der()),
    )
}

/// What comes of an attempt to make a certificate and its key: a chain of that one certificate with
/// the key, or the reason why there is none.
pub fn certified_key(made: Result<(Vec<u8>, Vec<u8>), rcgen::Error>) -> (certified: Result<
    CertifiedKey,
    EndpointError,
>)
    ensures
        match made {
            Ok((certificate, key)) => certified matches Ok(c) && c.chain@ == seq![certificate]
                && c.key == key,
            Err(e) => certified == Err::<CertifiedKey, EndpointError>(
                EndpointError::Certificate(e),
            ),
        },
{
    match made {
        Ok((certificate, key)) => {
            let chain: Vec<Vec<u8>> = vec![certificate];
            assert(chain@ =~= seq![certificate]);
            Ok(CertifiedKey { chain, key })
        },
        Err(e) => Err(EndpointError::Certificate(e)),
    }
}

/// Generates an in-memory self-signed certificate for the QUIC TLS handshake, made out to
/// [`SERVER_NAME`]. Only the making of the certificate can fail; what comes of it is what
/// [`certified_key`] says.
pub fn generate_dummy_cert() -> (made: Result<CertifiedKey, EndpointError>)
    ensures
        made matches Ok(certified) ==> certified.chain@.len() == 1 && certifies(
            certified.chain@[0]@,
            certified.key@,
            SERVER_NAME@,
        ),
        made matches Err(e) ==> e is Certificate,
{
    certified_key(self_signed(String::from_str(SERVER_NAME)))
}

} // verus!
