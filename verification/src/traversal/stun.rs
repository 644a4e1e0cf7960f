//! Asking a STUN server for the address under which it sees us (RFC 5389).

use crate::traversal::address::{Endpoint, IpAddress};
use crate::wire::{
    be16, be32, from_be16, from_be32, join16, join32, law_big_endian_16, law_big_endian_32,
    law_bytes_count_by_their_place_16, law_bytes_count_by_their_place_32,
};
use vstd::prelude::*;

verus! {

/// The server to ask.
pub const STUN_SERVER: &'static str = "stun.l.google.com:19302";

/// How long to wait for the answer, in seconds.
pub const STUN_TIMEOUT_SECS: u64 = 3;

/// The number that marks a STUN message, and that addresses are masked with.
pub const STUN_MAGIC_COOKIE: u32 = 0x2112A442;

/// The upper half of the cookie, which ports are masked with.
pub const PORT_MASK: u16 = 0x2112;

/// The message type of a binding request.
pub const BINDING_REQUEST: u16 = 0x0001;

/// The message type of the answer to a binding request.
pub const BINDING_SUCCESS: u16 = 0x0101;

/// The attribute type of a masked address.
pub const XOR_MAPPED_ADDRESS: u16 = 0x0020;

/// The address family of an IPv4 address.
pub const FAMILY_IPV4: u8 = 0x01;

/// The length of the header of a STUN message.
pub const STUN_HEADER_LEN: usize = 20;

/// Why a response gives no address.
#[derive(Debug, PartialEq, Eq, Structural)]
pub enum StunError {
    /// It is shorter than the header of a message.
    TooShort,
    /// It is a message of this other type.
    UnexpectedType(u16),
    /// It holds no masked IPv4 address.
    NotFound,
}

/// What a walk over the attributes of a response comes upon.
#[derive(Debug, PartialEq, Eq, Structural)]
pub enum Scan {
    /// A masked IPv4 address, here without its mask.
    Found(Endpoint),
    /// The end of the attributes.
    NotFound,
    /// A masked address that the response ends within.
    Truncated,
}

/// The attribute of length `len`, filled up to a multiple of four bytes.
pub open spec fn padded(len: int) -> int {
    len + (4 - len % 4) % 4
}

/// What stands at `offset` and behind it.
pub open spec fn scan(response: Seq<u8>, offset: int) -> Scan
    decreases
            if offset <= response.len() {
                response.len() - offset
            } else {
                0
            },
{
    if offset < 0 || offset + 4 > response.len() {
        Scan::NotFound
    } else {
        let kind = from_be16(response.subrange(offset, offset + 2));
        let len = from_be16(response.subrange(offset + 2, offset + 4));
        let value = offset + 4;
        if kind != XOR_MAPPED_ADDRESS {
            scan(response, value + padded(len as int))
        } else if value + 2 > response.len() {
            Scan::Truncated
        } else if response[value + 1] != FAMILY_IPV4 {
            scan(response, value + padded(len as int))
        } else if value + 8 > response.len() {
            Scan::Truncated
        } else {
            Scan::Found(
                Endpoint {
                    ip: IpAddress::V4(
                        from_be32(response.subrange(value + 4, value + 8)) ^ STUN_MAGIC_COOKIE,
                    ),
                    port: from_be16(response.subrange(value + 2, value + 4)) ^ PORT_MASK,
                },
            )
        }
    }
}

/// The address in a response, or why there is none.
pub open spec fn mapped_address(response: Seq<u8>) -> Result<Endpoint, StunError> {
    if response.len() < STUN_HEADER_LEN {
        Err(StunError::TooShort)
    } else if from_be16(response.subrange(0, 2)) != BINDING_SUCCESS {
        Err(StunError::UnexpectedType(from_be16(response.subrange(0, 2))))
    } else {
        match scan(response, STUN_HEADER_LEN as int) {
            Scan::Found(address) => Ok(address),
            _ => Err(StunError::NotFound),
        }
    }
}

/// Whether a response is an answer that ends within the address it should give.
pub open spec fn truncated(response: Seq<u8>) -> bool {
    &&& response.len() >= STUN_HEADER_LEN
    &&& from_be16(response.subrange(0, 2)) == BINDING_SUCCESS
    &&& scan(response, STUN_HEADER_LEN as int) is Truncated
}

/// A binding request under this transaction number: its type, its length beyond the header, the
/// cookie, and the number.
pub open spec fn request_of(transaction_id: Seq<u8>) -> Seq<u8> {
    be16(BINDING_REQUEST) + be16(0) + be32(STUN_MAGIC_COOKIE) + transaction_id
}

/// Draws the number of a transaction: `rand::random`. Nothing is known of it but its length. It
/// panics on a machine that has no randomness to give.
#[verifier::external_body]
fn draw_transaction_id() -> (id: [u8; 12])
{
    rand::random()
}

/// Writes a binding request under this transaction number.
pub fn build_request(transaction_id: &[u8; 12]) -> (request: Vec<u8>)
    ensures
        request@ == request_of(transaction_id@),
{
    let mut request: Vec<u8> = vec![0x00, 0x01, 0x00, 0x00, 0x21, 0x12, 0xA4, 0x42];
    request.extend_from_slice(transaction_id);
    assert(request@ =~= request_of(transaction_id@));
    request
}

/// Writes a binding request under a random transaction number.
pub fn binding_request() -> (request: Vec<u8>)
    ensures
        exists|id: Seq<u8>| id.len() == 12 && request@ == #[trigger] request_of(id),
{
    let id = draw_transaction_id();
    assert(id@.len() == 12);
    build_request(&id)
}

/// The number that the two bytes at `at` stand for.
fn read16(bytes: &[u8], at: usize) -> (x: u16)
    requires
        at + 2 <= bytes@.len(),
    ensures
        x == from_be16(bytes@.subrange(at as int, at + 2)),
{
    let x = join16(bytes[at], bytes[at + 1]);
    assert(bytes@.subrange(at as int, at + 2) =~= seq![bytes@[at as int], bytes@[at + 1]]);
    x
}

/// The number that the four bytes at `at` stand for.
fn read32(bytes: &[u8], at: usize) -> (x: u32)
    requires
        at + 4 <= bytes@.len(),
    ensures
        x == from_be32(bytes@.subrange(at as int, at + 4)),
{
    let x = join32(bytes[at], bytes[at + 1], bytes[at + 2], bytes[at + 3]);
    assert(bytes@.subrange(at as int, at + 4) =~= seq![
        bytes@[at as int],
        bytes@[at + 1],
        bytes@[at + 2],
        bytes@[at + 3],
    ]);
    x
}

/// Walks over the attributes of a response that has a whole header.
fn scan_attributes(response: &[u8]) -> (found: Scan)
    requires
        response@.len() >= STUN_HEADER_LEN,
    ensures
        found == scan(response@, STUN_HEADER_LEN as int),
{
    let mut offset: usize = STUN_HEADER_LEN;
    while response.len() - offset >= 4
        invariant
            offset <= response@.len(),
            scan(response@, offset as int) == scan(response@, STUN_HEADER_LEN as int),
        decreases response@.len() - offset,
    {
        let kind: u16 = read16(response, offset);
        let len: usize = read16(response, offset + 2) as usize;
        let value: usize = offset + 4;
        let left: usize = response.len() - value;
        if kind == XOR_MAPPED_ADDRESS {
            if left < 2 {
                return Scan::Truncated;
            }
            if response[value + 1] == FAMILY_IPV4 {
                if left < 8 {
                    return Scan::Truncated;
                }
                let port: u16 = read16(response, value + 2) ^ PORT_MASK;
                let ip: u32 = read32(response, value + 4) ^ STUN_MAGIC_COOKIE;
                return Scan::Found(Endpoint { ip: IpAddress::V4(ip), port });
            }
        }
        let step: usize = len + (4 - len % 4) % 4;
        if step > left {
            assert(scan(response@, value + step) is NotFound);
            return Scan::NotFound;
        }
        offset = value + step;
    }
    Scan::NotFound
}

/// Whether a response is an answer that ends within the address it should give. Such a response
/// must not be handed to [`parse_response`].
pub fn is_truncated(response: &[u8]) -> (cut: bool)
    ensures
        cut == truncated(response@),
{
    if response.len() < STUN_HEADER_LEN || read16(response, 0) != BINDING_SUCCESS {
        return false;
    }
    match scan_attributes(response) {
        Scan::Truncated => true,
        _ => false,
    }
}

/// Reads our address out of a response. The first masked IPv4 address counts.
pub fn parse_response(response: &[u8]) -> (address: Result<Endpoint, StunError>)
    requires
        !truncated(response@),
    ensures
        address == mapped_address(response@),
{
    if response.len() < STUN_HEADER_LEN {
        return Err(StunError::TooShort);
    }
    let kind: u16 = read16(response, 0);
    if kind != BINDING_SUCCESS {
        return Err(StunError::UnexpectedType(kind));
    }
    match scan_attributes(response) {
        Scan::Found(address) => Ok(address),
        _ => Err(StunError::NotFound),
    }
}

/// An attribute of this type and value, filled up with zeros.
pub open spec fn attribute(kind: u16, value: Seq<u8>) -> Seq<u8> {
    be16(kind) + be16(value.len() as u16) + value + Seq::new(
        (padded(value.len() as int) - value.len()) as nat,
        |i: int| 0u8,
    )
}

/// The value of a masked address attribute.
pub open spec fn masked(ip: u32, port: u16) -> Seq<u8> {
    seq![0u8, FAMILY_IPV4] + be16(port ^ PORT_MASK) + be32(ip ^ STUN_MAGIC_COOKIE)
}

/// One attribute behind the other.
pub open spec fn attributes(list: Seq<(u16, Seq<u8>)>) -> Seq<u8>
    decreases list.len(),
{
    if list.len() == 0 {
        Seq::empty()
    } else {
        attribute(list[0].0, list[0].1) + attributes(list.skip(1))
    }
}

/// Whether an attribute gives no IPv4 address of ours: it has another type, or its address another
/// family.
pub open spec fn is_other(attribute: (u16, Seq<u8>)) -> bool {
    let (kind, value) = attribute;
    &&& value.len() <= u16::MAX
    &&& kind == XOR_MAPPED_ADDRESS ==> value.len() >= 2 && value[1] != FAMILY_IPV4
}

/// A server that masks our address as the protocol says tells us that address, whatever other
/// attributes stand in front of it, masked addresses of another family among them, and whatever
/// follows it.
#[verifier::spinoff_prover]
pub proof fn law_the_masked_address_is_found(
    header: Seq<u8>,
    others: Seq<(u16, Seq<u8>)>,
    ip: u32,
    port: u16,
    rest: Seq<u8>,
)
    requires
        header.len() == STUN_HEADER_LEN,
        from_be16(header.subrange(0, 2)) == BINDING_SUCCESS,
        forall|i: int| 0 <= i < others.len() ==> is_other(#[trigger] others[i]),
    ensures
        ({
            let response = header + attributes(others) + attribute(
                XOR_MAPPED_ADDRESS,
                masked(ip, port),
            ) + rest;
            &&& !truncated(response)
            &&& mapped_address(response) == Ok::<Endpoint, StunError>(
                Endpoint { ip: IpAddress::V4(ip), port },
            )
        }),
{
    let answer = attribute(XOR_MAPPED_ADDRESS, masked(ip, port)) + rest;
    let front = header + attributes(others);
    let response = front + attribute(XOR_MAPPED_ADDRESS, masked(ip, port)) + rest;
    assert(response =~= header + attributes(others) + answer);
    assert(response.subrange(0, 2) =~= header.subrange(0, 2));
    others_are_passed_over(header, others, answer);
    masked_address_is_unmasked(front, ip, port, rest);
}

/// The masked address is read back where it stands.
#[verifier::spinoff_prover]
proof fn masked_address_is_unmasked(front: Seq<u8>, ip: u32, port: u16, rest: Seq<u8>)
    ensures
        scan(
            front + attribute(XOR_MAPPED_ADDRESS, masked(ip, port)) + rest,
            front.len() as int,
        ) == Scan::Found(Endpoint { ip: IpAddress::V4(ip), port }),
{
    let value = masked(ip, port);
    let first = attribute(XOR_MAPPED_ADDRESS, value);
    let response = front + first + rest;
    let at = front.len() as int;
    assert(first.len() == 12);
    assert(response.subrange(at, at + 2) =~= be16(XOR_MAPPED_ADDRESS));
    assert(response[at + 5] == value[1]);
    assert(response.subrange(at + 6, at + 8) =~= be16(port ^ PORT_MASK));
    assert(response.subrange(at + 8, at + 12) =~= be32(ip ^ STUN_MAGIC_COOKIE));
    law_big_endian_16(XOR_MAPPED_ADDRESS, Seq::empty());
    law_big_endian_16(port ^ PORT_MASK, Seq::empty());
    law_big_endian_32(ip ^ STUN_MAGIC_COOKIE, Seq::empty());
    assert((port ^ 0x2112u16) ^ 0x2112u16 == port) by (bit_vector);
    assert((ip ^ 0x2112A442u32) ^ 0x2112A442u32 == ip) by (bit_vector);
}

/// An attribute that gives no IPv4 address is passed over.
#[verifier::spinoff_prover]
proof fn other_is_passed_over(front: Seq<u8>, other: (u16, Seq<u8>), rest: Seq<u8>)
    requires
        is_other(other),
    ensures
        scan(front + attribute(other.0, other.1) + rest, front.len() as int) == scan(
            front + attribute(other.0, other.1) + rest,
            (front.len() + attribute(other.0, other.1).len()) as int,
        ),
{
    let (kind, value) = other;
    let first = attribute(kind, value);
    let response = front + first + rest;
    let at = front.len() as int;
    assert(first.len() == 4 + padded(value.len() as int));
    assert(response.subrange(at, at + 2) =~= be16(kind));
    assert(response.subrange(at + 2, at + 4) =~= be16(value.len() as u16));
    law_big_endian_16(kind, Seq::empty());
    law_big_endian_16(value.len() as u16, Seq::empty());
    if kind == XOR_MAPPED_ADDRESS {
        assert(response[at + 5] == value[1]);
    }
}

/// Attributes that give no IPv4 address are passed over.
#[verifier::spinoff_prover]
proof fn others_are_passed_over(front: Seq<u8>, others: Seq<(u16, Seq<u8>)>, answer: Seq<u8>)
    requires
        forall|i: int| 0 <= i < others.len() ==> is_other(#[trigger] others[i]),
    ensures
        scan(front + attributes(others) + answer, front.len() as int) == scan(
            front + attributes(others) + answer,
            (front.len() + attributes(others).len()) as int,
        ),
    decreases others.len(),
{
    if others.len() > 0 {
        let first = attribute(others[0].0, others[0].1);
        let tail = others.skip(1);
        let response = front + attributes(others) + answer;
        assert(response =~= front + first + (attributes(tail) + answer));
        assert(response =~= (front + first) + attributes(tail) + answer);
        other_is_passed_over(front, others[0], attributes(tail) + answer);
        assert forall|i: int| 0 <= i < tail.len() implies is_other(#[trigger] tail[i]) by {
            assert(tail[i] == others[i + 1]);
        }
        others_are_passed_over(front + first, tail, answer);
    }
}

/// The space an attribute takes is the least multiple of four that holds it.
pub proof fn law_an_attribute_is_filled_up_to_four_bytes(len: int)
    requires
        len >= 0,
    ensures
        padded(len) % 4 == 0,
        len <= padded(len) < len + 4,
{
}

/// A walk stops where no attribute fits any more. An attribute of another type, or with an address
/// of another family, is passed over together with the bytes that fill it up to a multiple of four.
/// A masked IPv4 address ends the walk: its port is masked with the upper half of the cookie and
/// its number with the whole. A masked address that the response ends within is told apart.
pub proof fn law_the_walk_goes_by_the_bytes(response: Seq<u8>, at: int, next: int)
    requires
        0 <= at,
        at + 4 <= response.len() ==> next % 4 == (at + 4) % 4 && {
            let end = at + 4 + 256 * response[at + 2] + response[at + 3];
            end <= next < end + 4
        },
    ensures
        at + 4 > response.len() ==> scan(response, at) is NotFound,
        at + 4 <= response.len() ==> {
            let masked = response[at] == 0x00 && response[at + 1] == 0x20;
            &&& !masked ==> scan(response, at) == scan(response, next)
            &&& masked && at + 6 > response.len() ==> scan(response, at) is Truncated
            &&& masked && at + 6 <= response.len() && response[at + 5] != 1 ==> scan(response, at)
                == scan(response, next)
            &&& masked && at + 6 <= response.len() && response[at + 5] == 1 && at + 12
                > response.len() ==> scan(response, at) is Truncated
            &&& masked && at + 12 <= response.len() && response[at + 5] == 1 ==> {
                let port = (256 * response[at + 6] + response[at + 7]) as u16;
                let ip = (256 * (256 * (256 * response[at + 8] + response[at + 9]) + response[at
                    + 10]) + response[at + 11]) as u32;
                scan(response, at) == Scan::Found(
                    Endpoint { ip: IpAddress::V4(ip ^ 0x2112A442), port: port ^ 0x2112 },
                )
            }
        },
{
    if at + 4 <= response.len() {
        let kind = response.subrange(at, at + 2);
        let len = response.subrange(at + 2, at + 4);
        assert(kind[0] == response[at] && kind[1] == response[at + 1]);
        assert(len[0] == response[at + 2] && len[1] == response[at + 3]);
        law_bytes_count_by_their_place_16(0, kind);
        law_bytes_count_by_their_place_16(0, len);
        law_an_attribute_is_filled_up_to_four_bytes(from_be16(len) as int);
        assert(next == at + 4 + padded(from_be16(len) as int));
        if at + 12 <= response.len() {
            law_bytes_count_by_their_place_16(0, response.subrange(at + 6, at + 8));
            law_bytes_count_by_their_place_32(0, response.subrange(at + 8, at + 12));
        }
    }
}

/// A response gives an address only behind a whole header that starts with the bytes 1 and 1, and
/// then the one that a walk over what follows the header finds. Anything else is an error, the
/// first that applies.
pub proof fn law_a_response_is_read_behind_its_header(response: Seq<u8>)
    ensures
        response.len() < 20 ==> mapped_address(response) == Err::<Endpoint, StunError>(
            StunError::TooShort,
        ) && !truncated(response),
        response.len() >= 20 && !(response[0] == 1 && response[1] == 1) ==> (mapped_address(
            response,
        ) matches Err(StunError::UnexpectedType(kind)) && kind == 256 * response[0] + response[1])
            && !truncated(response),
        response.len() >= 20 && response[0] == 1 && response[1] == 1 ==> {
            &&& scan(response, 20) matches Scan::Found(address) ==> mapped_address(response)
                == Ok::<Endpoint, StunError>(address)
            &&& scan(response, 20) !is Found ==> mapped_address(response) == Err::<
                Endpoint,
                StunError,
            >(StunError::NotFound)
            &&& truncated(response) <==> scan(response, 20) is Truncated
        },
{
    if response.len() >= 20 {
        law_bytes_count_by_their_place_16(0, response.subrange(0, 2));
    }
}

/// A request is eight fixed bytes and then the number of the transaction.
pub proof fn law_a_request_is_marked_and_numbered(transaction_id: Seq<u8>)
    ensures
        request_of(transaction_id) == seq![
            0x00u8,
            0x01,
            0x00,
            0x00,
            0x21,
            0x12,
            0xA4,
            0x42,
        ] + transaction_id,
{
    assert(request_of(transaction_id) =~= seq![
        0x00u8,
        0x01,
        0x00,
        0x00,
        0x21,
        0x12,
        0xA4,
        0x42,
    ] + transaction_id);
}

/// The bytes of an attribute: its type, its length, its value and zeros up to a multiple of four.
/// Those of a masked IPv4 address: a zero, the family, and the masked numbers.
pub proof fn law_an_attribute_has_its_bytes(kind: u16, value: Seq<u8>, ip: u32, port: u16)
    requires
        value.len() <= 0xFFFF,
    ensures
        attribute(kind, value).len() % 4 == 0,
        value.len() + 4 <= attribute(kind, value).len() < value.len() + 8,
        256 * attribute(kind, value)[0] + attribute(kind, value)[1] == kind,
        256 * attribute(kind, value)[2] + attribute(kind, value)[3] == value.len(),
        attribute(kind, value).subrange(4, 4 + value.len() as int) == value,
        masked(ip, port).len() == 8,
        masked(ip, port)[0] == 0,
        masked(ip, port)[1] == 1,
        256 * masked(ip, port)[2] + masked(ip, port)[3] == port ^ 0x2112,
        256 * (256 * (256 * masked(ip, port)[4] + masked(ip, port)[5]) + masked(ip, port)[6])
            + masked(ip, port)[7] == ip ^ 0x2112A442,
{
    law_an_attribute_is_filled_up_to_four_bytes(value.len() as int);
    law_bytes_count_by_their_place_16(kind, Seq::empty());
    law_bytes_count_by_their_place_16(value.len() as u16, Seq::empty());
    law_bytes_count_by_their_place_16(port ^ PORT_MASK, Seq::empty());
    law_bytes_count_by_their_place_32(ip ^ STUN_MAGIC_COOKIE, Seq::empty());
    assert(attribute(kind, value).subrange(4, 4 + value.len() as int) =~= value);
}

} // verus!
