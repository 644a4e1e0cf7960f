//! The calls into the `bytes` crate.
//!
//! Nothing in this file is proved. [`buffered`] names the bytes that a `BytesMut` holds and has
//! not handed out yet, and [`held`] those of a `Bytes`; every function makes one call, and its
//! contract is what the rest of the crate takes for granted about that call.

use crate::wire::{be16, be32};
use bytes::{Buf, BufMut};
use vstd::prelude::*;

verus! {

/// A growable byte buffer: written to at its end, read from its start.
#[verifier::external_type_specification]
#[verifier::external_body]
pub struct ExBytesMut(bytes::BytesMut);

/// An immutable byte string.
#[verifier::external_type_specification]
#[verifier::external_body]
pub struct ExBytes(bytes::Bytes);

/// The bytes in a buffer, from the next one to be read to the last one written.
pub uninterp spec fn buffered(buf: bytes::BytesMut) -> Seq<u8>;

/// The bytes of an immutable byte string.
pub uninterp spec fn held(bytes: bytes::Bytes) -> Seq<u8>;

/// An empty buffer: `BytesMut::with_capacity`.
#[verifier::external_body]
pub(crate) fn with_capacity(capacity: usize) -> (buf: bytes::BytesMut)
    requires
        capacity <= isize::MAX,
    ensures
        buffered(buf) == Seq::<u8>::empty(),
{
    bytes::BytesMut::with_capacity(capacity)
}

/// A buffer that holds a copy of `data`: `BytesMut::from`.
#[verifier::external_body]
pub(crate) fn copied(data: &[u8]) -> (buf: bytes::BytesMut)
    ensures
        buffered(buf) == data@,
{
    bytes::BytesMut::from(data)
}

/// Appends a byte: `BufMut::put_u8`. A buffer holds at most `isize::MAX` bytes.
#[verifier::external_body]
pub(crate) fn put_u8(buf: &mut bytes::BytesMut, x: u8)
    requires
        buffered(*old(buf)).len() + 1 <= isize::MAX,
    ensures
        buffered(*final(buf)) == buffered(*old(buf)) + seq![x],
{
    buf.put_u8(x)
}

/// Appends two bytes, highest first: `BufMut::put_u16`.
#[verifier::external_body]
pub(crate) fn put_u16(buf: &mut bytes::BytesMut, x: u16)
    requires
        buffered(*old(buf)).len() + 2 <= isize::MAX,
    ensures
        buffered(*final(buf)) == buffered(*old(buf)) + be16(x),
{
    buf.put_u16(x)
}

/// Appends four bytes, highest first: `BufMut::put_u32`.
#[verifier::external_body]
pub(crate) fn put_u32(buf: &mut bytes::BytesMut, x: u32)
    requires
        buffered(*old(buf)).len() + 4 <= isize::MAX,
    ensures
        buffered(*final(buf)) == buffered(*old(buf)) + be32(x),
{
    buf.put_u32(x)
}

/// The number of bytes left to read: `Buf::remaining`.
#[verifier::external_body]
pub(crate) fn remaining(buf: &bytes::BytesMut) -> (n: usize)
    ensures
        n == buffered(*buf).len(),
{
    buf.remaining()
}

/// Reads a byte: `Buf::get_u8`.
#[verifier::external_body]
pub(crate) fn get_u8(buf: &mut bytes::BytesMut) -> (x: u8)
    requires
        buffered(*old(buf)).len() >= 1,
    ensures
        x == buffered(*old(buf))[0],
        buffered(*final(buf)) == buffered(*old(buf)).skip(1),
{
    buf.get_u8()
}

/// Reads two bytes, highest first: `Buf::get_u16`.
#[verifier::external_body]
pub(crate) fn get_u16(buf: &mut bytes::BytesMut) -> (x: u16)
    requires
        buffered(*old(buf)).len() >= 2,
    ensures
        be16(x) == buffered(*old(buf)).take(2),
        buffered(*final(buf)) == buffered(*old(buf)).skip(2),
{
    buf.get_u16()
}

/// Reads four bytes, highest first: `Buf::get_u32`.
#[verifier::external_body]
pub(crate) fn get_u32(buf: &mut bytes::BytesMut) -> (x: u32)
    requires
        buffered(*old(buf)).len() >= 4,
    ensures
        be32(x) == buffered(*old(buf)).take(4),
        buffered(*final(buf)) == buffered(*old(buf)).skip(4),
{
    buf.get_u32()
}

/// Copies the bytes out, and leaves them where they are: `AsRef::<[u8]>::as_ref`.
#[verifier::external_body]
pub(crate) fn to_vec(buf: &bytes::BytesMut) -> (bytes: Vec<u8>)
    ensures
        bytes@ == buffered(*buf),
{
    buf.as_ref().to_vec()
}

/// Copies bytes into an immutable byte string: `Bytes::copy_from_slice`.
#[verifier::external_body]
pub(crate) fn copy_from_slice(data: &[u8]) -> (bytes: bytes::Bytes)
    ensures
        held(bytes) == data@,
{
    bytes::Bytes::copy_from_slice(data)
}

} // verus!
