//! The `postcard` format of manifests and chunk headers, and the calls into the `postcard` crate.
//!
//! The first part of this file spells the format out and proves that what is written is read back,
//! and that what is cut short is not.
//! The four functions at the end make one call each, and their contracts are taken for granted.
//! They hand values over as tuples: `postcard` writes the fields of a tuple one behind the other,
//! with nothing between them, exactly as it writes the fields of a struct.

use vstd::prelude::*;
use vstd::utf8::{
    decode_utf8, encode_utf8, encode_utf8_decode_utf8, encode_utf8_valid_utf8, valid_utf8,
};

verus! {

/// An integer on the wire: seven bits a byte, the lowest first, with the top bit of a byte saying
/// that another one follows.
pub open spec fn varint(x: nat) -> Seq<u8>
    decreases x,
{
    if x < 128 {
        seq![x as u8]
    } else {
        seq![(x % 128 + 128) as u8] + varint(x / 128)
    }
}

/// The integer that `data` starts with, in at most `digits` bytes, and what follows it.
pub open spec fn varint_read(data: Seq<u8>, digits: nat) -> Option<(nat, Seq<u8>)>
    decreases digits,
{
    if digits == 0 || data.len() == 0 {
        None
    } else if data[0] < 128 {
        Some((data[0] as nat, data.skip(1)))
    } else {
        match varint_read(data.skip(1), (digits - 1) as nat) {
            Some((high, rest)) => Some(((data[0] - 128 + 128 * high) as nat, rest)),
            None => None,
        }
    }
}

/// The 32-bit integer that `data` starts with, and what follows it.
pub open spec fn u32_read(data: Seq<u8>) -> Option<(u32, Seq<u8>)> {
    match varint_read(data, 5) {
        Some((x, rest)) => if x <= u32::MAX {
            Some((x as u32, rest))
        } else {
            None
        },
        None => None,
    }
}

/// The 64-bit integer that `data` starts with, and what follows it.
pub open spec fn u64_read(data: Seq<u8>) -> Option<(u64, Seq<u8>)> {
    match varint_read(data, 10) {
        Some((x, rest)) => if x <= u64::MAX {
            Some((x as u64, rest))
        } else {
            None
        },
        None => None,
    }
}

/// The length that `data` starts with, as wide as the machine's addresses, and what follows it.
pub open spec fn length_read(data: Seq<u8>) -> Option<(nat, Seq<u8>)> {
    if usize::BITS == 32 {
        match u32_read(data) {
            Some((x, rest)) => Some((x as nat, rest)),
            None => None,
        }
    } else {
        match u64_read(data) {
            Some((x, rest)) => Some((x as nat, rest)),
            None => None,
        }
    }
}

/// A string on the wire: how many bytes it has in UTF-8, then those bytes.
pub open spec fn text(s: Seq<char>) -> Seq<u8> {
    varint(encode_utf8(s).len()) + encode_utf8(s)
}

/// The string that `data` starts with, and what follows it.
pub open spec fn text_read(data: Seq<u8>) -> Option<(Seq<char>, Seq<u8>)> {
    match length_read(data) {
        Some((len, rest)) => if len <= rest.len() && valid_utf8(rest.take(len as int)) {
            Some((decode_utf8(rest.take(len as int)), rest.skip(len as int)))
        } else {
            None
        },
        None => None,
    }
}

/// The fields of a manifest in the order in which they are declared.
#[verifier::ext_equal]
pub struct ManifestFields {
    pub transfer_id: Seq<char>,
    pub file_name: Seq<char>,
    pub file_size: u64,
    pub chunk_size: u32,
    pub total_chunks: u32,
    pub root: Seq<u8>,
}

impl ManifestFields {
    /// The fields on the wire: one behind the other, the digest as it is.
    pub open spec fn wire(self) -> Seq<u8> {
        text(self.transfer_id) + (text(self.file_name) + (varint(self.file_size as nat) + (varint(
            self.chunk_size as nat,
        ) + (varint(self.total_chunks as nat) + self.root))))
    }

    /// The fields that `data` starts with. What follows them is passed over.
    pub open spec fn read(data: Seq<u8>) -> Option<Self> {
        match text_read(data) {
            Some((transfer_id, data)) => match text_read(data) {
                Some((file_name, data)) => match u64_read(data) {
                    Some((file_size, data)) => match u32_read(data) {
                        Some((chunk_size, data)) => match u32_read(data) {
                            Some((total_chunks, data)) => if data.len() >= 32 {
                                Some(
                                    ManifestFields {
                                        transfer_id,
                                        file_name,
                                        file_size,
                                        chunk_size,
                                        total_chunks,
                                        root: data.take(32),
                                    },
                                )
                            } else {
                                None
                            },
                            None => None,
                        },
                        None => None,
                    },
                    None => None,
                },
                None => None,
            },
            None => None,
        }
    }
}

/// A chunk header on the wire: its index, then its length.
pub open spec fn chunk_wire(chunk_index: u32, payload_length: u32) -> Seq<u8> {
    varint(chunk_index as nat) + varint(payload_length as nat)
}

/// The chunk header that `data` starts with. What follows it is passed over.
pub open spec fn chunk_read(data: Seq<u8>) -> Option<(u32, u32)> {
    match u32_read(data) {
        Some((chunk_index, data)) => match u32_read(data) {
            Some((payload_length, _)) => Some((chunk_index, payload_length)),
            None => None,
        },
        None => None,
    }
}

/// How many integers `digits` bytes can tell apart.
spec fn capacity(digits: nat) -> nat
    decreases digits,
{
    if digits == 0 {
        1
    } else {
        128 * capacity((digits - 1) as nat)
    }
}

/// An integer that fits `digits` bytes is read back as it was written.
proof fn varint_survives(x: nat, digits: nat, rest: Seq<u8>)
    requires
        x < capacity(digits),
        digits > 0,
    ensures
        varint_read(varint(x) + rest, digits) == Some((x, rest)),
    decreases digits,
{
    let data = varint(x) + rest;
    if x < 128 {
        assert(data.skip(1) =~= rest);
    } else {
        let high = x / 128;
        if digits == 1 {
            assert(capacity(1) == 128 * capacity(0));
        }
        varint_survives(high, (digits - 1) as nat, rest);
        assert(data.skip(1) =~= varint(high) + rest);
    }
}

/// A 32-bit integer is read back as it was written.
proof fn u32_survives(x: u32, rest: Seq<u8>)
    ensures
        u32_read(varint(x as nat) + rest) == Some((x, rest)),
{
    reveal_with_fuel(capacity, 6);
    varint_survives(x as nat, 5, rest);
}

/// A 64-bit integer is read back as it was written.
proof fn u64_survives(x: u64, rest: Seq<u8>)
    ensures
        u64_read(varint(x as nat) + rest) == Some((x, rest)),
{
    reveal_with_fuel(capacity, 11);
    varint_survives(x as nat, 10, rest);
}

/// A string whose length the machine can count is read back as it was written.
proof fn text_survives(s: Seq<char>, rest: Seq<u8>)
    requires
        encode_utf8(s).len() <= usize::MAX,
    ensures
        text_read(text(s) + rest) == Some((s, rest)),
{
    let bytes = encode_utf8(s);
    let data = text(s) + rest;
    assert(data =~= varint(bytes.len()) + (bytes + rest));
    if usize::BITS == 32 {
        u32_survives(bytes.len() as u32, bytes + rest);
    } else {
        u64_survives(bytes.len() as u64, bytes + rest);
    }
    assert((bytes + rest).take(bytes.len() as int) =~= bytes);
    assert((bytes + rest).skip(bytes.len() as int) =~= rest);
    encode_utf8_valid_utf8(s);
    encode_utf8_decode_utf8(s);
}

/// What is written for a manifest is read back as it was, whatever follows it. Strings whose length
/// the machine cannot count are left out.
pub proof fn law_manifest_survives_the_wire(m: ManifestFields, rest: Seq<u8>)
    requires
        encode_utf8(m.transfer_id).len() <= usize::MAX,
        encode_utf8(m.file_name).len() <= usize::MAX,
        m.root.len() == 32,
    ensures
        ManifestFields::read(m.wire() + rest) == Some(m),
{
    let after_total = m.root + rest;
    let after_chunk = varint(m.total_chunks as nat) + after_total;
    let after_size = varint(m.chunk_size as nat) + after_chunk;
    let after_name = varint(m.file_size as nat) + after_size;
    let after_id = text(m.file_name) + after_name;
    assert(m.wire() + rest =~= text(m.transfer_id) + after_id);
    text_survives(m.transfer_id, after_id);
    text_survives(m.file_name, after_name);
    u64_survives(m.file_size, after_size);
    u32_survives(m.chunk_size, after_chunk);
    u32_survives(m.total_chunks, after_total);
    assert(after_total.take(32) =~= m.root);
}

/// What is written for a chunk header is read back as it was, whatever follows it.
pub proof fn law_chunk_header_survives_the_wire(
    chunk_index: u32,
    payload_length: u32,
    rest: Seq<u8>,
)
    ensures
        chunk_read(chunk_wire(chunk_index, payload_length) + rest) == Some(
            (chunk_index, payload_length),
        ),
{
    let after_index = varint(payload_length as nat) + rest;
    assert(chunk_wire(chunk_index, payload_length) + rest =~= varint(chunk_index as nat)
        + after_index);
    u32_survives(chunk_index, after_index);
    u32_survives(payload_length, rest);
}

/// An integer that is cut short is not read.
proof fn cut_varint_is_refused(x: nat, digits: nat, cut: nat)
    requires
        cut < varint(x).len(),
    ensures
        varint_read(varint(x).take(cut as int), digits) is None,
    decreases x,
{
    let data = varint(x).take(cut as int);
    if cut > 0 && digits > 0 {
        let high = x / 128;
        assert(varint(x) == seq![(x % 128 + 128) as u8] + varint(high));
        assert(data.skip(1) =~= varint(high).take(cut - 1));
        cut_varint_is_refused(high, (digits - 1) as nat, (cut - 1) as nat);
    }
}

/// A string that is cut short is not read.
proof fn cut_text_is_refused(s: Seq<char>, cut: nat)
    requires
        encode_utf8(s).len() <= usize::MAX,
        cut < text(s).len(),
    ensures
        text_read(text(s).take(cut as int)) is None,
{
    let bytes = encode_utf8(s);
    let prefix = varint(bytes.len());
    let data = text(s).take(cut as int);
    if cut < prefix.len() {
        assert(data =~= prefix.take(cut as int));
        cut_varint_is_refused(bytes.len(), 5, cut);
        cut_varint_is_refused(bytes.len(), 10, cut);
    } else {
        let rest = bytes.take(cut - prefix.len());
        assert(data =~= prefix + rest);
        if usize::BITS == 32 {
            u32_survives(bytes.len() as u32, rest);
        } else {
            u64_survives(bytes.len() as u64, rest);
        }
    }
}

/// Two pieces one behind the other that are cut short are cut within the first or the second.
proof fn cut_falls_into_a_piece(first: Seq<u8>, second: Seq<u8>, cut: nat)
    requires
        cut <= first.len() + second.len(),
    ensures
        cut < first.len() ==> (first + second).take(cut as int) == first.take(cut as int),
        cut >= first.len() ==> (first + second).take(cut as int) == first + second.take(
            cut - first.len(),
        ),
{
    if cut < first.len() {
        assert((first + second).take(cut as int) =~= first.take(cut as int));
    } else {
        assert((first + second).take(cut as int) =~= first + second.take(cut - first.len()));
    }
}

/// Numbers and a digest that are cut short are not read to the end.
proof fn cut_numbers_are_refused(m: ManifestFields, cut: nat)
    requires
        m.root.len() == 32,
        cut < (varint(m.file_size as nat) + (varint(m.chunk_size as nat) + (varint(
            m.total_chunks as nat,
        ) + m.root))).len(),
    ensures
        match u64_read(
            (varint(m.file_size as nat) + (varint(m.chunk_size as nat) + (varint(
                m.total_chunks as nat,
            ) + m.root))).take(cut as int),
        ) {
            Some((_, data)) => match u32_read(data) {
                Some((_, data)) => match u32_read(data) {
                    Some((_, data)) => data.len() < 32,
                    None => true,
                },
                None => true,
            },
            None => true,
        },
{
    let size = varint(m.file_size as nat);
    let chunk = varint(m.chunk_size as nat);
    let total = varint(m.total_chunks as nat);
    cut_falls_into_a_piece(size, chunk + (total + m.root), cut);
    if cut < size.len() {
        cut_varint_is_refused(m.file_size as nat, 10, cut);
    } else {
        let cut = (cut - size.len()) as nat;
        u64_survives(m.file_size, (chunk + (total + m.root)).take(cut as int));
        cut_falls_into_a_piece(chunk, total + m.root, cut);
        if cut < chunk.len() {
            cut_varint_is_refused(m.chunk_size as nat, 5, cut);
        } else {
            let cut = (cut - chunk.len()) as nat;
            u32_survives(m.chunk_size, (total + m.root).take(cut as int));
            cut_falls_into_a_piece(total, m.root, cut);
            if cut < total.len() {
                cut_varint_is_refused(m.total_chunks as nat, 5, cut);
            } else {
                u32_survives(m.total_chunks, m.root.take(cut - total.len()));
            }
        }
    }
}

/// A manifest that is cut short is not read, wherever it is cut. Strings whose length the machine
/// cannot count are left out.
pub proof fn law_a_cut_manifest_is_refused(m: ManifestFields, cut: nat)
    requires
        encode_utf8(m.transfer_id).len() <= usize::MAX,
        encode_utf8(m.file_name).len() <= usize::MAX,
        m.root.len() == 32,
        cut < m.wire().len(),
    ensures
        ManifestFields::read(m.wire().take(cut as int)) is None,
{
    let id = text(m.transfer_id);
    let name = text(m.file_name);
    let numbers = varint(m.file_size as nat) + (varint(m.chunk_size as nat) + (varint(
        m.total_chunks as nat,
    ) + m.root));
    cut_falls_into_a_piece(id, name + numbers, cut);
    if cut < id.len() {
        cut_text_is_refused(m.transfer_id, cut);
    } else {
        let cut = (cut - id.len()) as nat;
        text_survives(m.transfer_id, (name + numbers).take(cut as int));
        cut_falls_into_a_piece(name, numbers, cut);
        if cut < name.len() {
            cut_text_is_refused(m.file_name, cut);
        } else {
            let cut = (cut - name.len()) as nat;
            text_survives(m.file_name, numbers.take(cut as int));
            cut_numbers_are_refused(m, cut);
        }
    }
}

/// A chunk header that is cut short is not read, wherever it is cut.
pub proof fn law_a_cut_chunk_header_is_refused(chunk_index: u32, payload_length: u32, cut: nat)
    requires
        cut < chunk_wire(chunk_index, payload_length).len(),
    ensures
        chunk_read(chunk_wire(chunk_index, payload_length).take(cut as int)) is None,
{
    let index = varint(chunk_index as nat);
    let data = chunk_wire(chunk_index, payload_length).take(cut as int);
    if cut < index.len() {
        assert(data =~= index.take(cut as int));
        cut_varint_is_refused(chunk_index as nat, 5, cut);
    } else {
        let rest = varint(payload_length as nat).take(cut - index.len());
        assert(data =~= index + rest);
        u32_survives(chunk_index, rest);
        cut_varint_is_refused(payload_length as nat, 5, rest.len());
    }
}

/// Why `postcard` could not write or read a value.
#[verifier::external_type_specification]
#[verifier::external_body]
pub struct ExPostcardError(postcard::Error);

/// `postcard::to_allocvec` on the fields of a manifest. Into a vector that grows, strings, integers
/// and byte arrays are written without fail, in the form that [`ManifestFields::wire`] spells out.
#[verifier::external_body]
pub(crate) fn write_manifest(
    transfer_id: &str,
    file_name: &str,
    file_size: u64,
    chunk_size: u32,
    total_chunks: u32,
    root: &[u8; 32],
) -> (written: Result<Vec<u8>, postcard::Error>)
    ensures
        written is Ok,
        written->Ok_0@ == (ManifestFields {
            transfer_id: transfer_id@,
            file_name: file_name@,
            file_size,
            chunk_size,
            total_chunks,
            root: root@,
        }).wire(),
{
    postcard::to_allocvec(&(transfer_id, file_name, file_size, chunk_size, total_chunks, root))
}

/// The fields that a tuple holds.
pub open spec fn fields(
    tuple: (String, String, u64, u32, u32, [u8; 32]),
) -> ManifestFields {
    ManifestFields {
        transfer_id: tuple.0@,
        file_name: tuple.1@,
        file_size: tuple.2,
        chunk_size: tuple.3,
        total_chunks: tuple.4,
        root: tuple.5@,
    }
}

/// `postcard::from_bytes` on the bytes of a manifest. It reads what [`ManifestFields::read`] says,
/// and fails where that says `None`.
#[verifier::external_body]
pub(crate) fn read_manifest(data: &[u8]) -> (read: Result<
    (String, String, u64, u32, u32, [u8; 32]),
    postcard::Error,
>)
    ensures
        read is Ok <==> ManifestFields::read(data@) is Some,
        read matches Ok(tuple) ==> ManifestFields::read(data@) == Some(fields(tuple)),
{
    postcard::from_bytes(data)
}

/// `postcard::to_allocvec` on the fields of a chunk header. Into a vector that grows, integers are
/// written without fail, in the form that [`chunk_wire`] spells out.
#[verifier::external_body]
pub(crate) fn write_chunk_header(chunk_index: u32, payload_length: u32) -> (written: Result<
    Vec<u8>,
    postcard::Error,
>)
    ensures
        written is Ok,
        written->Ok_0@ == chunk_wire(chunk_index, payload_length),
{
    postcard::to_allocvec(&(chunk_index, payload_length))
}

/// `postcard::from_bytes` on the bytes of a chunk header. It reads what [`chunk_read`] says, and
/// fails where that says `None`.
#[verifier::external_body]
pub(crate) fn read_chunk_header(data: &[u8]) -> (read: Result<(u32, u32), postcard::Error>)
    ensures
        read is Ok <==> chunk_read(data@) is Some,
        read matches Ok(header) ==> chunk_read(data@) == Some(header),
{
    postcard::from_bytes(data)
}

} // verus!
