//! Public keys as text, in the base64 of RFC 4648, through the `base64` crate.
//!
//! [`text_of`] spells the encoding out. The two functions that call the crate are at the end; their
//! contracts are taken for granted.

use base64::engine::general_purpose::STANDARD;
use base64::Engine;
use vstd::prelude::*;

verus! {

/// The character that stands for six bits.
pub open spec fn symbol(bits: int) -> char {
    if bits < 26 {
        (0x41 + bits) as char
    } else if bits < 52 {
        (0x61 + bits - 26) as char
    } else if bits < 62 {
        (0x30 + bits - 52) as char
    } else if bits == 62 {
        '+'
    } else {
        '/'
    }
}

/// The text of a byte string: four characters for every three bytes, filled up with `=`.
pub open spec fn text_of(bytes: Seq<u8>) -> Seq<char>
    decreases bytes.len(),
{
    if bytes.len() == 0 {
        Seq::empty()
    } else if bytes.len() == 1 {
        let a = bytes[0] as int;
        seq![symbol(a / 4), symbol(a % 4 * 16), '=', '=']
    } else if bytes.len() == 2 {
        let a = bytes[0] as int;
        let b = bytes[1] as int;
        seq![symbol(a / 4), symbol(a % 4 * 16 + b / 16), symbol(b % 16 * 4), '=']
    } else {
        let a = bytes[0] as int;
        let b = bytes[1] as int;
        let c = bytes[2] as int;
        seq![
            symbol(a / 4),
            symbol(a % 4 * 16 + b / 16),
            symbol(b % 16 * 4 + c / 64),
            symbol(c % 64),
        ] + text_of(bytes.skip(3))
    }
}

/// Whether the text of this many bytes has a length that memory can hold.
pub open spec fn encodable(len: nat) -> bool {
    (len + 2) / 3 * 4 <= isize::MAX
}

/// No two byte strings have the same text.
pub proof fn law_text_tells_keys_apart(one: Seq<u8>, other: Seq<u8>)
    requires
        text_of(one) == text_of(other),
    ensures
        one == other,
    decreases one.len(),
{
    let s = text_of(one);
    let t = text_of(other);
    if one.len() == 0 || other.len() == 0 {
        if one.len() > 0 {
            assert(s.len() >= 4);
        }
        if other.len() > 0 {
            assert(t.len() >= 4);
        }
        assert(one =~= other);
    } else {
        assert(s[0] == t[0] && s[1] == t[1] && s[2] == t[2] && s[3] == t[3]);
        assert(s.len() == t.len());
        if one.len() >= 3 && other.len() >= 3 {
            assert(s.skip(4) =~= text_of(one.skip(3)));
            assert(t.skip(4) =~= text_of(other.skip(3)));
            law_text_tells_keys_apart(one.skip(3), other.skip(3));
            assert(one[0] == other[0] && one[1] == other[1] && one[2] == other[2]);
            assert(one =~= one.take(3) + one.skip(3));
            assert(other =~= other.take(3) + other.skip(3));
            assert(one.take(3) =~= other.take(3));
        } else {
            assert(one.len() == other.len());
            assert(one =~= other);
        }
    }
}

/// Why a text is not the base64 of any bytes.
#[verifier::external_type_specification]
#[verifier::external_body]
pub struct ExDecodeError(base64::DecodeError);

/// The text of a byte string: `Engine::encode` of the engine `STANDARD`. It panics where the length
/// of the text overflows.
#[verifier::external_body]
pub(crate) fn encode(bytes: &[u8]) -> (text: String)
    requires
        encodable(bytes@.len()),
    ensures
        text@ == text_of(bytes@),
{
    STANDARD.encode(bytes)
}

/// The byte string that a text stands for: `Engine::decode` of the engine `STANDARD`. It takes
/// nothing but the text that encoding gives: the padding has to be there, and the bits that no byte
/// uses have to be zero.
#[verifier::external_body]
pub(crate) fn decode(text: &str) -> (bytes: Result<Vec<u8>, base64::DecodeError>)
    ensures
        bytes matches Ok(b) ==> text_of(b@) == text@,
        bytes is Err ==> forall|b: Seq<u8>| #[trigger] text_of(b) != text@,
{
    STANDARD.decode(text)
}

/// A text has four characters for every three bytes or part of three, and every byte string whose
/// text an address space can hold has one.
pub proof fn law_a_text_takes_four_characters_for_three_bytes(bytes: Seq<u8>)
    ensures
        text_of(bytes).len() % 4 == 0,
        3 * text_of(bytes).len() >= 4 * bytes.len(),
        3 * text_of(bytes).len() < 4 * bytes.len() + 12,
        encodable(bytes.len()) <==> text_of(bytes).len() <= isize::MAX,
{
    text_has_its_length(bytes);
}

/// How long a text is.
proof fn text_has_its_length(bytes: Seq<u8>)
    ensures
        text_of(bytes).len() == (bytes.len() + 2) / 3 * 4,
    decreases bytes.len(),
{
    if bytes.len() >= 3 {
        text_has_its_length(bytes.skip(3));
    }
}

} // verus!
