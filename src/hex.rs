//! Reading and writing `0x`-prefixed hex byte strings.
use vstd::prelude::*;
use vstd::string::*;
use vstd::utf8::*;
use crate::error::CodecError;

verus! {

/// The lower-case hex digit for a value below sixteen.
pub open spec fn hex_char(d: nat) -> char {
    if d < 10 {
        ((d + 48) as u8) as char
    } else {
        ((d + 87) as u8) as char
    }
}

/// A byte that is an ASCII hex digit, in either case.
pub open spec fn is_hex_byte(c: u8) -> bool {
    (48 <= c <= 57) || (65 <= c <= 70) || (97 <= c <= 102)
}

/// The value of an ASCII hex digit.
pub open spec fn hex_byte_value(c: u8) -> nat {
    if c <= 57 {
        (c - 48) as nat
    } else if c <= 70 {
        (c - 55) as nat
    } else {
        (c - 87) as nat
    }
}

/// Plain hex decoding of bytes: pairs of digits, most significant nibble first.
pub open spec fn decode_hex_bytes(h: Seq<u8>) -> Result<Seq<u8>, CodecError> {
    if h.len() % 2 != 0 {
        Err(CodecError::OddLength)
    } else if exists|i: int| 0 <= i < h.len() && !is_hex_byte(#[trigger] h[i]) {
        Err(CodecError::InvalidHexDigit)
    } else {
        Ok(
            Seq::new(
                h.len() / 2,
                |i: int| (hex_byte_value(h[2 * i]) * 16 + hex_byte_value(h[2 * i + 1])) as u8,
            ),
        )
    }
}

/// Two lower-case hex digits per byte, in order.
pub open spec fn lower_hex(b: Seq<u8>) -> Seq<char> {
    Seq::new(
        2 * b.len(),
        |i: int|
            if i % 2 == 0 {
                hex_char(b[i / 2] as nat / 16)
            } else {
                hex_char(b[i / 2] as nat % 16)
            },
    )
}

/// `digits` behind the `0x` marker.
pub open spec fn prefixed(digits: Seq<char>) -> Seq<char> {
    seq!['0', 'x'] + digits
}

pub open spec fn has_prefix(t: Seq<char>) -> bool {
    t.len() >= 2 && t[0] == '0' && t[1] == 'x'
}

/// What follows the first two characters.
pub open spec fn after_prefix(t: Seq<char>) -> Seq<char> {
    t.subrange(2, t.len() as int)
}

/// A `0x`-prefixed hex token read as bytes; the digits are decoded from their
/// UTF-8 bytes.
pub open spec fn read_prefixed_hex(t: Seq<char>) -> Result<Seq<u8>, CodecError> {
    if !has_prefix(t) {
        Err(CodecError::MissingPrefix)
    } else {
        decode_hex_bytes(encode_utf8(after_prefix(t)))
    }
}

/// A hex token read as bytes, with or without the `0x` marker.
pub open spec fn read_lenient_hex(t: Seq<char>) -> Result<Seq<u8>, CodecError> {
    if has_prefix(t) {
        decode_hex_bytes(encode_utf8(after_prefix(t)))
    } else {
        decode_hex_bytes(encode_utf8(t))
    }
}

pub open spec fn bytes_result(r: Result<Vec<u8>, CodecError>) -> Result<Seq<u8>, CodecError> {
    match r {
        Ok(v) => Ok(v@),
        Err(e) => Err(e),
    }
}

proof fn lemma_hex_char(d: nat)
    requires
        d < 16,
    ensures
        '\0' <= hex_char(d) <= '\u{7f}',
        is_hex_byte(hex_char(d) as u8),
        hex_byte_value(hex_char(d) as u8) == d,
{
}

/// The digits of `lower_hex` are ASCII, so their UTF-8 bytes are the
/// characters themselves, and they decode back to the bytes they came from.
proof fn lemma_lower_hex_decodes(b: Seq<u8>)
    ensures
        decode_hex_bytes(encode_utf8(lower_hex(b))) == Ok::<Seq<u8>, CodecError>(b),
{
    let h = lower_hex(b);
    assert forall|i: int| 0 <= i < h.len() implies '\0' <= #[trigger] h[i] <= '\u{7f}' by {
        lemma_hex_char(b[i / 2] as nat / 16);
        lemma_hex_char(b[i / 2] as nat % 16);
    }
    is_ascii_chars_encode_utf8(h);
    let e = encode_utf8(h);
    assert forall|i: int| 0 <= i < e.len() implies is_hex_byte(#[trigger] e[i]) by {
        assert(e[i] == h[i] as u8);
        lemma_hex_char(b[i / 2] as nat / 16);
        lemma_hex_char(b[i / 2] as nat % 16);
    }
    let v = Seq::new(
        e.len() / 2,
        |i: int| (hex_byte_value(e[2 * i]) * 16 + hex_byte_value(e[2 * i + 1])) as u8,
    );
    assert forall|i: int| 0 <= i < b.len() implies v[i] == b[i] by {
        assert(e[2 * i] == h[2 * i] as u8);
        assert(e[2 * i + 1] == h[2 * i + 1] as u8);
        assert((2 * i) / 2 == i);
        assert((2 * i + 1) / 2 == i);
        assert((2 * i) % 2 == 0);
        assert((2 * i + 1) % 2 == 1);
        lemma_hex_char(b[i] as nat / 16);
        lemma_hex_char(b[i] as nat % 16);
    }
    assert(v =~= b);
}

/// Hex round trip: a `0x`-prefixed token written from bytes reads back as those
/// bytes, by the strict reader and by the lenient one.
pub proof fn lemma_hex_round_trip(b: Seq<u8>)
    ensures
        read_prefixed_hex(prefixed(lower_hex(b))) == Ok::<Seq<u8>, CodecError>(b),
        read_lenient_hex(prefixed(lower_hex(b))) == Ok::<Seq<u8>, CodecError>(b),
{
    let t = prefixed(lower_hex(b));
    assert(after_prefix(t) =~= lower_hex(b));
    lemma_lower_hex_decodes(b);
}

/// Relies on hex::encode: two lower-case digits per byte, high nibble first.
#[verifier::external_body]
fn hex_encode(b: &[u8]) -> (r: String)
    ensures
        r@ == lower_hex(b@),
{
    ::hex::encode(b)
}

/// Relies on hex::decode: an odd number of bytes fails first, then any byte
/// that is not a hex digit; otherwise each pair of digits gives one byte.
#[verifier::external_body]
fn hex_decode(s: &str) -> (r: Result<Vec<u8>, CodecError>)
    ensures
        bytes_result(r) == decode_hex_bytes(s.spec_bytes()),
{
    match ::hex::decode(s) {
        Ok(v) => Ok(v),
        Err(::hex::FromHexError::OddLength) => Err(CodecError::OddLength),
        Err(::hex::FromHexError::InvalidHexCharacter { .. }) => Err(CodecError::InvalidHexDigit),
        Err(::hex::FromHexError::InvalidStringLength) => Err(CodecError::OddLength),
    }
}

/// `0x` followed by two lower-case hex digits per byte.
pub fn encode(bytes: &[u8]) -> (r: String)
    ensures
        r@ == prefixed(lower_hex(bytes@)),
{
    let mut s = String::from_str("0x");
    proof {
        reveal_strlit("0x");
    }
    let digits = hex_encode(bytes);
    s.append(digits.as_str());
    assert(s@ =~= prefixed(lower_hex(bytes@)));
    s
}

/// Reads a `0x`-prefixed hex token into bytes.
pub fn decode(token: &str) -> (r: Result<Vec<u8>, CodecError>)
    ensures
        bytes_result(r) == read_prefixed_hex(token@),
{
    let n = token.unicode_len();
    if n < 2 || token.get_char(0) != '0' || token.get_char(1) != 'x' {
        return Err(CodecError::MissingPrefix);
    }
    let rest = token.substring_char(2, n);
    hex_decode(rest)
}

/// Reads a hex token into bytes; the `0x` marker may be there or not.
pub fn decode_lenient(token: &str) -> (r: Result<Vec<u8>, CodecError>)
    ensures
        bytes_result(r) == read_lenient_hex(token@),
{
    let n = token.unicode_len();
    if n >= 2 && token.get_char(0) == '0' && token.get_char(1) == 'x' {
        let rest = token.substring_char(2, n);
        hex_decode(rest)
    } else {
        hex_decode(token)
    }
}

} // verus!
