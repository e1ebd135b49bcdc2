//! 256-bit unsigned integers as canonical hex quantities: `0x` and the shortest
//! lower-case numeral, e.g. `1024` as `"0x400"` and zero as `"0x0"`. Decoding
//! accepts no other spelling of a value.
use vstd::prelude::*;
use vstd::string::*;
use crate::error::CodecError;
use crate::hex::{after_prefix, has_prefix, prefixed};
use crate::uint256::{
    Uint256, all_digits, lemma_limbs_bound, lemma_minimal_digits_all_digits, only_digits, lemma_minimal_digits_canonical, lemma_minimal_digits_value,
    minimal_digits, parse_u256, uint_result,
};

verus! {

/// Why a token is not shaped as a canonical quantity, checked in this order:
/// the `0x` marker, at least one digit, and no leading zero but in `0x0`.
pub open spec fn canonical_shape_error(t: Seq<char>) -> Option<CodecError> {
    if !has_prefix(t) {
        Some(CodecError::MissingPrefix)
    } else if after_prefix(t).len() == 0 {
        Some(CodecError::EmptyQuantity)
    } else if after_prefix(t) != seq!['0'] && after_prefix(t)[0] == '0' {
        Some(CodecError::LeadingZero)
    } else {
        None
    }
}

/// A canonical hex token read as a 256-bit value: after the shape checks,
/// every character after `0x` must be a hex digit and the value must fit.
pub open spec fn read_canonical_hex(t: Seq<char>) -> Result<nat, CodecError> {
    match canonical_shape_error(t) {
        Some(e) => Err(e),
        None => if !all_digits(after_prefix(t), 16) {
            Err(CodecError::InvalidHexNumeral)
        } else {
            match parse_u256(after_prefix(t), 16) {
                Some(v) => Ok(v),
                None => Err(CodecError::InvalidHexNumeral),
            }
        },
    }
}

/// Checks the shape of a canonical hex quantity before its digits are read.
pub struct U256Visitor;

impl U256Visitor {
    /// The token itself if it is shaped as a canonical quantity.
    pub fn visit_str(self, value: &str) -> (r: Result<String, CodecError>)
        ensures
            match r {
                Ok(s) => canonical_shape_error(value@) is None && s@ == value@,
                Err(e) => canonical_shape_error(value@) == Some(e),
            },
    {
        let n = value.unicode_len();
        if n < 2 || value.get_char(0) != '0' || value.get_char(1) != 'x' {
            return Err(CodecError::MissingPrefix);
        }
        if n == 2 {
            return Err(CodecError::EmptyQuantity);
        }
        let first = value.get_char(2);
        if n == 3 && first == '0' {
            assert(after_prefix(value@) =~= seq!['0']);
            return Ok(String::from_str(value));
        }
        if first == '0' {
            assert(after_prefix(value@)[0] == '0');
            assert(after_prefix(value@).len() != 1);
            return Err(CodecError::LeadingZero);
        }
        assert(after_prefix(value@)[0] != '0');
        Ok(String::from_str(value))
    }
}

/// `0x` and the shortest lower-case hex numeral; zero is `0x0`.
pub fn serialize(num: &Uint256) -> (r: String)
    ensures
        r@ == prefixed(minimal_digits(num@, 16)),
{
    crate::uint256::format_hex(num.limbs)
}

/// Reads a canonical hex token: `MissingPrefix`, `EmptyQuantity` and
/// `LeadingZero` for a token of the wrong shape, `InvalidHexNumeral` for any
/// character after `0x` that is not a hex digit, or a value that does not fit.
pub fn deserialize(token: &str) -> (r: Result<Uint256, CodecError>)
    ensures
        uint_result(r) == read_canonical_hex(token@),
{
    let decoded = match U256Visitor.visit_str(token) {
        Ok(s) => s,
        Err(e) => return Err(e),
    };
    let digits = decoded.as_str().substring_char(2, decoded.as_str().unicode_len());
    if !only_digits(digits, true) {
        return Err(CodecError::InvalidHexNumeral);
    }
    match crate::uint256::parse_prefixed_hex(decoded.as_str()) {
        Some(limbs) => Ok(Uint256 { limbs }),
        None => Err(CodecError::InvalidHexNumeral),
    }
}

/// Canonical hex round trip: the token written for a value reads back as it.
pub proof fn lemma_canonical_hex_round_trip(n: Uint256)
    ensures
        read_canonical_hex(prefixed(minimal_digits(n@, 16))) == Ok::<nat, CodecError>(n@),
{
    let t = prefixed(minimal_digits(n@, 16));
    assert(after_prefix(t) =~= minimal_digits(n@, 16));
    lemma_minimal_digits_canonical(n@, 16);
    lemma_minimal_digits_value(n@, 16);
    lemma_minimal_digits_all_digits(n@, 16);
    lemma_limbs_bound(n.limbs);
}

/// Canonicality: zero is written `0x0`; any other value is written with a
/// first digit that is not `0`, so every written token is of canonical shape.
pub proof fn lemma_canonical_hex_minimal(n: nat)
    ensures
        prefixed(minimal_digits(0, 16)) == seq!['0', 'x', '0'],
        n > 0 ==> minimal_digits(n, 16)[0] != '0',
        canonical_shape_error(prefixed(minimal_digits(n, 16))) is None,
{
    lemma_minimal_digits_canonical(0, 16);
    lemma_minimal_digits_canonical(n, 16);
    assert(prefixed(minimal_digits(0, 16)) =~= seq!['0', 'x', '0']);
    assert(after_prefix(prefixed(minimal_digits(n, 16))) =~= minimal_digits(n, 16));
}

} // verus!
