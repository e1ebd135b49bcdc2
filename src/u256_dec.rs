//! 256-bit unsigned integers as decimal numerals in a string, e.g. `1024` as
//! `"1024"`.
use vstd::prelude::*;
use crate::error::CodecError;
use crate::uint256::{
    Uint256, all_digits, lemma_limbs_bound, lemma_minimal_digits_all_digits, only_digits, lemma_minimal_digits_value, minimal_digits, parse_u256,
    uint_result,
};

verus! {

/// A decimal token read as a 256-bit value: it must be one or more decimal
/// digits and nothing else, and its value must fit.
pub open spec fn read_decimal(t: Seq<char>) -> Result<nat, CodecError> {
    if !all_digits(t, 10) {
        Err(CodecError::NotDecimal)
    } else {
        match parse_u256(t, 10) {
            Some(v) => Ok(v),
            None => Err(CodecError::NotDecimal),
        }
    }
}

/// The shortest decimal numeral: no sign, no leading zero, `0` for zero.
pub fn serialize(num: &Uint256) -> (r: String)
    ensures
        r@ == minimal_digits(num@, 10),
{
    crate::uint256::format_decimal(num.limbs)
}

/// Reads a decimal token; an empty token, any character that is not a decimal
/// digit, or a value that does not fit is `NotDecimal`.
pub fn deserialize(token: &str) -> (r: Result<Uint256, CodecError>)
    ensures
        uint_result(r) == read_decimal(token@),
{
    if !only_digits(token, false) {
        return Err(CodecError::NotDecimal);
    }
    match crate::uint256::parse_decimal(token) {
        Some(limbs) => Ok(Uint256 { limbs }),
        None => Err(CodecError::NotDecimal),
    }
}

/// Decimal round trip: the numeral written for a value reads back as it.
pub proof fn lemma_decimal_round_trip(n: Uint256)
    ensures
        read_decimal(minimal_digits(n@, 10)) == Ok::<nat, CodecError>(n@),
{
    lemma_minimal_digits_value(n@, 10);
    lemma_minimal_digits_all_digits(n@, 10);
    lemma_limbs_bound(n.limbs);
}

} // verus!
