//! 20-byte addresses as `0x`-prefixed hex, e.g. `"0x00000000000000000000000000000000000000ff"`.
use vstd::prelude::*;
use crate::error::CodecError;
use crate::fixed_bytes_hex::{array_result, read_fixed_hex};
use crate::hex::{lower_hex, prefixed};

verus! {

/// `0x` followed by forty lower-case hex digits.
pub fn serialize(address: &[u8; 20]) -> (r: String)
    ensures
        r@ == prefixed(lower_hex(address@)),
{
    crate::fixed_bytes_hex::serialize(address)
}

/// Reads a `0x`-prefixed hex token of exactly 20 bytes.
pub fn deserialize(token: &str) -> (r: Result<[u8; 20], CodecError>)
    ensures
        array_result(r) == read_fixed_hex(token@, 20),
{
    crate::fixed_bytes_hex::deserialize(token)
}

} // verus!
