//! 32-byte hashes as `0x`-prefixed hex: sixty-four lower-case digits.
use vstd::prelude::*;
use crate::error::CodecError;
use crate::fixed_bytes_hex::{array_result, read_fixed_hex};
use crate::hex::{lower_hex, prefixed};

verus! {

/// `0x` followed by sixty-four lower-case hex digits.
pub fn serialize(hash: &[u8; 32]) -> (r: String)
    ensures
        r@ == prefixed(lower_hex(hash@)),
{
    crate::fixed_bytes_hex::serialize(hash)
}

/// Reads a `0x`-prefixed hex token of exactly 32 bytes.
pub fn deserialize(token: &str) -> (r: Result<[u8; 32], CodecError>)
    ensures
        array_result(r) == read_fixed_hex(token@, 32),
{
    crate::fixed_bytes_hex::deserialize(token)
}

} // verus!
