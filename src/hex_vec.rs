//! Byte strings of any length as `0x`-prefixed hex, e.g. `[0, 1, 2, 3]` as
//! `"0x00010203"`.
use vstd::prelude::*;
use crate::error::CodecError;
use crate::hex::{bytes_result, lower_hex, prefixed, read_prefixed_hex};

verus! {

/// `0x` followed by two lower-case hex digits per byte.
pub fn serialize(bytes: &[u8]) -> (r: String)
    ensures
        r@ == prefixed(lower_hex(bytes@)),
{
    crate::hex::encode(bytes)
}

/// Reads a `0x`-prefixed hex token into as many bytes as it holds, none included.
pub fn deserialize(token: &str) -> (r: Result<Vec<u8>, CodecError>)
    ensures
        bytes_result(r) == read_prefixed_hex(token@),
{
    crate::hex::decode(token)
}

} // verus!
