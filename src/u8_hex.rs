//! A single byte as `0x`-prefixed hex, e.g. `0` as `"0x00"`.
use vstd::prelude::*;
use crate::error::CodecError;
use crate::fixed_bytes_hex::read_fixed_hex;
use crate::hex::{lower_hex, prefixed};

verus! {

/// `0x` followed by the byte's two lower-case hex digits.
pub fn serialize(byte: u8) -> (r: String)
    ensures
        r@ == prefixed(lower_hex(seq![byte])),
{
    let bytes: [u8; 1] = [byte];
    assert(bytes@ =~= seq![byte]);
    crate::fixed_bytes_hex::serialize(&bytes)
}

/// Reads a `0x`-prefixed hex token of exactly one byte.
pub fn deserialize(token: &str) -> (r: Result<u8, CodecError>)
    ensures
        match r {
            Ok(b) => read_fixed_hex(token@, 1) == Ok::<Seq<u8>, CodecError>(seq![b]),
            Err(e) => read_fixed_hex(token@, 1) == Err::<Seq<u8>, CodecError>(e),
        },
{
    match crate::fixed_bytes_hex::deserialize::<1>(token) {
        Ok(a) => {
            assert(a@ =~= seq![a[0]]);
            Ok(a[0])
        },
        Err(e) => Err(e),
    }
}

} // verus!
