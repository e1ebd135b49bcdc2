//! Byte arrays of a fixed length as `0x`-prefixed hex, e.g. `[0, 1, 2, 3]` as
//! `"0x00010203"`. Decoding insists on exactly the array's length: a shorter
//! token is not padded and a longer one is not cut.
use vstd::prelude::*;
use vstd::array::*;
use crate::error::CodecError;
use crate::hex::{lower_hex, prefixed, read_prefixed_hex};

verus! {

/// A `0x`-prefixed hex token read as exactly `n` bytes.
pub open spec fn read_fixed_hex(t: Seq<char>, n: nat) -> Result<Seq<u8>, CodecError> {
    match read_prefixed_hex(t) {
        Ok(b) => if b.len() == n {
            Ok(b)
        } else {
            Err(CodecError::LengthMismatch { expected: n as usize, actual: b.len() as usize })
        },
        Err(e) => Err(e),
    }
}

pub open spec fn array_result<const N: usize>(r: Result<[u8; N], CodecError>) -> Result<
    Seq<u8>,
    CodecError,
> {
    match r {
        Ok(a) => Ok(a@),
        Err(e) => Err(e),
    }
}

/// `0x` followed by two lower-case hex digits per byte.
pub fn serialize<const N: usize>(bytes: &[u8; N]) -> (r: String)
    ensures
        r@ == prefixed(lower_hex(bytes@)),
{
    crate::hex::encode(bytes.as_slice())
}

/// Reads a `0x`-prefixed hex token of exactly `N` bytes.
pub fn deserialize<const N: usize>(token: &str) -> (r: Result<[u8; N], CodecError>)
    ensures
        array_result(r) == read_fixed_hex(token@, N as nat),
{
    let decoded = match crate::hex::decode(token) {
        Ok(v) => v,
        Err(e) => return Err(e),
    };
    if decoded.len() != N {
        return Err(CodecError::LengthMismatch { expected: N, actual: decoded.len() });
    }
    let mut array: [u8; N] = array_fill_for_copy_types(0u8);
    let mut i: usize = 0;
    while i < N
        invariant
            decoded@.len() == N,
            0 <= i <= N,
            forall|j: int| 0 <= j < i ==> array@[j] == decoded@[j],
        decreases N - i,
    {
        array[i] = decoded[i];
        i += 1;
    }
    assert(array@ =~= decoded@);
    Ok(array)
}

/// Fixed-width length check: a well-formed token whose payload is not exactly
/// `n` bytes is refused with `LengthMismatch`, naming `n` and the payload length.
pub proof fn lemma_fixed_length_mismatch(t: Seq<char>, n: nat)
    requires
        read_prefixed_hex(t) is Ok,
        read_prefixed_hex(t)->Ok_0.len() != n,
    ensures
        read_fixed_hex(t, n) == Err::<Seq<u8>, CodecError>(
            CodecError::LengthMismatch {
                expected: n as usize,
                actual: read_prefixed_hex(t)->Ok_0.len() as usize,
            },
        ),
{
}

/// Fixed-width round trip: the token written from `N` bytes reads back as them.
pub proof fn lemma_fixed_round_trip<const N: usize>(bytes: [u8; N])
    ensures
        read_fixed_hex(prefixed(lower_hex(bytes@)), N as nat) == Ok::<Seq<u8>, CodecError>(bytes@),
{
    crate::hex::lemma_hex_round_trip(bytes@);
}

} // verus!
