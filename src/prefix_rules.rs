//! The `0x` marker across the hex codecs.
use vstd::prelude::*;
use crate::error::CodecError;
use crate::fixed_bytes_hex::read_fixed_hex;
use crate::hex::{has_prefix, read_prefixed_hex};
use crate::u256_hex_be::read_canonical_hex;

verus! {

/// A token without the `0x` marker is refused with `MissingPrefix` by every
/// codec that requires it: variable-length bytes, bytes of any fixed length,
/// and canonical hex quantities.
pub proof fn lemma_missing_prefix_rejected(t: Seq<char>, n: nat)
    requires
        !has_prefix(t),
    ensures
        read_prefixed_hex(t) == Err::<Seq<u8>, CodecError>(CodecError::MissingPrefix),
        read_fixed_hex(t, n) == Err::<Seq<u8>, CodecError>(CodecError::MissingPrefix),
        read_canonical_hex(t) == Err::<nat, CodecError>(CodecError::MissingPrefix),
{
}

} // verus!
