//! Text codecs for binary values: `0x`-prefixed hex for byte strings, decimal
//! and canonical hex for 256-bit unsigned integers, lists of byte strings, and
//! JSON documents embedded in a single string.
//!
//! Every hex and integer decode function states exactly which tokens it accepts,
//! what it returns for them, and which error it reports for every other token.

pub mod error;
pub mod hex;
pub mod fixed_bytes_hex;
pub mod hex_vec;
pub mod u8_hex;
pub mod address_hex;
pub mod b256_hex;
pub mod uint256;
pub mod u256_dec;
pub mod u256_hex_be;
pub mod list_of_bytes_lists;
pub mod json_str;
pub mod prefix_rules;
