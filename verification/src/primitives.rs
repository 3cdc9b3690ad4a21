//! The fixed-width values of the source chain: addresses, 32-byte words and
//! the Keccak-256 hash.

use vstd::prelude::*;
use crate::hexcodec::{all_hex, hex_bytes, without_prefix};

verus! {

/// An address of the source chain: twenty bytes.
#[derive(Debug, Clone, Copy, PartialEq, Eq)]
pub struct Address {
    pub bytes: [u8; 20],
}

/// A word of 32 bytes, such as a hash.
#[derive(Debug, Clone, Copy, PartialEq, Eq)]
pub struct B256 {
    pub bytes: [u8; 32],
}

/// The `n` bytes that `text` writes: `2 * n` hexadecimal digits, in either
/// case, behind at most one `0x`. Any other text writes none.
pub open spec fn fixed_hex(text: Seq<char>, n: nat) -> Option<Seq<u8>> {
    let digits = without_prefix(text);
    if digits.len() == 2 * n && all_hex(digits) {
        Some(hex_bytes(digits))
    } else {
        None
    }
}

/// The Keccak-256 hash of `bytes`, as `alloy::primitives::keccak256`
/// computes it: 32 bytes.
pub uninterp spec fn keccak256_of(bytes: Seq<u8>) -> Seq<u8>;

/// Calls `str::parse` for alloy's `Address`: twenty bytes written as forty
/// hexadecimal digits, with or without `0x` in front. No checksum is asked
/// for.
#[verifier::external_body]
pub(crate) fn parse_address(text: &str) -> (r: Option<Address>)
    ensures
        r.is_some() == fixed_hex(text@, 20).is_some(),
        r.is_some() ==> Some(r.unwrap().bytes@) == fixed_hex(text@, 20),
{
    match text.parse::<alloy::primitives::Address>() {
        Ok(a) => Some(Address { bytes: a.into_array() }),
        Err(_) => None,
    }
}

/// Calls `str::parse` for alloy's `B256`: 32 bytes written as 64
/// hexadecimal digits, with or without `0x` in front.
#[verifier::external_body]
pub(crate) fn parse_b256(text: &str) -> (r: Option<B256>)
    ensures
        r.is_some() == fixed_hex(text@, 32).is_some(),
        r.is_some() ==> Some(r.unwrap().bytes@) == fixed_hex(text@, 32),
{
    match text.parse::<alloy::primitives::B256>() {
        Ok(h) => Some(B256 { bytes: h.0 }),
        Err(_) => None,
    }
}

/// Calls `alloy::primitives::keccak256`. The contract names the hash
/// [`keccak256_of`].
#[verifier::external_body]
pub(crate) fn keccak256(bytes: &[u8]) -> (r: B256)
    ensures
        r.bytes@ == keccak256_of(bytes@),
{
    B256 { bytes: alloy::primitives::keccak256(bytes).0 }
}

} // verus!
