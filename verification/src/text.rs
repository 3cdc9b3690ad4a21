//! Comparing and lower-casing text, and reading unsigned integers.

use vstd::prelude::*;
use crate::uint::{all_digits, decimal_value};

verus! {

/// Whether two texts hold the same characters.
pub fn same_text(a: &str, b: &str) -> (r: bool)
    ensures
        r == (a@ == b@),
{
    let x = a.to_owned();
    let y = b.to_owned();
    x == y
}

/// The lower-case form of a text, as `str::to_lowercase` of std gives it.
pub uninterp spec fn lowercase_of(text: Seq<char>) -> Seq<char>;

/// Calls `str::to_lowercase` of std. The contract names the outcome
/// [`lowercase_of`].
#[verifier::external_body]
pub(crate) fn to_lowercase(text: &str) -> (r: String)
    ensures
        r@ == lowercase_of(text@),
{
    text.to_lowercase()
}

/// The unsigned integer up to `max` that a text writes in base ten: one or
/// more ASCII digits, behind at most one `+`. Any other text writes none.
pub open spec fn unsigned_from_text(text: Seq<char>, max: nat) -> Option<nat> {
    let digits = if text.len() > 0 && text[0] == '+' {
        text.skip(1)
    } else {
        text
    };
    if digits.len() > 0 && all_digits(digits) && decimal_value(digits) <= max {
        Some(decimal_value(digits))
    } else {
        None
    }
}

/// Calls `str::parse` of std for `u64`: digits behind an optional `+`, and
/// an error for anything else or for a number that does not fit.
#[verifier::external_body]
pub(crate) fn parse_u64(text: &str) -> (r: Option<u64>)
    ensures
        r.is_some() == unsigned_from_text(text@, u64::MAX as nat).is_some(),
        r.is_some() ==> Some(r.unwrap() as nat) == unsigned_from_text(text@, u64::MAX as nat),
{
    text.parse::<u64>().ok()
}

/// Calls `str::parse` of std for `u32`: digits behind an optional `+`, and
/// an error for anything else or for a number that does not fit.
#[verifier::external_body]
pub(crate) fn parse_u32(text: &str) -> (r: Option<u32>)
    ensures
        r.is_some() == unsigned_from_text(text@, u32::MAX as nat).is_some(),
        r.is_some() ==> Some(r.unwrap() as nat) == unsigned_from_text(text@, u32::MAX as nat),
{
    text.parse::<u32>().ok()
}

/// Calls `str::parse` of std for `u16`: digits behind an optional `+`, and
/// an error for anything else or for a number that does not fit.
#[verifier::external_body]
pub(crate) fn parse_u16(text: &str) -> (r: Option<u16>)
    ensures
        r.is_some() == unsigned_from_text(text@, u16::MAX as nat).is_some(),
        r.is_some() ==> Some(r.unwrap() as nat) == unsigned_from_text(text@, u16::MAX as nat),
{
    text.parse::<u16>().ok()
}

} // verus!
