//! Bytes as hexadecimal text and back, through the `hex` crate.

use vstd::prelude::*;
use vstd::string::StringExecFns;

verus! {

/// Whether `c` is a hexadecimal digit, in either case.
pub open spec fn is_hex_digit(c: char) -> bool {
    ('0' <= c && c <= '9') || ('a' <= c && c <= 'f') || ('A' <= c && c <= 'F')
}

/// The number that the hexadecimal digit `c` stands for.
pub open spec fn hex_digit_value(c: char) -> nat {
    if '0' <= c && c <= '9' {
        (c as u32 - '0' as u32) as nat
    } else if 'a' <= c && c <= 'f' {
        (c as u32 - 'a' as u32 + 10) as nat
    } else {
        (c as u32 - 'A' as u32 + 10) as nat
    }
}

/// The lower-case hexadecimal digit for `n`, for `n` below sixteen.
pub open spec fn hex_char(n: nat) -> char {
    if n == 0 {
        '0'
    } else if n == 1 {
        '1'
    } else if n == 2 {
        '2'
    } else if n == 3 {
        '3'
    } else if n == 4 {
        '4'
    } else if n == 5 {
        '5'
    } else if n == 6 {
        '6'
    } else if n == 7 {
        '7'
    } else if n == 8 {
        '8'
    } else if n == 9 {
        '9'
    } else if n == 10 {
        'a'
    } else if n == 11 {
        'b'
    } else if n == 12 {
        'c'
    } else if n == 13 {
        'd'
    } else if n == 14 {
        'e'
    } else {
        'f'
    }
}

/// Whether every character of `text` is a hexadecimal digit.
pub open spec fn all_hex(text: Seq<char>) -> bool {
    forall|i: int| 0 <= i < text.len() ==> is_hex_digit(#[trigger] text[i])
}

/// `bytes` in lower-case hexadecimal text, two digits for each byte.
pub open spec fn hex_text(bytes: Seq<u8>) -> Seq<char> {
    Seq::new(
        2 * bytes.len(),
        |i: int|
            if i % 2 == 0 {
                hex_char((bytes[i / 2] / 16) as nat)
            } else {
                hex_char((bytes[i / 2] % 16) as nat)
            },
    )
}

/// The bytes that a text of hexadecimal digit pairs writes.
pub open spec fn hex_bytes(text: Seq<char>) -> Seq<u8> {
    Seq::new(
        text.len() / 2,
        |i: int| (16 * hex_digit_value(text[2 * i]) + hex_digit_value(text[2 * i + 1])) as u8,
    )
}

/// The bytes that `text` writes in hexadecimal, where it is an even number
/// of hexadecimal digits and nothing else.
pub open spec fn hex_decoded(text: Seq<char>) -> Option<Seq<u8>> {
    if text.len() % 2 == 0 && all_hex(text) {
        Some(hex_bytes(text))
    } else {
        None
    }
}

/// `text` without one leading `0x`, where it has one.
pub open spec fn without_prefix(text: Seq<char>) -> Seq<char> {
    if text.len() >= 2 && text[0] == '0' && text[1] == 'x' {
        text.skip(2)
    } else {
        text
    }
}

/// The error of `hex::decode`. It is carried through as it is: nothing is
/// known of what it holds.
#[verifier::external_type_specification]
#[verifier::external_body]
pub struct ExFromHexError(hex::FromHexError);

/// Calls `hex::encode`: two lower-case hexadecimal digits for each byte, in
/// order.
#[verifier::external_body]
pub(crate) fn hex_encode(bytes: &[u8]) -> (r: String)
    ensures
        r@ == hex_text(bytes@),
{
    hex::encode(bytes)
}

/// Calls `hex::decode`: the bytes of a text that is an even number of
/// hexadecimal digits, in either case; any other text is an error.
#[verifier::external_body]
pub(crate) fn hex_decode(text: &str) -> (r: Result<Vec<u8>, hex::FromHexError>)
    ensures
        r.is_ok() == hex_decoded(text@).is_some(),
        r.is_ok() ==> Some(r.unwrap()@) == hex_decoded(text@),
{
    hex::decode(text)
}

/// Calls `to_string` on an error of `hex::decode`: the error in words.
/// Nothing is claimed of the words.
#[verifier::external_body]
pub(crate) fn hex_error_text(error: &hex::FromHexError) -> (r: String) {
    error.to_string()
}

/// Drops one leading `0x` from `text`, where it has one.
pub fn strip_prefix(text: &str) -> (r: &str)
    ensures
        r@ == without_prefix(text@),
{
    let n = text.unicode_len();
    if n >= 2 && text.get_char(0) == '0' && text.get_char(1) == 'x' {
        let r = text.substring_char(2, n);
        assert(r@ =~= text@.skip(2));
        r
    } else {
        text
    }
}

/// `bytes` in lower-case hexadecimal behind `0x`.
pub open spec fn prefixed_hex(bytes: Seq<u8>) -> Seq<char> {
    "0x"@ + hex_text(bytes)
}

/// `bytes` in lower-case hexadecimal behind `0x`.
pub fn to_prefixed_hex(bytes: &[u8]) -> (r: String)
    ensures
        r@ == prefixed_hex(bytes@),
{
    let digits = hex_encode(bytes);
    let mut out = String::from_str("0x");
    out.append(digits.as_str());
    out
}

} // verus!
