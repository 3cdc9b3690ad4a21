//! Amounts with eighteen decimals: reading a text such as "1.5" or "10" into
//! the smallest unit, and writing an amount for display.

use vstd::prelude::*;
use crate::uint::{
    all_digits, decimal_text, decimal_value, digit_char, div_rem, is_digit, lemma_pow10_monotone,
    lemma_pow10_values, modulus, parse_u256, pow10, pow10_u64, push_digit, to_decimal,
    u256_from_text,
    wrapping_add, wrapping_mul, U256,
};

verus! {

/// Why a text is no amount.
#[derive(Debug, Clone, Copy, PartialEq, Eq, Structural)]
pub enum AmountError {
    /// More than one `.` in the text.
    InvalidFormat,
    /// The part before the `.` is no number.
    InvalidWhole,
    /// More than eighteen characters after the `.`.
    TooManyDecimals,
    /// The part after the `.` is no number.
    InvalidFraction,
    /// A text without `.` that is no number.
    InvalidAmount,
}

impl AmountError {
    /// The words that go with the error.
    pub fn message(&self) -> (r: &'static str)
        ensures
            r@ == match *self {
                AmountError::InvalidFormat => "Invalid amount format"@,
                AmountError::InvalidWhole => "Invalid whole number part"@,
                AmountError::TooManyDecimals => "Too many decimal places (max 18)"@,
                AmountError::InvalidFraction => "Invalid decimal part"@,
                AmountError::InvalidAmount => "Invalid amount"@,
            },
    {
        match self {
            AmountError::InvalidFormat => "Invalid amount format",
            AmountError::InvalidWhole => "Invalid whole number part",
            AmountError::TooManyDecimals => "Too many decimal places (max 18)",
            AmountError::InvalidFraction => "Invalid decimal part",
            AmountError::InvalidAmount => "Invalid amount",
        }
    }
}

/// The text before the first `.`; the whole text where there is none.
pub open spec fn whole_text(text: Seq<char>) -> Seq<char> {
    match text.index_of_first('.') {
        Some(i) => text.subrange(0, i),
        None => text,
    }
}

/// The text after the first `.`; empty where there is none.
pub open spec fn fraction_text(text: Seq<char>) -> Seq<char> {
    match text.index_of_first('.') {
        Some(i) => text.subrange(i + 1, text.len() as int),
        None => Seq::empty(),
    }
}

/// A whole part and a fraction of `frac_len` digits, in the smallest unit,
/// modulo two to the power 256.
pub open spec fn scaled(whole: nat, frac: nat, frac_len: nat) -> nat {
    (whole * pow10(18) + frac * pow10((18 - frac_len) as nat)) % modulus()
}

/// A number written without `.`: below 1000 it counts display units, from
/// 1000 on the smallest unit.
pub open spec fn scaled_integer(v: nat) -> nat {
    if v < 1000 {
        v * pow10(18)
    } else {
        v
    }
}

/// What [`parse_amount`] makes of a text.
pub open spec fn parse_amount_spec(text: Seq<char>) -> Result<nat, AmountError> {
    if text.contains('.') {
        let whole = u256_from_text(whole_text(text));
        let frac = u256_from_text(fraction_text(text));
        if fraction_text(text).contains('.') {
            Err(AmountError::InvalidFormat)
        } else if whole.is_none() {
            Err(AmountError::InvalidWhole)
        } else if fraction_text(text).len() > 18 {
            Err(AmountError::TooManyDecimals)
        } else if frac.is_none() {
            Err(AmountError::InvalidFraction)
        } else {
            Ok(scaled(whole.unwrap(), frac.unwrap(), fraction_text(text).len()))
        }
    } else {
        match u256_from_text(text) {
            None => Err(AmountError::InvalidAmount),
            Some(v) => Ok(scaled_integer(v)),
        }
    }
}

/// The four digits of a number below ten thousand.
pub open spec fn four_digits(n: nat) -> Seq<char> {
    seq![
        digit_char(n / 1000),
        digit_char((n / 100) % 10),
        digit_char((n / 10) % 10),
        digit_char(n % 10),
    ]
}

/// An amount of the smallest unit for display: the whole units, and four
/// decimals after a `.` unless all four are zero.
pub open spec fn format_units_spec(v: nat) -> Seq<char> {
    let whole = v / pow10(18);
    let frac = (v % pow10(18)) / pow10(14);
    if frac == 0 {
        decimal_text(whole)
    } else {
        decimal_text(whole) + seq!['.'] + four_digits(frac)
    }
}

/// What [`format_amount`] makes of a text: a text that is no number counts
/// as zero.
pub open spec fn format_amount_spec(text: Seq<char>) -> Seq<char> {
    match u256_from_text(text) {
        Some(v) => format_units_spec(v),
        None => format_units_spec(0),
    }
}

/// In `w.f` with no `.` in `w`, the text before the first `.` is `w` and the
/// text after it is `f`.
pub proof fn lemma_decimal_parts(w: Seq<char>, f: Seq<char>)
    requires
        !w.contains('.'),
    ensures
        (w + seq!['.'] + f).contains('.'),
        whole_text(w + seq!['.'] + f) == w,
        fraction_text(w + seq!['.'] + f) == f,
{
    let text = w + seq!['.'] + f;
    assert(text[w.len() as int] == '.');
    text.index_of_first_ensures('.');
    let i = text.index_of_first('.').unwrap();
    if i < w.len() {
        assert(w[i] == text[i]);
        assert(w.contains('.'));
    }
    assert(i == w.len());
    assert(text.subrange(0, i) =~= w);
    assert(text.subrange(i + 1, text.len() as int) =~= f);
}

/// A text of digits holds no `.`.
pub proof fn lemma_digits_hold_no_dot(s: Seq<char>)
    requires
        all_digits(s),
    ensures
        !s.contains('.'),
{
    if s.contains('.') {
        let i = choose|i: int| 0 <= i < s.len() && s[i] == '.';
        assert(is_digit(s[i]));
    }
}

/// The whole part `whole` and the fraction `frac`, written with `frac_len`
/// digits, as one amount of the smallest unit.
pub fn scale_decimal(whole: U256, frac: U256, frac_len: u32) -> (r: U256)
    requires
        frac_len <= 18,
    ensures
        r.value() == scaled(whole.value(), frac.value(), frac_len as nat),
{
    let scale = U256::from_u64(pow10_u64(18));
    let frac_scale = U256::from_u64(pow10_u64(18 - frac_len));
    let high = wrapping_mul(whole, scale);
    let low = wrapping_mul(frac, frac_scale);
    let r = wrapping_add(high, low);
    proof {
        let a: int = (whole.value() * pow10(18)) as int;
        let b: int = (frac.value() * pow10((18 - frac_len) as nat)) as int;
        let m: int = modulus() as int;
        assert(a >= 0 && b >= 0) by (nonlinear_arith)
            requires
                a == whole.value() * pow10(18),
                b == frac.value() * pow10((18 - frac_len) as nat),
        ;
        vstd::arithmetic::div_mod::lemma_add_mod_noop(a, b, m);
    }
    r
}

/// A number written without `.` as an amount of the smallest unit.
pub fn scale_integer(value: U256) -> (r: U256)
    ensures
        r.value() == scaled_integer(value.value()),
{
    if value.below_u64(1000) {
        let scale = U256::from_u64(pow10_u64(18));
        let r = wrapping_mul(value, scale);
        proof {
            lemma_pow10_values();
            assert(value.value() * pow10(18) < modulus()) by (nonlinear_arith)
                requires
                    value.value() < 1000,
                    pow10(18) == 1_000_000_000_000_000_000,
                    modulus()
                        == 0x1_0000_0000_0000_0000_0000_0000_0000_0000_0000_0000_0000_0000_0000_0000_0000_0000nat,
            ;
            vstd::arithmetic::div_mod::lemma_small_mod(
                value.value() * pow10(18),
                modulus(),
            );
        }
        r
    } else {
        value
    }
}

/// Reads an amount. With a `.` the text is whole units and up to eighteen
/// decimals; without one it is a number that counts whole units below 1000
/// and the smallest unit from 1000 on.
///
/// For a text `w.f` of digits with at most eighteen in `f`, the result is
/// `w * 10^18 + f * 10^(18 - len(f))`, as long as that is below two to the
/// power 256. For a text of digits without `.` that writes a number below
/// 1000 it is that number times `10^18`, and from 1000 on the number itself.
pub fn parse_amount(amount_str: &str) -> (r: Result<U256, AmountError>)
    ensures
        match r {
            Ok(v) => parse_amount_spec(amount_str@) == Ok::<nat, AmountError>(v.value()),
            Err(e) => parse_amount_spec(amount_str@) == Err::<nat, AmountError>(e),
        },
        ({
            let w = whole_text(amount_str@);
            let f = fraction_text(amount_str@);
            let total = decimal_value(w) * pow10(18) + decimal_value(f) * pow10(
                (18 - f.len()) as nat,
            );
            amount_str@.contains('.') && all_digits(w) && all_digits(f) && f.len() <= 18 && total
                < modulus() ==> r.is_ok() && r.unwrap().value() == total
        }),
        all_digits(amount_str@) && decimal_value(amount_str@) < modulus() ==> r.is_ok()
            && r.unwrap().value() == scaled_integer(decimal_value(amount_str@)),
{
    let n = amount_str.unicode_len();
    let mut i: usize = 0;
    while i < n && amount_str.get_char(i) != '.'
        invariant
            i <= n,
            n == amount_str@.len(),
            forall|j: int| 0 <= j < i ==> amount_str@[j] != '.',
        decreases n - i,
    {
        i = i + 1;
    }
    proof {
        amount_str@.index_of_first_ensures('.');
    }
    if i == n {
        assert(!amount_str@.contains('.'));
        match parse_u256(amount_str) {
            None => Err(AmountError::InvalidAmount),
            Some(v) => Ok(scale_integer(v)),
        }
    } else {
        assert(amount_str@[i as int] == '.');
        assert(amount_str@.index_of_first('.') == Some(i as int));
        let whole_str = amount_str.substring_char(0, i);
        let frac_str = amount_str.substring_char(i + 1, n);
        let frac_len = n - i - 1;
        assert(whole_str@ == whole_text(amount_str@));
        assert(frac_str@ == fraction_text(amount_str@));
        let mut j: usize = 0;
        while j < frac_len
            invariant
                j <= frac_len,
                frac_len == frac_str@.len(),
                amount_str@.contains('.'),
                frac_str@ == fraction_text(amount_str@),
                forall|k: int| 0 <= k < j ==> frac_str@[k] != '.',
            decreases frac_len - j,
        {
            if frac_str.get_char(j) == '.' {
                assert(frac_str@.contains('.'));
                proof {
                    if all_digits(frac_str@) {
                        lemma_digits_hold_no_dot(frac_str@);
                    }
                }
                return Err(AmountError::InvalidFormat);
            }
            j = j + 1;
        }
        assert(!frac_str@.contains('.'));
        let whole = match parse_u256(whole_str) {
            None => {
                proof {
                    if frac_str@.len() <= 18 {
                        lemma_total_bounds_parts(whole_str@, frac_str@);
                    }
                }
                return Err(AmountError::InvalidWhole);
            },
            Some(v) => v,
        };
        if frac_len > 18 {
            return Err(AmountError::TooManyDecimals);
        }
        let frac = match parse_u256(frac_str) {
            None => {
                proof {
                    lemma_total_bounds_parts(whole_str@, frac_str@);
                }
                return Err(AmountError::InvalidFraction);
            },
            Some(v) => v,
        };
        let r = scale_decimal(whole, frac, frac_len as u32);
        proof {
            let total = decimal_value(whole_str@) * pow10(18) + decimal_value(frac_str@) * pow10(
                (18 - frac_len) as nat,
            );
            if all_digits(whole_str@) && all_digits(frac_str@) && total < modulus() {
                lemma_total_bounds_parts(whole_str@, frac_str@);
                vstd::arithmetic::div_mod::lemma_small_mod(total, modulus());
            }
        }
        Ok(r)
    }
}

/// Where `w * 10^18 + f * 10^(18 - len(f))` is below a bound, so are the
/// numbers that `w` and `f` write.
pub proof fn lemma_total_bounds_parts(w: Seq<char>, f: Seq<char>)
    requires
        f.len() <= 18,
    ensures
        decimal_value(w) <= decimal_value(w) * pow10(18) + decimal_value(f) * pow10(
            (18 - f.len()) as nat,
        ),
        decimal_value(f) <= decimal_value(w) * pow10(18) + decimal_value(f) * pow10(
            (18 - f.len()) as nat,
        ),
{
    lemma_pow10_monotone(0, 18);
    lemma_pow10_monotone(0, (18 - f.len()) as nat);
    let a = decimal_value(w);
    let b = decimal_value(f);
    let p = pow10(18);
    let q = pow10((18 - f.len()) as nat);
    assert(a <= a * p && b <= b * q && a * p >= 0 && b * q >= 0) by (nonlinear_arith)
        requires
            p >= 1,
            q >= 1,
    ;
}

/// Writes an amount of the smallest unit for display: the whole units, then
/// `.` and four decimals unless those are all zero.
pub fn format_units(amount: U256) -> (r: String)
    ensures
        r@ == format_units_spec(amount.value()),
{
    proof {
        lemma_pow10_values();
    }
    let (whole, rest) = div_rem(amount, U256::from_u64(pow10_u64(18)));
    let (frac, _) = div_rem(rest, U256::from_u64(pow10_u64(14)));
    let mut out = to_decimal(whole);
    if frac.is_zero() {
        out
    } else {
        assert(frac.value() < 10_000) by (nonlinear_arith)
            requires
                frac.value() == rest.value() / 100_000_000_000_000,
                rest.value() < 1_000_000_000_000_000_000,
        ;
        let f: u64 = match frac.to_u64() {
            Some(x) => x,
            None => 0,
        };
        proof {
            reveal_strlit(".");
        }
        out.append(".");
        push_digit(&mut out, f / 1000);
        push_digit(&mut out, (f / 100) % 10);
        push_digit(&mut out, (f / 10) % 10);
        push_digit(&mut out, f % 10);
        assert(out@ =~= decimal_text(whole.value()) + seq!['.'] + four_digits(f as nat));
        out
    }
}

/// Writes the amount that `amount` holds, a number of the smallest unit, for
/// display. A text that is no number is shown as zero.
///
/// Where the amount is a whole number of units, the result is that number
/// alone.
pub fn format_amount(amount: &str) -> (r: String)
    ensures
        r@ == format_amount_spec(amount@),
        all_digits(amount@) && decimal_value(amount@) < modulus() ==> r@ == format_units_spec(
            decimal_value(amount@),
        ),
        all_digits(amount@) && decimal_value(amount@) < modulus() && decimal_value(amount@) % pow10(
            18,
        ) == 0 ==> r@ == decimal_text(decimal_value(amount@) / pow10(18)),
{
    let value = match parse_u256(amount) {
        Some(v) => v,
        None => U256::zero(),
    };
    proof {
        lemma_pow10_values();
    }
    format_units(value)
}

} // verus!
