//! 256-bit unsigned integers as four 64-bit limbs, with the arithmetic of
//! `alloy::primitives::U256` behind contracts over natural numbers.

use vstd::prelude::*;
use vstd::string::StringExecFns;

verus! {

/// Two to the power 64.
pub open spec fn two_64() -> nat {
    0x1_0000_0000_0000_0000nat
}

/// Two to the power 128.
pub open spec fn two_128() -> nat {
    0x1_0000_0000_0000_0000_0000_0000_0000_0000nat
}

/// Two to the power 192.
pub open spec fn two_192() -> nat {
    0x1_0000_0000_0000_0000_0000_0000_0000_0000_0000_0000_0000_0000nat
}

/// Two to the power 256: the number of values of a [`U256`].
pub open spec fn modulus() -> nat {
    0x1_0000_0000_0000_0000_0000_0000_0000_0000_0000_0000_0000_0000_0000_0000_0000_0000nat
}

/// Ten to the power `k`.
pub open spec fn pow10(k: nat) -> nat
    decreases k,
{
    if k == 0 {
        1
    } else {
        10 * pow10((k - 1) as nat)
    }
}

/// Whether `c` is one of the ten ASCII digits.
pub open spec fn is_digit(c: char) -> bool {
    '0' <= c && c <= '9'
}

/// The number that the ASCII digit `c` stands for.
pub open spec fn digit_value(c: char) -> nat {
    (c as u32 - '0' as u32) as nat
}

/// Whether every character of `s` is an ASCII digit. The empty text counts.
pub open spec fn all_digits(s: Seq<char>) -> bool {
    forall|i: int| 0 <= i < s.len() ==> is_digit(#[trigger] s[i])
}

/// The number that a text of ASCII digits writes in base ten; 0 for the
/// empty text.
pub open spec fn decimal_value(s: Seq<char>) -> nat
    decreases s.len(),
{
    if s.len() == 0 {
        0
    } else {
        10 * decimal_value(s.drop_last()) + digit_value(s.last())
    }
}

/// The ASCII digit for `d`, for `d` below ten.
pub open spec fn digit_char(d: nat) -> char {
    if d == 0 {
        '0'
    } else if d == 1 {
        '1'
    } else if d == 2 {
        '2'
    } else if d == 3 {
        '3'
    } else if d == 4 {
        '4'
    } else if d == 5 {
        '5'
    } else if d == 6 {
        '6'
    } else if d == 7 {
        '7'
    } else if d == 8 {
        '8'
    } else {
        '9'
    }
}

/// `n` written in base ten without leading zeros; "0" for zero.
pub open spec fn decimal_text(n: nat) -> Seq<char>
    decreases n,
{
    if n < 10 {
        seq![digit_char(n)]
    } else {
        decimal_text(n / 10).push(digit_char(n % 10))
    }
}

/// The number that `bytes` writes in base 256, most significant byte first.
pub open spec fn be_value(bytes: Seq<u8>) -> nat
    decreases bytes.len(),
{
    if bytes.len() == 0 {
        0
    } else {
        256 * be_value(bytes.drop_last()) + bytes.last() as nat
    }
}

/// 256 to the power `k`.
pub open spec fn pow256(k: nat) -> nat
    decreases k,
{
    if k == 0 {
        1
    } else {
        256 * pow256((k - 1) as nat)
    }
}

/// The 32 bytes that write `n` in base 256, most significant byte first.
pub open spec fn be_bytes32(n: nat) -> Seq<u8> {
    Seq::new(32, |i: int| ((n / pow256((31 - i) as nat)) % 256) as u8)
}

/// What `U256::from_str` of alloy makes of a text: the number, or `None`
/// where it refuses the text.
pub uninterp spec fn u256_from_text(text: Seq<char>) -> Option<nat>;

/// An unsigned integer below two to the power 256, least significant limb
/// first.
#[derive(Debug, Clone, Copy, PartialEq, Eq, Structural)]
pub struct U256 {
    pub w0: u64,
    pub w1: u64,
    pub w2: u64,
    pub w3: u64,
}

impl U256 {
    /// The number that the four limbs stand for.
    pub open spec fn value(self) -> nat {
        self.w0 as nat + self.w1 as nat * two_64() + self.w2 as nat * two_128() + self.w3 as nat
            * two_192()
    }

    /// The value zero.
    pub fn zero() -> (r: U256)
        ensures
            r.value() == 0,
    {
        U256 { w0: 0, w1: 0, w2: 0, w3: 0 }
    }

    /// The integer `x`.
    pub fn from_u64(x: u64) -> (r: U256)
        ensures
            r.value() == x,
    {
        U256 { w0: x, w1: 0, w2: 0, w3: 0 }
    }

    /// The integer `x`.
    pub fn from_u128(x: u128) -> (r: U256)
        ensures
            r.value() == x,
    {
        let low: u64 = (x % 0x1_0000_0000_0000_0000u128) as u64;
        let high: u64 = (x / 0x1_0000_0000_0000_0000u128) as u64;
        U256 { w0: low, w1: high, w2: 0, w3: 0 }
    }

    /// Whether the value is zero.
    pub fn is_zero(&self) -> (r: bool)
        ensures
            r == (self.value() == 0),
    {
        proof {
            assert(self.w1 as nat * two_64() >= self.w1) by (nonlinear_arith);
            assert(self.w2 as nat * two_128() >= self.w2) by (nonlinear_arith);
            assert(self.w3 as nat * two_192() >= self.w3) by (nonlinear_arith);
        }
        self.w0 == 0 && self.w1 == 0 && self.w2 == 0 && self.w3 == 0
    }

    /// Whether the value is below the integer `bound`.
    pub fn below_u64(&self, bound: u64) -> (r: bool)
        ensures
            r == (self.value() < bound),
    {
        proof {
            assert(self.w1 > 0 ==> self.w1 as nat * two_64() >= two_64()) by (nonlinear_arith);
            assert(self.w2 > 0 ==> self.w2 as nat * two_128() >= two_64()) by (nonlinear_arith);
            assert(self.w3 > 0 ==> self.w3 as nat * two_192() >= two_64()) by (nonlinear_arith);
        }
        self.w1 == 0 && self.w2 == 0 && self.w3 == 0 && self.w0 < bound
    }

    /// The value as a `u64`, where it fits.
    pub fn to_u64(&self) -> (r: Option<u64>)
        ensures
            r.is_some() == (self.value() < two_64()),
            r matches Some(x) ==> x == self.value(),
    {
        proof {
            assert(self.w1 > 0 ==> self.w1 as nat * two_64() >= two_64()) by (nonlinear_arith);
            assert(self.w2 > 0 ==> self.w2 as nat * two_128() >= two_64()) by (nonlinear_arith);
            assert(self.w3 > 0 ==> self.w3 as nat * two_192() >= two_64()) by (nonlinear_arith);
        }
        if self.w1 == 0 && self.w2 == 0 && self.w3 == 0 {
            Some(self.w0)
        } else {
            None
        }
    }
}

/// Ten to the power `k` as a `u64`, for `k` up to 19.
pub fn pow10_u64(k: u32) -> (r: u64)
    requires
        k <= 19,
    ensures
        r == pow10(k as nat),
{
    let mut r: u64 = 1;
    let mut i: u32 = 0;
    while i < k
        invariant
            i <= k <= 19,
            r == pow10(i as nat),
        decreases k - i,
    {
        proof {
            lemma_pow10_monotone((i + 1) as nat, 19);
            lemma_pow10_values();
        }
        r = r * 10;
        i = i + 1;
    }
    r
}

/// The powers of ten grow with the exponent.
pub proof fn lemma_pow10_monotone(a: nat, b: nat)
    requires
        a <= b,
    ensures
        pow10(a) <= pow10(b),
        pow10(a) >= 1,
    decreases b,
{
    if a < b {
        lemma_pow10_monotone(a, (b - 1) as nat);
    } else if a > 0 {
        lemma_pow10_monotone((a - 1) as nat, (a - 1) as nat);
    }
}

/// The powers of ten that the amounts use, written out.
pub proof fn lemma_pow10_values()
    ensures
        pow10(0) == 1,
        pow10(4) == 10_000,
        pow10(14) == 100_000_000_000_000,
        pow10(18) == 1_000_000_000_000_000_000,
        pow10(19) == 10_000_000_000_000_000_000,
{
    reveal_with_fuel(pow10, 20);
}

/// Appends the digit for `d` to `s`.
pub fn push_digit(s: &mut String, d: u64)
    requires
        d < 10,
    ensures
        final(s)@ == old(s)@.push(digit_char(d as nat)),
{
    proof {
        reveal_strlit("0");
        reveal_strlit("1");
        reveal_strlit("2");
        reveal_strlit("3");
        reveal_strlit("4");
        reveal_strlit("5");
        reveal_strlit("6");
        reveal_strlit("7");
        reveal_strlit("8");
        reveal_strlit("9");
    }
    let t: &str = if d == 0 {
        "0"
    } else if d == 1 {
        "1"
    } else if d == 2 {
        "2"
    } else if d == 3 {
        "3"
    } else if d == 4 {
        "4"
    } else if d == 5 {
        "5"
    } else if d == 6 {
        "6"
    } else if d == 7 {
        "7"
    } else if d == 8 {
        "8"
    } else {
        "9"
    };
    assert(t@ =~= seq![digit_char(d as nat)]);
    s.append(t);
    assert(s@ =~= old(s)@.push(digit_char(d as nat)));
}

/// `n` written in base ten.
pub fn u64_to_decimal(n: u64) -> (r: String)
    ensures
        r@ == decimal_text(n as nat),
    decreases n,
{
    if n < 10 {
        let mut s = String::new();
        push_digit(&mut s, n);
        assert(s@ =~= seq![digit_char(n as nat)]);
        s
    } else {
        let mut s = u64_to_decimal(n / 10);
        push_digit(&mut s, n % 10);
        s
    }
}

/// Calls `U256::from_str` of alloy on `text` and hands the limbs over. The
/// contract names the outcome [`u256_from_text`], and says what that parser
/// makes of a text of ASCII digits alone: its base-ten value where that is
/// below two to the power 256, a refusal where it is not.
#[verifier::external_body]
pub(crate) fn parse_u256(text: &str) -> (r: Option<U256>)
    ensures
        match r {
            Some(v) => u256_from_text(text@) == Some(v.value()),
            None => u256_from_text(text@).is_none(),
        },
        all_digits(text@) ==> r.is_some() == (decimal_value(text@) < modulus()),
        all_digits(text@) && r.is_some() ==> r.unwrap().value() == decimal_value(text@),
{
    match text.parse::<alloy::primitives::U256>() {
        Ok(v) => {
            let l = v.into_limbs();
            Some(U256 { w0: l[0], w1: l[1], w2: l[2], w3: l[3] })
        },
        Err(_) => None,
    }
}

/// Calls `U256::wrapping_mul` of alloy: the product modulo two to the power
/// 256, which is also what `*` on that type computes.
#[verifier::external_body]
pub(crate) fn wrapping_mul(a: U256, b: U256) -> (r: U256)
    ensures
        r.value() == (a.value() * b.value()) % modulus(),
{
    let x = alloy::primitives::U256::from_limbs([a.w0, a.w1, a.w2, a.w3]);
    let y = alloy::primitives::U256::from_limbs([b.w0, b.w1, b.w2, b.w3]);
    let l = x.wrapping_mul(y).into_limbs();
    U256 { w0: l[0], w1: l[1], w2: l[2], w3: l[3] }
}

/// Calls `U256::wrapping_add` of alloy: the sum modulo two to the power 256,
/// which is also what `+` on that type computes.
#[verifier::external_body]
pub(crate) fn wrapping_add(a: U256, b: U256) -> (r: U256)
    ensures
        r.value() == (a.value() + b.value()) % modulus(),
{
    let x = alloy::primitives::U256::from_limbs([a.w0, a.w1, a.w2, a.w3]);
    let y = alloy::primitives::U256::from_limbs([b.w0, b.w1, b.w2, b.w3]);
    let l = x.wrapping_add(y).into_limbs();
    U256 { w0: l[0], w1: l[1], w2: l[2], w3: l[3] }
}

/// Calls `U256::div_rem` of alloy: quotient and remainder of the division
/// by a divisor other than zero.
#[verifier::external_body]
pub(crate) fn div_rem(a: U256, b: U256) -> (r: (U256, U256))
    requires
        b.value() != 0,
    ensures
        r.0.value() == a.value() / b.value(),
        r.1.value() == a.value() % b.value(),
{
    let x = alloy::primitives::U256::from_limbs([a.w0, a.w1, a.w2, a.w3]);
    let y = alloy::primitives::U256::from_limbs([b.w0, b.w1, b.w2, b.w3]);
    let (q, m) = x.div_rem(y);
    let (q, m) = (q.into_limbs(), m.into_limbs());
    (U256 { w0: q[0], w1: q[1], w2: q[2], w3: q[3] }, U256 { w0: m[0], w1: m[1], w2: m[2], w3: m[3] })
}

/// Calls `to_string` on alloy's `U256`: the value in base ten, without
/// leading zeros.
#[verifier::external_body]
pub(crate) fn to_decimal(a: U256) -> (r: String)
    ensures
        r@ == decimal_text(a.value()),
{
    alloy::primitives::U256::from_limbs([a.w0, a.w1, a.w2, a.w3]).to_string()
}

/// Calls `U256::to_be_bytes` of alloy: the 32 bytes of the value, most
/// significant first.
#[verifier::external_body]
pub(crate) fn to_be_bytes(a: U256) -> (r: Vec<u8>)
    ensures
        r@ == be_bytes32(a.value()),
{
    alloy::primitives::U256::from_limbs([a.w0, a.w1, a.w2, a.w3]).to_be_bytes::<32>().to_vec()
}

/// Calls `U256::from_be_slice` of alloy on at most 32 bytes: the number they
/// write, most significant byte first.
#[verifier::external_body]
pub(crate) fn from_be_slice(bytes: &[u8]) -> (r: U256)
    requires
        bytes@.len() <= 32,
    ensures
        r.value() == be_value(bytes@),
{
    let l = alloy::primitives::U256::from_be_slice(bytes).into_limbs();
    U256 { w0: l[0], w1: l[1], w2: l[2], w3: l[3] }
}

} // verus!
