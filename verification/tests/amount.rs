use lock_bridge::amount::{format_amount, parse_amount, AmountError};
use lock_bridge::uint::U256;

#[test]
fn main_test_parse_amount_decimal() {
    let amount = parse_amount("1.5").unwrap();
    assert_eq!(amount, U256::from_u64(1_500_000_000_000_000_000u64));
}

#[test]
fn main_test_parse_amount_whole() {
    let amount = parse_amount("10").unwrap();
    // 10 < 1000, so it counts whole units
    assert_eq!(amount, U256::from_u128(10_000_000_000_000_000_000u128));
}

#[test]
fn main_test_parse_amount_wei() {
    let amount = parse_amount("1000000000000000000").unwrap();
    // a large number counts the smallest unit
    assert_eq!(amount, U256::from_u64(1_000_000_000_000_000_000u64));
}

#[test]
fn signer_test_parse_amount_decimal() {
    let amount = parse_amount("1.5").unwrap();
    assert_eq!(amount, U256::from_u64(1_500_000_000_000_000_000u64));
}

#[test]
fn signer_test_parse_amount_whole() {
    let amount = parse_amount("10").unwrap();
    assert_eq!(amount, U256::from_u128(10_000_000_000_000_000_000u128));
}

#[test]
fn signer_test_parse_amount_wei() {
    let amount = parse_amount("1000000000000000000").unwrap();
    assert_eq!(amount, U256::from_u64(1_000_000_000_000_000_000u64));
}

#[test]
fn parse_amount_rejects_two_dots() {
    assert_eq!(parse_amount("1.2.3"), Err(AmountError::InvalidFormat));
}

#[test]
fn parse_amount_rejects_long_fraction() {
    assert_eq!(parse_amount("1.0000000000000000001"), Err(AmountError::TooManyDecimals));
    assert_eq!(
        parse_amount("1.000000000000000001"),
        Ok(U256::from_u64(1_000_000_000_000_000_001))
    );
}

#[test]
fn parse_amount_rejects_bad_parts() {
    assert_eq!(parse_amount("x.5"), Err(AmountError::InvalidWhole));
    assert_eq!(parse_amount("1.x"), Err(AmountError::InvalidFraction));
    assert_eq!(parse_amount("abc"), Err(AmountError::InvalidAmount));
    assert_eq!(parse_amount("-1"), Err(AmountError::InvalidAmount));
}

#[test]
fn parse_amount_threshold_is_one_thousand() {
    assert_eq!(parse_amount("999"), Ok(U256::from_u128(999_000_000_000_000_000_000u128)));
    assert_eq!(parse_amount("1000"), Ok(U256::from_u64(1000)));
    assert_eq!(parse_amount("0"), Ok(U256::from_u64(0)));
}

#[test]
fn parse_amount_wraps_at_two_to_the_256() {
    // 2^256 / 10^18 rounded up, times 10^18, is just above 2^256
    let whole = "115792089237316195423570985008687907853269984665640564039458";
    let text = format!("{}.0", whole);
    let wrapped = parse_amount(&text).unwrap();
    assert_eq!(
        wrapped,
        U256::from_u64(415_992_086_870_360_064)
    );
}

#[test]
fn format_amount_shows_four_decimals() {
    assert_eq!(format_amount("1500000000000000000"), "1.5000");
    assert_eq!(format_amount("1000100000000000000"), "1.0001");
    assert_eq!(format_amount("1000010000000000000"), "1");
    assert_eq!(format_amount("2500000000000000000"), "2.5000");
}

#[test]
fn format_amount_of_whole_units_is_the_number() {
    assert_eq!(format_amount("10000000000000000000"), "10");
    assert_eq!(format_amount("0"), "0");
    assert_eq!(format_amount("not a number"), "0");
    let ten = parse_amount("10").unwrap();
    assert_eq!(lock_bridge::amount::format_units(ten), "10");
}

#[test]
fn amount_error_messages() {
    assert_eq!(AmountError::InvalidFormat.message(), "Invalid amount format");
    assert_eq!(AmountError::TooManyDecimals.message(), "Too many decimal places (max 18)");
    assert_eq!(AmountError::InvalidWhole.message(), "Invalid whole number part");
    assert_eq!(AmountError::InvalidFraction.message(), "Invalid decimal part");
    assert_eq!(AmountError::InvalidAmount.message(), "Invalid amount");
}
