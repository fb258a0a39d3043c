//! Tests for decimal wire strings: parsing, serialization, comparison.

use robinrust::decimal::{dec_le, dec_to_string, parse_dec, Dec};
use robinrust::digits::{u128_to_dec_string, u64_to_dec_string};
use robinrust::trading::TradingPairs;
use rust_decimal::Decimal;
use std::str::FromStr;

fn dec(mantissa: u128, scale: u32) -> Dec {
    Dec { mantissa, scale }
}

#[test]
fn integers_render_in_decimal() {
    assert_eq!(u64_to_dec_string(0), "0");
    assert_eq!(u64_to_dec_string(1700000000), "1700000000");
    assert_eq!(u64_to_dec_string(u64::MAX), "18446744073709551615");
    assert_eq!(
        u128_to_dec_string(79228162514264337593543950335),
        "79228162514264337593543950335"
    );
}

#[test]
fn parse_plain_integer() {
    assert_eq!(parse_dec("0"), Some(dec(0, 0)));
    assert_eq!(parse_dec("42"), Some(dec(42, 0)));
    assert_eq!(parse_dec("007"), Some(dec(7, 0)));
}

#[test]
fn parse_fractional() {
    assert_eq!(parse_dec("1.50"), Some(dec(150, 2)));
    assert_eq!(parse_dec("0.000001"), Some(dec(1, 6)));
    assert_eq!(parse_dec("12.345"), Some(dec(12345, 3)));
}

#[test]
fn parse_rejects_malformed_strings() {
    assert_eq!(parse_dec(""), None);
    assert_eq!(parse_dec("."), None);
    assert_eq!(parse_dec("1."), None);
    assert_eq!(parse_dec(".5"), None);
    assert_eq!(parse_dec("12a"), None);
    assert_eq!(parse_dec("1.2.3"), None);
    assert_eq!(parse_dec("-1"), None);
    assert_eq!(parse_dec("1,5"), None);
}

#[test]
fn parse_rejects_out_of_range_values() {
    // Twenty-nine fractional digits: one more than the largest scale.
    assert_eq!(parse_dec("0.00000000000000000000000000001"), None);
    // Exactly two to the ninety-sixth: the first mantissa that no longer fits.
    assert_eq!(parse_dec("79228162514264337593543950336"), None);
    assert_eq!(
        parse_dec("79228162514264337593543950335"),
        Some(dec(79228162514264337593543950335, 0))
    );
}

#[test]
fn serialize_keeps_scale() {
    assert_eq!(dec_to_string(&dec(150, 2)), "1.50");
    assert_eq!(dec_to_string(&dec(1, 6)), "0.000001");
    assert_eq!(dec_to_string(&dec(42, 0)), "42");
    assert_eq!(dec_to_string(&dec(0, 0)), "0");
    assert_eq!(dec_to_string(&dec(5, 1)), "0.5");
}

#[test]
fn round_trip_preserves_value_exactly() {
    let cases = [
        dec(0, 0),
        dec(1, 0),
        dec(150, 2),
        dec(1, 6),
        dec(123456789, 4),
        dec(79228162514264337593543950335, 28),
    ];
    for d in cases {
        let s = dec_to_string(&d);
        assert_eq!(parse_dec(&s), Some(d));
    }
}

#[test]
fn wire_strings_agree_with_decimal_crate() {
    for s in ["1.50", "0.000001", "42", "12.345", "0.5"] {
        let ours = parse_dec(s).unwrap();
        let theirs = Decimal::from_str(s).unwrap();
        assert_eq!(ours.mantissa, theirs.mantissa() as u128);
        assert_eq!(ours.scale, theirs.scale());
        assert_eq!(dec_to_string(&ours), theirs.to_string());
    }
}

#[test]
fn comparison_is_exact_across_scales() {
    assert!(dec_le(&dec(150, 2), &dec(15, 1)));
    assert!(dec_le(&dec(15, 1), &dec(150, 2)));
    assert!(dec_le(&dec(1, 1), &dec(1, 0)));
    assert!(!dec_le(&dec(1, 0), &dec(1, 1)));
    assert!(dec_le(&dec(9999, 4), &dec(1, 0)));
    assert!(!dec_le(&dec(10001, 4), &dec(1, 0)));
}

fn pair(asset_increment: &str, max_order_size: &str) -> TradingPairs {
    TradingPairs {
        asset_code: "BTC".to_string(),
        quote_code: "USD".to_string(),
        quote_increment: "0.01".to_string(),
        asset_increment: asset_increment.to_string(),
        max_order_size: max_order_size.to_string(),
        status: "tradable".to_string(),
        symbol: "BTC-USD".to_string(),
    }
}

#[test]
fn check_valid_trade_respects_both_bounds() {
    let p = pair("0.1", "5");
    assert!(p.check_valid_trade(&dec(1, 0)));
    assert!(p.check_valid_trade(&dec(5, 0)));
    assert!(p.check_valid_trade(&dec(1, 1)));
    assert!(!p.check_valid_trade(&dec(6, 0)));
    assert!(!p.check_valid_trade(&dec(5, 2)));
    assert!(!p.check_valid_trade(&dec(0, 0)));
}
