use fintoc_lunchmoney::text::contains;
use fintoc_lunchmoney::money::{amount_from_minor_units, Amount, Currency, MoneyError};

fn text_of(raw: i128, code: &str) -> String {
    amount_from_minor_units(raw, code).unwrap().to_string()
}

#[test]
fn zero_decimal_currency_passes_through() {
    assert_eq!(text_of(1500, "CLP"), "1500.0000");
    assert_eq!(text_of(70000, "CLP"), "70000.0000");
}

#[test]
fn two_decimal_currencies_divide_by_hundred() {
    assert_eq!(text_of(1234, "USD"), "12.3400");
    assert_eq!(text_of(-5, "EUR"), "-0.0500");
    assert_eq!(text_of(-123456, "USD"), "-1234.5600");
    assert_eq!(text_of(0, "USD"), "0.0000");
}

#[test]
fn currency_code_case_is_ignored() {
    assert_eq!(text_of(250, "usd"), "2.5000");
    assert_eq!(Currency::from_code("Clp"), Some(Currency::Clp));
    assert_eq!(Currency::from_code("eur"), Some(Currency::Eur));
}

#[test]
fn unsupported_currency_fails() {
    match amount_from_minor_units(100, "gbp") {
        Err(MoneyError::UnsupportedCurrency { code }) => assert_eq!(code, "GBP"),
        other => panic!("unexpected {:?}", other),
    }
    assert_eq!(Currency::from_code("JPY"), None);
    assert_eq!(Currency::from_code(""), None);
}

#[test]
fn too_large_amount_is_out_of_range() {
    let big: i128 = 10_i128.pow(30);
    assert_eq!(amount_from_minor_units(big, "CLP"), Err(MoneyError::OutOfRange));
    assert!(amount_from_minor_units(big, "USD").is_ok());
}

#[test]
fn currency_codes() {
    assert_eq!(Currency::Usd.iso_code(), "USD");
    assert_eq!(Currency::Clp.lowercase_code(), "clp");
    assert_eq!(Currency::Eur.minor_per_unit(), 100);
    assert_eq!(Currency::Clp.minor_per_unit(), 1);
}

#[test]
fn parse_reads_decimal_text() {
    assert_eq!(Amount::parse("12.34"), Some(Amount { ten_thousandths: 123400 }));
    assert_eq!(Amount::parse("-0.5"), Some(Amount { ten_thousandths: -5000 }));
    assert_eq!(Amount::parse("7"), Some(Amount { ten_thousandths: 70000 }));
    assert_eq!(Amount::parse("1234.5600"), Some(Amount { ten_thousandths: 12345600 }));
}

#[test]
fn parse_rejects_malformed_text() {
    assert_eq!(Amount::parse(""), None);
    assert_eq!(Amount::parse("-"), None);
    assert_eq!(Amount::parse("1."), None);
    assert_eq!(Amount::parse(".5"), None);
    assert_eq!(Amount::parse("1.23456"), None);
    assert_eq!(Amount::parse("12a"), None);
    assert_eq!(Amount::parse("1,5"), None);
}

#[test]
fn printed_amounts_read_back() {
    for raw in [0_i128, 1, -1, 99, 100, 123456789, -987654321] {
        for code in ["CLP", "USD", "EUR"] {
            let a = amount_from_minor_units(raw, code).unwrap();
            assert_eq!(Amount::parse(&a.to_string()), Some(a));
        }
    }
    let largest = Amount { ten_thousandths: 10_i128.pow(34) - 1 };
    assert_eq!(largest.to_string(), "999999999999999999999999999999.9999");
    assert_eq!(Amount::parse(&largest.to_string()), Some(largest));
}

#[test]
fn zero_amount() {
    assert_eq!(Amount::zero().to_string(), "0.0000");
}

#[test]
fn display_style_per_currency() {
    assert_eq!(Currency::Usd.display_symbol(), "$");
    assert_eq!(Currency::Eur.display_symbol(), "\u{20ac}");
    assert_eq!(Currency::Clp.display_symbol(), "$");
    assert_eq!(Currency::Clp.decimals_shown(), 0);
    assert_eq!(Currency::Usd.decimals_shown(), 2);
}

#[test]
fn upper_case_codes() {
    assert_eq!(Currency::from_upper_code("CLP"), Some(Currency::Clp));
    assert_eq!(Currency::from_upper_code("USD"), Some(Currency::Usd));
    assert_eq!(Currency::from_upper_code("EUR"), Some(Currency::Eur));
    assert_eq!(Currency::from_upper_code("usd"), None);
    assert_eq!(Currency::from_upper_code("USDX"), None);
}

#[test]
fn substring_search() {
    assert!(contains("abc", ""));
    assert!(contains("", ""));
    assert!(!contains("", "a"));
    assert!(contains("hello world", "o w"));
    assert!(contains("ñandú", "dú"));
    assert!(!contains("abc", "abcd"));
    assert!(!contains("abab", "abb"));
    assert!(contains("aab", "ab"));
}
