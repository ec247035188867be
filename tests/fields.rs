use std::collections::HashMap;
use std::str::FromStr;

use payment_gateway::currency::Currency;
use payment_gateway::operation::{parse_amount, Operation};
use payment_gateway::operation_field::{Mid, Validator};
use payment_gateway::payment::{get_network_from_pan, Payment};
use payment_gateway::text::{decimal_string, remove_char, same_text, two_digit_string};
use payment_gateway::GatewayError;

#[test]
fn currency_codes_round_trip() {
    assert_eq!(Currency::from_code("GBP"), Ok(Currency::GBP));
    assert_eq!(Currency::from_code("USD"), Ok(Currency::USD));
    assert_eq!(Currency::GBP.code(), "GBP");
    assert_eq!(Currency::USD.code(), "USD");
    assert_eq!(Currency::from_str("USD"), Ok(Currency::USD));
}

#[test]
fn unknown_currency_is_a_field_error() {
    assert_eq!(Currency::from_code("EUR"), Err(GatewayError::FieldError("Invalid currency: EUR".to_string())));
    assert_eq!(Currency::from_code("gbp"), Err(GatewayError::FieldError("Invalid currency: gbp".to_string())));
}

#[test]
fn amounts_parse_like_unsigned_decimals() {
    assert_eq!(parse_amount("12345"), Ok(12345));
    assert_eq!(parse_amount("+7"), Ok(7));
    assert_eq!(parse_amount("4294967295"), Ok(4294967295));
    assert_eq!(parse_amount(""), Err(GatewayError::FieldError("cannot parse integer from empty string".to_string())));
    assert_eq!(parse_amount("+"), Err(GatewayError::FieldError("invalid digit found in string".to_string())));
    assert_eq!(parse_amount("12a"), Err(GatewayError::FieldError("invalid digit found in string".to_string())));
    assert_eq!(parse_amount("-1"), Err(GatewayError::FieldError("invalid digit found in string".to_string())));
    assert_eq!(
        parse_amount("4294967296"),
        Err(GatewayError::FieldError("number too large to fit in target type".to_string()))
    );
}

#[test]
fn record_conversion_reports_its_first_problem() {
    let missing_amount = HashMap::from([("currencyiso3a", "GBP".to_string())]);
    assert_eq!(
        Operation::try_from(missing_amount),
        Err(GatewayError::FieldError("Missing baseamount".to_string()))
    );
    let bad_amount = HashMap::from([("baseamount", "12.5".to_string()), ("currencyiso3a", "GBP".to_string())]);
    assert_eq!(
        Operation::try_from(bad_amount),
        Err(GatewayError::FieldError("invalid digit found in string".to_string()))
    );
    let bad_currency = HashMap::from([("baseamount", "1".to_string()), ("currencyiso3a", "EUR".to_string())]);
    assert_eq!(
        Operation::try_from(bad_currency),
        Err(GatewayError::FieldError("Invalid currency: EUR".to_string()))
    );
}

#[test]
fn record_without_billing_name_bills_nobody() {
    let record = HashMap::from([("baseamount", "250".to_string()), ("currencyiso3a", "USD".to_string())]);
    let op = Operation::try_from(record).unwrap();
    let t = op.transaction.unwrap();
    assert_eq!(t.amount, 250);
    assert_eq!(t.currency, Currency::USD);
    assert_eq!(t.billingname, "");
}

#[test]
fn default_mid_pattern_needs_a_digit() {
    assert_eq!(
        Mid::validate("abc", None),
        Err(GatewayError::ValidationError("mid 'abc' does not match regex [0-9]+".to_string()))
    );
    assert_eq!(Mid::validate("a1", None).map(|m| m.as_str().to_string()), Ok("a1".to_string()));
    assert_eq!(
        Mid::validate("000104912345678", Some(payment_gateway::bank::Bank::Ems)).map(|m| m.as_str().to_string()),
        Ok("000104912345678".to_string())
    );
}

#[test]
fn stfs_mid_must_be_anchored() {
    let stfs = Some(payment_gateway::bank::Bank::Stfs);
    assert!(Mid::validate("x000104912345678", stfs).is_err());
    assert!(Mid::validate("00010491234567", stfs).is_err());
    assert!(Mid::validate("000204912345678", stfs).is_err());
}

#[test]
fn card_network_follows_pan_range() {
    assert_eq!(get_network_from_pan("4000000000000000"), "VISA");
    assert_eq!(get_network_from_pan("4999"), "VISA");
    assert_eq!(get_network_from_pan("5000000000000000"), "MASTERCARD");
    assert_eq!(get_network_from_pan("6999123"), "MASTERCARD");
    match Payment::card("4111111111111111", "2030/01", "999", "A") {
        Payment::Card { network, .. } => assert_eq!(network, "VISA"),
        Payment::Account { .. } => panic!("not a card"),
    }
}

#[test]
fn text_helpers_render_exact_values() {
    assert_eq!(decimal_string(0), "0");
    assert_eq!(decimal_string(12345), "12345");
    assert_eq!(decimal_string(u64::MAX), "18446744073709551615");
    assert_eq!(two_digit_string(7), "07");
    assert_eq!(two_digit_string(42), "42");
    assert_eq!(two_digit_string(123), "123");
    assert_eq!(remove_char("2024/12", '/'), "202412");
    assert_eq!(remove_char("//", '/'), "");
    assert!(same_text("abc", "abc"));
    assert!(!same_text("abc", "abd"));
    assert!(!same_text("abc", "ab"));
}
