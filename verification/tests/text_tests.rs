use smaugs_treasure::error::{AmountError, ParseError};
use smaugs_treasure::types::{Account, Amount, TransactionType};

fn parse_message(s: &str) -> String {
    match Amount::from_str(s) {
        Err(AmountError::ParseError(m)) => m,
        other => panic!("unexpected {:?}", other),
    }
}

#[test]
fn amount_text_round_trips() {
    for raw in [0, 1, -1, 9_999, 10_000, -55_000, 123_456_789, i64::MAX, i64::MIN + 1] {
        let a = Amount::from_raw(raw);
        assert_eq!(Amount::from_str(&a.to_string()).unwrap(), a);
    }
}

#[test]
fn amount_min_text_does_not_parse_back() {
    let a = Amount::from_raw(i64::MIN);
    assert_eq!(a.to_string(), "-922337203685477.5808");
    assert_eq!(Amount::from_str(&a.to_string()), Err(AmountError::Overflow));
}

#[test]
fn amount_parse_messages() {
    assert_eq!(parse_message(""), "empty string");
    assert_eq!(parse_message(" \t "), "empty string");
    assert_eq!(parse_message("-"), "missing numeric value");
    assert_eq!(parse_message("1.2.3"), "multiple decimal points");
    assert_eq!(parse_message("abc"), "invalid integer part: abc");
    assert_eq!(parse_message("-.5"), "invalid integer part: ");
    assert_eq!(parse_message("99999999999999999999"), "invalid integer part: 99999999999999999999");
    assert_eq!(parse_message("1.12345"), "too many decimal places (max 4)");
    assert_eq!(parse_message("1.5x"), "invalid decimal part: 5x");
    assert_eq!(parse_message("1.\u{e9}"), "invalid decimal part: \u{e9}");
    assert_eq!(parse_message("1.\u{e9}\u{e9}\u{e9}"), "too many decimal places (max 4)");
}

#[test]
fn amount_parse_edges() {
    assert_eq!(Amount::from_str("1.").unwrap().as_raw(), 10_000);
    assert_eq!(Amount::from_str("007.5").unwrap().as_raw(), 75_000);
    assert_eq!(Amount::from_str("\u{3000} 2.25\u{a0}\n").unwrap().as_raw(), 22_500);
    assert_eq!(Amount::from_str("922337203685477.5807").unwrap().as_raw(), i64::MAX);
    assert_eq!(Amount::from_str("922337203685477.5808"), Err(AmountError::Overflow));
    assert_eq!(Amount::from_str("-922337203685477.5807").unwrap().as_raw(), -i64::MAX);
    let parsed: Amount = "3.5".parse().unwrap();
    assert_eq!(parsed, Amount::from_raw(35_000));
}

#[test]
fn amount_text_formats() {
    assert_eq!(Amount::from_raw(0).to_string(), "0.0000");
    assert_eq!(Amount::from_raw(-1).to_string(), "-0.0001");
    assert_eq!(Amount::from_raw(1_234_500_000).to_string(), "123450.0000");
    assert_eq!(Amount::from_raw(i64::MAX).to_string(), "922337203685477.5807");
}

#[test]
fn amount_predicates() {
    assert!(Amount::zero().is_zero());
    assert!(Amount::from_raw(3).is_positive());
    assert!(!Amount::from_raw(0).is_positive());
    assert!(Amount::from_raw(-3).is_negative());
    assert_eq!(Amount::from_raw(i64::MAX).add_checked(Amount::from_raw(1)), Err(AmountError::Overflow));
    assert_eq!(Amount::from_raw(i64::MIN).sub_checked(Amount::from_raw(1)), Err(AmountError::Underflow));
}

#[test]
fn total_that_does_not_fit_is_zero() {
    let mut account = Account::new(4);
    account.available = Amount::from_raw(i64::MAX);
    account.held = Amount::from_raw(1);
    assert_eq!(account.total(), Amount::zero());
}

#[test]
fn transaction_type_names() {
    assert_eq!(TransactionType::from_str("  ChargeBack\t").unwrap(), TransactionType::Chargeback);
    assert_eq!(TransactionType::from_str("Resolve").unwrap(), TransactionType::Resolve);
    assert_eq!(
        TransactionType::from_str(" refund "),
        Err(ParseError::InvalidTransactionType(" refund ".to_string()))
    );
    assert_eq!(
        TransactionType::from_str("chargebac\u{212A}").unwrap(),
        TransactionType::Chargeback
    );
    assert!(TransactionType::from_str("d\u{130}spute").is_err());
    let t: TransactionType = "DEPOSIT".parse().unwrap();
    assert_eq!(t, TransactionType::Deposit);
}
