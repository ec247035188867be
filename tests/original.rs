use std::collections::HashMap;

use payment_gateway::bank::Bank;
use payment_gateway::currency::Currency;
use payment_gateway::merchant::test_merchant;
use payment_gateway::messaging_specification::iso8853;
use payment_gateway::operation::{example_operation, Operation, RequestType};
use payment_gateway::operation_field::{Mid, Validator};
use payment_gateway::payment::Payment;
use payment_gateway::transaction::Transaction;
use payment_gateway::{GatewayError, GatewayResult};

#[test]
#[allow(non_snake_case)]
fn test_Currency() {
    let tests = [(example_operation(), "GBP".to_string())];
    for (op, expected) in tests.into_iter() {
        let actual = iso8853::Currency(&op).unwrap().unwrap();
        assert_eq!(expected, actual);
    }
}

#[test]
#[allow(non_snake_case)]
fn test_TransactionIdentifier() {
    let tests = [(example_operation(), "abc".to_string())];
    for (op, expected) in tests.into_iter() {
        let actual = iso8853::TransactionIdentifier(&op).unwrap().unwrap();
        assert_eq!(expected, actual);
    }
}

#[test]
fn test_card_auth_encoding() {
    let tests: Vec<(Payment, GatewayResult<Transaction>, Bank, RequestType, GatewayResult<String>)> = vec![
        (
            Payment::card("5100000000000000", "2024/12", "123", "Ben Jones"),
            Transaction::new(12345, Currency::GBP, "Ben Jones".into()),
            Bank::Ems,
            RequestType::Auth,
            Ok("0103abc0204AUTH03470120000051000000000000000201M03062024120404012304550120000000000000000123450203GBP0320           Ben Jones052001160000104912345678".to_string()),
        ),
        (
            Payment::card("5100000000000000", "2024/12", "123", "Ben Jones"),
            Transaction::new(12345, Currency::GBP, "Ben Jones".into()),
            Bank::Stfs,
            RequestType::Auth,
            Ok("01031230204AUTH03470120000051000000000000000201M03062024120404012304550120000000000000000123450203GBP0320           Ben Jones052001160000104912345678".to_string()),
        ),
        (
            Payment::card("5100000000000000", "2024/12", "123123", "Ben Jones"),
            Transaction::new(12345, Currency::GBP, "Ben Jones".into()),
            Bank::Stfs,
            RequestType::Auth,
            Err(GatewayError::EncodingError("value '123123' too long (6) for bitfield '3.4' (4)".into())),
        ),
    ];
    for (i, (payment, transaction, bank, request_type, expected)) in tests.into_iter().enumerate() {
        let op = Operation {
            payment: Some(payment),
            transaction: Some(transaction.unwrap()),
            bank: Some(bank),
            request_type: Some(request_type),
            merchant: Some(test_merchant()),
        };
        let request_string = op.encode();
        assert_eq!(expected, request_string, "Case number {}", i + 1);
    }
}

#[test]
fn test_operation_from_hashmap() {
    let tests = [
        (
            HashMap::from([
                ("billingname", "Ben Jones".to_string()),
                ("currencyiso3a", "GBP".to_string()),
                ("baseamount", "12345".to_string()),
            ]),
            Ok(example_operation()),
        ),
        (
            HashMap::from([
                ("billingname", "Ben Jones".to_string()),
                ("baseamount", "12345".to_string()),
            ]),
            Err(GatewayError::FieldError("Missing currencyiso3a".into())),
        ),
    ];
    for (hm, expected) in tests.into_iter() {
        let res = Operation::try_from(hm);
        assert_eq!(expected, res);
    }
}

#[test]
fn test() {
    let bank = Bank::Stfs;
    let mid = Mid::validate("00010491231231289", Some(bank));
    assert_eq!(
        mid,
        Err(GatewayError::ValidationError(format!(
            "mid '00010491231231289' does not match regex ^0001049[0-9]{{8}}$"
        )))
    );
    let mid = Mid::validate("000104912312312", Some(bank));
    assert_eq!(mid.map(|m| m.as_str().to_string()), Ok("000104912312312".to_string()));
}
