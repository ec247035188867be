use std::collections::HashMap;

use payment_gateway::bank::Bank;
use payment_gateway::currency::Currency;
use payment_gateway::merchant::{test_merchant, Merchant};
use payment_gateway::messaging_specification::iso8853::{self, iso8853_bitmap_template, iso8853_string_field};
use payment_gateway::messaging_specification::{
    derive_variant, BitField, BitMap, EncodingContext, FieldParser, Leaf, MessagingSpecification,
};
use payment_gateway::operation::{example_operation, Operation, RequestType};
use payment_gateway::payment::Payment;
use payment_gateway::transaction::Transaction;
use payment_gateway::GatewayError;

const EMS_CARD_MESSAGE: &str = "0103abc0204AUTH03470120000051000000000000000201M03062024120404012304550120000000000000000123450203GBP0320           Ben Jones052001160000104912345678";

fn card_operation(bank: Bank, security_code: &str) -> Operation {
    Operation {
        payment: Some(Payment::card("5100000000000000", "2024/12", security_code, "Ben Jones")),
        transaction: Some(Transaction::new(12345, Currency::GBP, Some("Ben Jones")).unwrap()),
        bank: Some(bank),
        request_type: Some(RequestType::Auth),
        merchant: Some(test_merchant()),
    }
}

fn leaf(parser: FieldParser, min_length: usize, max_length: usize, padding_char: Option<char>) -> Leaf {
    Leaf { parser, min_length, max_length, padding_char }
}

#[test]
fn card_payment_encodes_under_bitmap_dialect() {
    let op = card_operation(Bank::Ems, "123");
    assert_eq!(op.encode(), Ok(EMS_CARD_MESSAGE.to_string()));
}

#[test]
fn stfs_variant_changes_only_transaction_identifier() {
    let ems = card_operation(Bank::Ems, "123").encode().unwrap();
    let stfs = card_operation(Bank::Stfs, "123").encode().unwrap();
    assert_eq!(ems.len(), stfs.len());
    assert_eq!(&ems[..4], &stfs[..4]);
    assert_eq!(&ems[4..7], "abc");
    assert_eq!(&stfs[4..7], "123");
    assert_eq!(&ems[7..], &stfs[7..]);
}

#[test]
fn overlength_security_code_is_rejected() {
    let op = card_operation(Bank::Ems, "123123");
    assert_eq!(
        op.encode(),
        Err(GatewayError::EncodingError("value '123123' too long (6) for bitfield '3.4' (4)".to_string()))
    );
}

#[test]
fn repeated_encoding_gives_the_same_result() {
    let op = card_operation(Bank::Cardnet, "123");
    let first = op.encode();
    let second = op.clone().encode();
    assert_eq!(first, second);
    assert_eq!(first, Ok(EMS_CARD_MESSAGE.to_string()));
    let failing = card_operation(Bank::Fdms, "12345");
    assert_eq!(failing.encode(), failing.encode());
}

#[test]
fn insertion_order_does_not_change_the_message() {
    let op = example_operation();
    let mut forward: BitMap = HashMap::new();
    forward.insert(1, BitField::Single(leaf(FieldParser::TransactionIdentifier, 3, 3, None)));
    forward.insert(4, BitField::Single(leaf(FieldParser::Currency, 3, 3, None)));
    forward.insert(2, BitField::Single(leaf(FieldParser::RequestType, 4, 4, None)));
    let mut backward: BitMap = HashMap::new();
    backward.insert(2, BitField::Single(leaf(FieldParser::RequestType, 4, 4, None)));
    backward.insert(4, BitField::Single(leaf(FieldParser::Currency, 3, 3, None)));
    backward.insert(1, BitField::Single(leaf(FieldParser::TransactionIdentifier, 3, 3, None)));
    let spec = MessagingSpecification::Iso8853;
    let a = spec.encode_using_template(&op, &forward);
    let b = spec.encode_using_template(&op, &backward);
    assert_eq!(a, Ok("0103abc0204AUTH0403GBP".to_string()));
    assert_eq!(a, b);
}

#[test]
fn short_values_are_padded_to_the_minimum_length() {
    let op = example_operation();
    let mut template: BitMap = HashMap::new();
    template.insert(7, BitField::Single(leaf(FieldParser::CVV, 6, 8, Some('*'))));
    template.insert(8, BitField::Single(leaf(FieldParser::CVV, 2, 8, Some('*'))));
    template.insert(9, BitField::Single(leaf(FieldParser::CVV, 6, 8, None)));
    let out = MessagingSpecification::Iso8853.encode_using_template(&op, &template);
    assert_eq!(out, Ok("0706***1230803123".to_string() + "0903123"));
}

#[test]
fn pad_string_pads_only_shorter_values() {
    let mut short = "123".to_string();
    payment_gateway::text::pad_string(&mut short, 4, '0');
    assert_eq!(short, "0123");
    let mut long = "12345".to_string();
    payment_gateway::text::pad_string(&mut long, 4, '0');
    assert_eq!(long, "12345");
    let mut empty = String::new();
    payment_gateway::text::pad_string(&mut empty, 3, ' ');
    assert_eq!(empty, "   ");
}

#[test]
fn overlength_top_level_value_names_its_position() {
    let op = example_operation();
    let mut template: BitMap = HashMap::new();
    template.insert(1, BitField::Single(leaf(FieldParser::TransactionIdentifier, 3, 3, None)));
    template.insert(12, BitField::Single(leaf(FieldParser::BillingName, 0, 5, Some(' '))));
    let out = MessagingSpecification::Iso8853.encode_using_template(&op, &template);
    assert_eq!(
        out,
        Err(GatewayError::EncodingError("value 'Ben Jones' too long (9) for bitfield '12' (5)".to_string()))
    );
}

#[test]
fn value_at_its_maximum_length_is_accepted() {
    let op = example_operation();
    let mut template: BitMap = HashMap::new();
    template.insert(99, BitField::Single(leaf(FieldParser::BillingName, 0, 9, None)));
    let out = MessagingSpecification::Iso8853.encode_using_template(&op, &template);
    assert_eq!(out, Ok("9909Ben Jones".to_string()));
}

#[test]
fn account_payment_omits_card_only_fields() {
    let op = Operation {
        payment: Some(Payment::Account {
            account_number: "12345678".to_string(),
            sort_code: "010203".to_string(),
            name: "Ben Jones".to_string(),
            bank_name: "Bank".to_string(),
        }),
        ..example_operation()
    };
    let mut template: BitMap = HashMap::new();
    let mut group: HashMap<usize, Leaf> = HashMap::new();
    group.insert(1, leaf(FieldParser::AccountNumber, 8, 20, Some('0')));
    group.insert(2, leaf(FieldParser::Network, 1, 1, None));
    group.insert(3, leaf(FieldParser::ExpiryDate, 4, 6, Some('0')));
    group.insert(4, leaf(FieldParser::CVV, 3, 4, Some('0')));
    template.insert(3, BitField::Group(group));
    template.insert(6, BitField::Single(leaf(FieldParser::Network, 1, 1, None)));
    let out = MessagingSpecification::Iso8853.encode_using_template(&op, &template);
    assert_eq!(out, Ok("0312010812345678".to_string()));
}

#[test]
fn variant_leaves_base_template_and_other_fields_alone() {
    let op = example_operation();
    let base = iso8853_bitmap_template();
    let before = MessagingSpecification::Iso8853.encode_using_template(&op, &base);
    let variant = derive_variant(&base, 1, FieldParser::StfsTransactionIdentifier);
    let after = MessagingSpecification::Iso8853.encode_using_template(&op, &base);
    assert_eq!(before, after);
    match (base.get(&1), variant.get(&1)) {
        (Some(BitField::Single(b)), Some(BitField::Single(v))) => {
            assert_eq!(b.parser, FieldParser::TransactionIdentifier);
            assert_eq!(v.parser, FieldParser::StfsTransactionIdentifier);
            assert_eq!((b.min_length, b.max_length, b.padding_char), (v.min_length, v.max_length, v.padding_char));
        }
        _ => panic!("position 1 holds no leaf"),
    }
    let variant_message = MessagingSpecification::Iso8853.encode_using_template(&op, &variant).unwrap();
    let base_message = before.unwrap();
    assert_eq!(&variant_message[4..7], "123");
    assert_eq!(&variant_message[7..], &base_message[7..]);
}

#[test]
fn variant_of_a_group_position_is_the_base() {
    let op = example_operation();
    let base = iso8853_bitmap_template();
    let variant = derive_variant(&base, 3, FieldParser::StfsTransactionIdentifier);
    let spec = MessagingSpecification::Iso8853;
    assert_eq!(spec.encode_using_template(&op, &variant), spec.encode_using_template(&op, &base));
}

#[test]
fn operation_without_bank_is_refused() {
    let op = Operation { bank: None, ..example_operation() };
    assert_eq!(op.encode(), Err(GatewayError::MissingAttribute("bank".to_string())));
}

#[test]
fn operation_without_payment_is_refused_before_parsing() {
    let op = Operation { payment: None, request_type: Some(RequestType::Refund), ..example_operation() };
    assert_eq!(op.encode(), Err(GatewayError::MissingAttribute("payment".to_string())));
}

#[test]
fn operation_without_transaction_is_refused() {
    let op = Operation { transaction: None, ..example_operation() };
    assert_eq!(op.encode(), Err(GatewayError::MissingAttribute("transaction".to_string())));
}

#[test]
fn operation_without_merchant_fails_at_merchant_field() {
    let op = Operation { merchant: None, ..example_operation() };
    assert_eq!(op.encode(), Err(GatewayError::MissingAttribute("merchant".to_string())));
}

#[test]
fn operation_without_request_type_fails() {
    let op = Operation { request_type: None, ..example_operation() };
    assert_eq!(op.encode(), Err(GatewayError::MissingAttribute("request type".to_string())));
}

#[test]
fn refund_is_not_supported() {
    let op = Operation { request_type: Some(RequestType::Refund), ..example_operation() };
    assert_eq!(op.encode(), Err(GatewayError::FieldError("unsupported request type: Refund".to_string())));
    let op = Operation { request_type: Some(RequestType::AccountCheck), ..example_operation() };
    assert_eq!(
        op.encode(),
        Err(GatewayError::FieldError("unsupported request type: AccountCheck".to_string()))
    );
}

#[test]
fn apacs_banks_are_unsupported() {
    for bank in [Bank::Hsbc, Bank::Lloyds, Bank::Barclays] {
        let op = Operation { bank: Some(bank), ..example_operation() };
        assert_eq!(
            op.encode(),
            Err(GatewayError::Unsupported("the APACS dialect has no encoder".to_string()))
        );
        assert_eq!(bank.spec(), MessagingSpecification::Apacs);
    }
    assert!(MessagingSpecification::Apacs.get_template().is_err());
    for bank in [Bank::Ems, Bank::Fdms, Bank::Cardnet, Bank::Stfs] {
        assert_eq!(bank.spec(), MessagingSpecification::Iso8853);
    }
}

#[test]
fn decoding_is_unsupported() {
    assert_eq!(
        Bank::Ems.decode_response_string("0103abc"),
        Err(GatewayError::Unsupported("decoding responses is not supported".to_string()))
    );
}

#[test]
fn empty_card_network_is_a_field_error() {
    let op = Operation {
        payment: Some(Payment::Card {
            pan: "5100000000000000".to_string(),
            expiry_date: "2024/12".to_string(),
            security_code: "123".to_string(),
            name: "Ben Jones".to_string(),
            network: String::new(),
        }),
        ..example_operation()
    };
    assert_eq!(iso8853::Network(&op), Err(GatewayError::FieldError("card network is empty".to_string())));
}

#[test]
fn parsers_extract_card_fields() {
    let op = card_operation(Bank::Ems, "123");
    assert_eq!(iso8853::AccountNumber(&op), Ok(Some("5100000000000000".to_string())));
    assert_eq!(iso8853::Network(&op), Ok(Some("M".to_string())));
    assert_eq!(iso8853::ExpiryDate(&op), Ok(Some("202412".to_string())));
    assert_eq!(iso8853::CVV(&op), Ok(Some("123".to_string())));
    assert_eq!(iso8853::TransactionAmount(&op), Ok(Some("12345".to_string())));
    assert_eq!(iso8853::BillingName(&op), Ok(Some("Ben Jones".to_string())));
    assert_eq!(iso8853::MerchantID(&op), Ok(Some("000104912345678".to_string())));
    assert_eq!(iso8853::RequestType(&op), Ok(Some("AUTH".to_string())));
    assert_eq!(FieldParser::StfsTransactionIdentifier.parse(&op), Ok(Some("123".to_string())));
}

#[test]
fn string_field_frames_with_position_and_length() {
    let mut data = "7".to_string();
    iso8853_string_field(&mut data, EncodingContext { position: Some(3), padding: Some((3, '0')) });
    assert_eq!(data, "0303007");
    let mut long = "x".repeat(120);
    iso8853_string_field(&mut long, EncodingContext { position: Some(42), padding: None });
    assert_eq!(&long[..5], "42120");
}

#[test]
fn merchant_keeps_its_fields() {
    let m = Merchant::new("Shop", "42", "a@b.c");
    assert_eq!(m.name, "Shop");
    assert_eq!(m.mid.as_str(), "42");
    assert_eq!(m.email, "a@b.c");
    assert_eq!(test_merchant().mid.as_str(), "000104912345678");
}

#[test]
fn transaction_without_billing_name_has_empty_name() {
    let t = Transaction::new(5, Currency::USD, None).unwrap();
    assert_eq!(t.billingname, "");
    assert_eq!(t.amount, 5);
    assert_eq!(t.currency, Currency::USD);
}

#[test]
fn lengths_count_utf8_bytes() {
    let op = Operation {
        transaction: Some(Transaction::new(1, Currency::GBP, Some("José")).unwrap()),
        ..example_operation()
    };
    let mut template: BitMap = HashMap::new();
    template.insert(1, BitField::Single(leaf(FieldParser::BillingName, 0, 5, None)));
    template.insert(2, BitField::Single(leaf(FieldParser::BillingName, 8, 8, Some(' '))));
    let spec = MessagingSpecification::Iso8853;
    assert_eq!(spec.encode_using_template(&op, &template), Ok("0105José0208   José".to_string()));
    let mut strict: BitMap = HashMap::new();
    strict.insert(3, BitField::Single(leaf(FieldParser::BillingName, 0, 4, None)));
    assert_eq!(
        spec.encode_using_template(&op, &strict),
        Err(GatewayError::EncodingError("value 'José' too long (5) for bitfield '3' (4)".to_string()))
    );
    let mut accented = "é".to_string();
    payment_gateway::text::pad_string(&mut accented, 4, '0');
    assert_eq!(accented, "00é");
}
