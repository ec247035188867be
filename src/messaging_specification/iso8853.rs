//! The bitmap dialect: its template, its field parsers and its field framing.
#![allow(non_snake_case)]
use std::collections::HashMap;

use vstd::prelude::*;

use super::{
    field_result, framed, layout, padded_by, parsed, string_field, BitField, BitMap,
    EncodingContext, FieldLayout, FieldParser, Leaf,
};
use crate::operation::{Operation, RequestType};
use crate::payment::Payment;
use crate::text::{byte_length, decimal_string, join, remove_char, two_digit_string};
use crate::{GatewayError, GatewayResult};

verus! {

broadcast use vstd::std_specs::hash::group_hash_axioms;

/// Pads a field's value as `ctx` asks, then frames it with its position and length.
pub fn iso8853_string_field(data: &mut String, ctx: EncodingContext)
    requires
        ctx.position is Some,
    ensures
        final(data)@ == framed(ctx.position->0 as nat, padded_by(old(data)@, ctx.padding)),
{
    let pos = ctx.position.unwrap();
    string_field(data, &ctx);
    let len = byte_length(data.as_str());
    let header = join(two_digit_string(pos as u64).as_str(), two_digit_string(len as u64).as_str());
    let whole = join(header.as_str(), data.as_str());
    *data = whole;
}

/// A leaf with the given parser and envelope.
pub open spec fn leaf(parser: FieldParser, min: usize, max: usize, pad: Option<char>) -> Leaf {
    Leaf { parser, min_length: min, max_length: max, padding_char: pad }
}

/// The bitmap dialect's template: transaction identifier, request type, then
/// the payment, transaction and merchant groups.
pub open spec fn iso8853_layout() -> Map<usize, FieldLayout> {
    map![
        1usize => FieldLayout::Single(leaf(FieldParser::TransactionIdentifier, 3, 3, None)),
        2usize => FieldLayout::Single(leaf(FieldParser::RequestType, 4, 4, None)),
        3usize => FieldLayout::Group(map![
            1usize => leaf(FieldParser::AccountNumber, 20, 20, Some('0')),
            2usize => leaf(FieldParser::Network, 1, 1, None),
            3usize => leaf(FieldParser::ExpiryDate, 4, 6, Some('0')),
            4usize => leaf(FieldParser::CVV, 4, 4, Some('0')),
        ]),
        4usize => FieldLayout::Group(map![
            1usize => leaf(FieldParser::TransactionAmount, 20, 20, Some('0')),
            2usize => leaf(FieldParser::Currency, 3, 3, None),
            3usize => leaf(FieldParser::BillingName, 20, 20, Some(' ')),
        ]),
        5usize => FieldLayout::Group(map![
            1usize => leaf(FieldParser::MerchantID, 16, 16, Some('0')),
        ]),
    ]
}

fn new_leaf(parser: FieldParser, min_length: usize, max_length: usize, padding_char: Option<char>) -> (r: Leaf)
    ensures
        r == leaf(parser, min_length, max_length, padding_char),
{
    Leaf { parser, min_length, max_length, padding_char }
}

/// Builds the bitmap dialect's template.
pub fn iso8853_bitmap_template() -> (r: BitMap)
    ensures
        layout(r@) == iso8853_layout(),
{
    let mut payment_fields: HashMap<usize, Leaf> = HashMap::new();
    payment_fields.insert(1, new_leaf(FieldParser::AccountNumber, 20, 20, Some('0')));
    payment_fields.insert(2, new_leaf(FieldParser::Network, 1, 1, None));
    payment_fields.insert(3, new_leaf(FieldParser::ExpiryDate, 4, 6, Some('0')));
    payment_fields.insert(4, new_leaf(FieldParser::CVV, 4, 4, Some('0')));

    let mut trxn_fields: HashMap<usize, Leaf> = HashMap::new();
    trxn_fields.insert(1, new_leaf(FieldParser::TransactionAmount, 20, 20, Some('0')));
    trxn_fields.insert(2, new_leaf(FieldParser::Currency, 3, 3, None));
    trxn_fields.insert(3, new_leaf(FieldParser::BillingName, 20, 20, Some(' ')));

    let mut merchant_fields: HashMap<usize, Leaf> = HashMap::new();
    merchant_fields.insert(1, new_leaf(FieldParser::MerchantID, 16, 16, Some('0')));

    let ghost payment_group = payment_fields@;
    let ghost trxn_group = trxn_fields@;
    let ghost merchant_group = merchant_fields@;

    let mut hm: BitMap = HashMap::new();
    hm.insert(1, BitField::from(new_leaf(FieldParser::TransactionIdentifier, 3, 3, None)));
    hm.insert(2, BitField::from(new_leaf(FieldParser::RequestType, 4, 4, None)));
    hm.insert(3, BitField::from(payment_fields));
    hm.insert(4, BitField::from(trxn_fields));
    hm.insert(5, BitField::from(merchant_fields));
    proof {
        let expected = iso8853_layout();
        assert(payment_group =~= expected[3]->Group_0);
        assert(trxn_group =~= expected[4]->Group_0);
        assert(merchant_group =~= expected[5]->Group_0);
        assert(layout(hm@) =~= expected);
    }
    hm
}

/// The constant transaction identifier of the bitmap dialect.
pub fn TransactionIdentifier(op: &Operation) -> (r: GatewayResult<Option<String>>)
    ensures
        field_result(r) == parsed(FieldParser::TransactionIdentifier, *op),
{
    Ok(Some(String::from_str("abc")))
}

/// The merchant's identifier.
pub fn MerchantID(op: &Operation) -> (r: GatewayResult<Option<String>>)
    ensures
        field_result(r) == parsed(FieldParser::MerchantID, *op),
{
    match &op.merchant {
        Some(m) => Ok(Some(String::from_str(m.mid.as_str()))),
        None => Err(GatewayError::MissingAttribute(String::from_str("merchant"))),
    }
}

/// The code of the request type; only authorisations have one.
pub fn RequestType(op: &Operation) -> (r: GatewayResult<Option<String>>)
    ensures
        field_result(r) == parsed(FieldParser::RequestType, *op),
{
    match op.request_type {
        Some(RequestType::Auth) => Ok(Some(String::from_str("AUTH"))),
        Some(RequestType::Refund) => Err(
            GatewayError::FieldError(String::from_str("unsupported request type: Refund")),
        ),
        Some(RequestType::AccountCheck) => Err(
            GatewayError::FieldError(String::from_str("unsupported request type: AccountCheck")),
        ),
        None => Err(GatewayError::MissingAttribute(String::from_str("request type"))),
    }
}

/// The card's PAN, or the bank account's number.
pub fn AccountNumber(op: &Operation) -> (r: GatewayResult<Option<String>>)
    ensures
        field_result(r) == parsed(FieldParser::AccountNumber, *op),
{
    match &op.payment {
        Some(Payment::Card { pan, .. }) => Ok(Some(pan.clone())),
        Some(Payment::Account { account_number, .. }) => Ok(Some(account_number.clone())),
        None => Err(GatewayError::MissingAttribute(String::from_str("payment"))),
    }
}

/// The first character of the card's network; nothing for other payments.
pub fn Network(op: &Operation) -> (r: GatewayResult<Option<String>>)
    ensures
        field_result(r) == parsed(FieldParser::Network, *op),
{
    match &op.payment {
        Some(Payment::Card { network, .. }) => {
            if network.as_str().unicode_len() == 0 {
                Err(GatewayError::FieldError(String::from_str("card network is empty")))
            } else {
                let mut code = String::new();
                crate::text::push_char(&mut code, network.as_str().get_char(0));
                assert(code@ =~= seq![network@[0]]);
                Ok(Some(code))
            }
        },
        Some(Payment::Account { .. }) => Ok(None),
        None => Err(GatewayError::MissingAttribute(String::from_str("payment"))),
    }
}

/// The card's expiry date with its slashes taken out; nothing for other payments.
pub fn ExpiryDate(op: &Operation) -> (r: GatewayResult<Option<String>>)
    ensures
        field_result(r) == parsed(FieldParser::ExpiryDate, *op),
{
    match &op.payment {
        Some(Payment::Card { expiry_date, .. }) => Ok(Some(remove_char(expiry_date.as_str(), '/'))),
        Some(Payment::Account { .. }) => Ok(None),
        None => Err(GatewayError::MissingAttribute(String::from_str("payment"))),
    }
}

/// The card's security code; nothing for other payments.
pub fn CVV(op: &Operation) -> (r: GatewayResult<Option<String>>)
    ensures
        field_result(r) == parsed(FieldParser::CVV, *op),
{
    match &op.payment {
        Some(Payment::Card { security_code, .. }) => Ok(Some(security_code.clone())),
        Some(Payment::Account { .. }) => Ok(None),
        None => Err(GatewayError::MissingAttribute(String::from_str("payment"))),
    }
}

/// The amount in minor units, in decimal.
pub fn TransactionAmount(op: &Operation) -> (r: GatewayResult<Option<String>>)
    ensures
        field_result(r) == parsed(FieldParser::TransactionAmount, *op),
{
    match &op.transaction {
        Some(t) => Ok(Some(decimal_string(t.amount as u64))),
        None => Err(GatewayError::MissingAttribute(String::from_str("transaction"))),
    }
}

/// The name to bill.
pub fn BillingName(op: &Operation) -> (r: GatewayResult<Option<String>>)
    ensures
        field_result(r) == parsed(FieldParser::BillingName, *op),
{
    match &op.transaction {
        Some(t) => Ok(Some(t.billingname.clone())),
        None => Err(GatewayError::MissingAttribute(String::from_str("transaction"))),
    }
}

/// The currency's three-letter code.
pub fn Currency(op: &Operation) -> (r: GatewayResult<Option<String>>)
    ensures
        field_result(r) == parsed(FieldParser::Currency, *op),
{
    match &op.transaction {
        Some(t) => Ok(Some(String::from_str(t.currency.code()))),
        None => Err(GatewayError::MissingAttribute(String::from_str("transaction"))),
    }
}

} // verus!
