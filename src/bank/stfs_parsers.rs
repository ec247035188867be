//! Field parsers particular to STFS.
#![allow(non_snake_case)]
use vstd::prelude::*;

use crate::messaging_specification::{field_result, parsed, FieldParser};
use crate::operation::Operation;
use crate::GatewayResult;

verus! {

/// The constant transaction identifier STFS expects.
pub fn TransactionIdentifier(op: &Operation) -> (r: GatewayResult<Option<String>>)
    ensures
        field_result(r) == parsed(FieldParser::StfsTransactionIdentifier, *op),
{
    Ok(Some(String::from_str("123")))
}

} // verus!
