//! The acquiring banks and the message dialect each one speaks.
use std::collections::HashMap;

use vstd::prelude::*;

use crate::messaging_specification::{
    derive_variant, dialect_template, encoded, iso8853::iso8853_layout, lemma_encoding_congruent,
    same_content, unsupported_dialect_message, with_parser, FieldLayout, FieldParser,
    MessagingSpecification,
};
use crate::operation::Operation;
use crate::{Failure, GatewayError, GatewayResult};

pub mod stfs_parsers;

verus! {

#[derive(Copy, Clone, Debug, PartialEq, Eq, Structural)]
pub enum Bank {
    Ems,
    Hsbc,
    Fdms,
    Cardnet,
    Stfs,
    Lloyds,
    Barclays,
}

/// The dialect each bank speaks.
pub open spec fn bank_dialect(b: Bank) -> MessagingSpecification {
    match b {
        Bank::Ems | Bank::Fdms | Bank::Cardnet | Bank::Stfs => MessagingSpecification::Iso8853,
        Bank::Hsbc | Bank::Lloyds | Bank::Barclays => MessagingSpecification::Apacs,
    }
}

/// The template a bank's messages are encoded against, where its dialect has one:
/// STFS takes the bitmap template with its own transaction identifier.
pub open spec fn bank_template(b: Bank) -> Option<Map<usize, FieldLayout>> {
    if b == Bank::Stfs {
        Some(with_parser(iso8853_layout(), 1, FieldParser::StfsTransactionIdentifier))
    } else {
        dialect_template(bank_dialect(b))
    }
}

/// What encoding `op` for bank `b` yields: a failure for a missing payment or
/// transaction, or for a dialect without encoder, before any field is parsed;
/// otherwise the encoding against the bank's template.
pub open spec fn request_output(b: Bank, op: Operation) -> Result<Seq<char>, Failure> {
    if op.payment is None {
        Err(Failure::Missing("payment"@))
    } else if op.transaction is None {
        Err(Failure::Missing("transaction"@))
    } else {
        match bank_template(b) {
            Some(t) => encoded(t, op),
            None => Err(Failure::Unsupported(unsupported_dialect_message())),
        }
    }
}

/// The message of the failure for a response that is asked to be decoded.
pub open spec fn decoding_unsupported_message() -> Seq<char> {
    "decoding responses is not supported"@
}

impl Bank {
    /// Encodes `op` as a request message for this bank.
    pub fn encode_request(&self, op: &Operation) -> (r: GatewayResult<String>)
        ensures
            crate::text_result(r) == request_output(*self, *op),
    {
        if op.payment.is_none() {
            return Err(GatewayError::MissingAttribute(String::from_str("payment")));
        }
        if op.transaction.is_none() {
            return Err(GatewayError::MissingAttribute(String::from_str("transaction")));
        }
        let spec = self.spec();
        match self {
            Bank::Stfs => {
                let template = spec.get_template()?;
                let variant = derive_variant(&template, 1, FieldParser::StfsTransactionIdentifier);
                proof {
                    crate::messaging_specification::lemma_variant_keeps_wf(
                        iso8853_layout(),
                        1,
                        FieldParser::StfsTransactionIdentifier,
                    );
                }
                spec.encode_using_template(op, &variant)
            },
            _ => spec.encode_request(op),
        }
    }

    /// The dialect this bank speaks.
    pub fn spec(&self) -> (r: MessagingSpecification)
        ensures
            r == bank_dialect(*self),
    {
        match self {
            Bank::Ems | Bank::Fdms | Bank::Cardnet | Bank::Stfs => MessagingSpecification::Iso8853,
            Bank::Hsbc | Bank::Lloyds | Bank::Barclays => MessagingSpecification::Apacs,
        }
    }

    /// Decoding responses is not part of this library: always fails as unsupported.
    pub fn decode_response_string(&self, _encoded_string: &str) -> (r: GatewayResult<
        HashMap<String, String>,
    >)
        ensures
            r is Err && r->Err_0@ == Failure::Unsupported(decoding_unsupported_message()),
    {
        Err(GatewayError::Unsupported(String::from_str("decoding responses is not supported")))
    }
}

/// Encoding a request is deterministic: for one bank, operations with the same
/// content always give the same message or the same failure.
pub proof fn lemma_request_deterministic(b: Bank, o1: Operation, o2: Operation)
    requires
        same_content(o1, o2),
    ensures
        request_output(b, o1) == request_output(b, o2),
{
    if let Some(t) = bank_template(b) {
        lemma_encoding_congruent(t, o1, o2);
    }
}

} // verus!
