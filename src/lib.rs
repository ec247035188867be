//! Outbound encoding of payment operations into positional bank messages.
//!
//! An [`operation::Operation`] is encoded for a [`bank::Bank`] by walking the bank's
//! bitmap template (see [`messaging_specification`]) and rendering each field
//! the template names, in ascending position order.
use vstd::prelude::*;

pub mod bank;
pub mod currency;
pub mod merchant;
pub mod messaging_specification;
pub mod operation;
pub mod operation_field;
pub mod payment;
pub mod text;
pub mod transaction;

verus! {

/// Every way in which building or encoding an operation can fail.
#[derive(Debug, Clone, PartialEq)]
pub enum GatewayError {
    /// A value given for an operation field was rejected while building the operation.
    ValidationError(String),
    /// A value extracted from an operation does not fit the message layout.
    EncodingError(String),
    /// A field's value is invalid or cannot be produced.
    FieldError(String),
    /// An attribute that encoding needs is absent from the operation.
    MissingAttribute(String),
    /// The bank's message dialect has no encoder.
    Unsupported(String),
}

/// What a [`GatewayError`] says: its kind and its message.
pub enum Failure {
    Validation(Seq<char>),
    Encoding(Seq<char>),
    Field(Seq<char>),
    Missing(Seq<char>),
    Unsupported(Seq<char>),
}

impl View for GatewayError {
    type V = Failure;

    open spec fn view(&self) -> Failure {
        match self {
            GatewayError::ValidationError(m) => Failure::Validation(m@),
            GatewayError::EncodingError(m) => Failure::Encoding(m@),
            GatewayError::FieldError(m) => Failure::Field(m@),
            GatewayError::MissingAttribute(m) => Failure::Missing(m@),
            GatewayError::Unsupported(m) => Failure::Unsupported(m@),
        }
    }
}

pub type GatewayResult<T> = Result<T, GatewayError>;

/// The abstract value of a text-producing result.
pub open spec fn text_result(r: GatewayResult<String>) -> Result<Seq<char>, Failure> {
    match r {
        Ok(s) => Ok(s@),
        Err(e) => Err(e@),
    }
}

} // verus!
