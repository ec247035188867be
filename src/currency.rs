//! The closed set of currencies an operation can be priced in.
use vstd::prelude::*;

use crate::text::{join, same_text};
use crate::{Failure, GatewayError, GatewayResult};

verus! {

#[derive(Debug, Clone, Copy, PartialEq, Eq, Structural)]
pub enum Currency {
    GBP,
    USD,
}

/// The three-letter ISO 4217 code of a currency.
pub open spec fn currency_code(c: Currency) -> Seq<char> {
    match c {
        Currency::GBP => seq!['G', 'B', 'P'],
        Currency::USD => seq!['U', 'S', 'D'],
    }
}

/// The currency whose code is `s`, if any.
pub open spec fn currency_of_code(s: Seq<char>) -> Option<Currency> {
    if s == currency_code(Currency::GBP) {
        Some(Currency::GBP)
    } else if s == currency_code(Currency::USD) {
        Some(Currency::USD)
    } else {
        None
    }
}

/// The message that rejects `s` as a currency code.
pub open spec fn invalid_currency_message(s: Seq<char>) -> Seq<char> {
    "Invalid currency: "@ + s
}

impl Currency {
    /// The three-letter code of this currency.
    pub fn code(&self) -> (r: &'static str)
        ensures
            r@ == currency_code(*self),
    {
        proof {
            reveal_strlit("GBP");
            reveal_strlit("USD");
        }
        match self {
            Currency::GBP => "GBP",
            Currency::USD => "USD",
        }
    }

    /// Reads a currency from its three-letter code.
    pub fn from_code(s: &str) -> (r: GatewayResult<Currency>)
        ensures
            match currency_of_code(s@) {
                Some(c) => r == Ok::<Currency, GatewayError>(c),
                None => r is Err && r->Err_0@ == Failure::Field(invalid_currency_message(s@)),
            },
    {
        if same_text(s, Currency::GBP.code()) {
            Ok(Currency::GBP)
        } else if same_text(s, Currency::USD.code()) {
            Ok(Currency::USD)
        } else {
            Err(GatewayError::FieldError(join("Invalid currency: ", s)))
        }
    }
}

impl std::str::FromStr for Currency {
    type Err = GatewayError;

    fn from_str(s: &str) -> (r: Result<Currency, GatewayError>)
        ensures
            match currency_of_code(s@) {
                Some(c) => r == Ok::<Currency, GatewayError>(c),
                None => r is Err && r->Err_0@ == Failure::Field(invalid_currency_message(s@)),
            },
    {
        Currency::from_code(s)
    }
}

} // verus!
