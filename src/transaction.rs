//! The amount, currency and billing name of an operation.
use vstd::prelude::*;

use crate::currency::Currency;
use crate::GatewayResult;

verus! {

#[derive(Debug, Clone, PartialEq)]
pub struct Transaction {
    /// The amount in minor currency units.
    pub amount: u32,
    pub currency: Currency,
    /// The name to bill; may be empty.
    pub billingname: String,
}

impl Transaction {
    /// A transaction; a missing billing name is taken as empty.
    pub fn new(amount: u32, currency: Currency, billingname: Option<&str>) -> (r: GatewayResult<
        Self,
    >)
        ensures
            r matches Ok(t) && t.amount == amount && t.currency == currency
                && t.billingname@ == match billingname {
                Some(s) => s@,
                None => Seq::<char>::empty(),
            },
    {
        let name = match billingname {
            Some(s) => String::from_str(s),
            None => String::new(),
        };
        Ok(Transaction { amount, currency, billingname: name })
    }
}

} // verus!
