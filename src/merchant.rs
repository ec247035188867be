//! The merchant on whose behalf an operation is made.
use vstd::prelude::*;

use crate::operation_field::{has_digit, Mid, Validator};

verus! {

#[derive(Debug, Clone, PartialEq)]
pub struct Merchant {
    pub name: String,
    pub mid: Mid,
    pub email: String,
}

impl Merchant {
    /// A merchant whose identifier has passed the pattern that holds for every bank.
    pub fn new(name: &str, mid: &str, email: &str) -> (r: Self)
        requires
            has_digit(mid@),
        ensures
            r.name@ == name@,
            r.mid@ == mid@,
            r.email@ == email@,
    {
        Merchant {
            name: String::from_str(name),
            mid: Mid::validate(mid, None).unwrap(),
            email: String::from_str(email),
        }
    }
}

/// The merchant used by the examples: identifier `000104912345678`.
pub fn test_merchant() -> (r: Merchant)
    ensures
        r.mid@ == "000104912345678"@,
        r.name@ == "Test Merchant"@,
        r.email@ == "test@merchant.com"@,
{
    proof {
        reveal_strlit("000104912345678");
        assert("000104912345678"@[0] == '0');
    }
    Merchant::new("Test Merchant", "000104912345678", "test@merchant.com")
}

} // verus!
