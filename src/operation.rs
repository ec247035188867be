//! The operation record that is encoded for a bank.
use std::collections::HashMap;

use vstd::prelude::*;

use crate::bank::{request_output, Bank};
use crate::currency::{currency_of_code, invalid_currency_message, Currency};
use crate::merchant::{test_merchant, Merchant};
use crate::payment::{digits_value, is_digit, network_of, Payment};
use crate::transaction::Transaction;
use crate::{Failure, GatewayError, GatewayResult};

verus! {

#[derive(Copy, Clone, Debug, PartialEq, Eq, Structural)]
pub enum RequestType {
    Auth,
    Refund,
    AccountCheck,
}

#[derive(Debug, Clone, PartialEq)]
pub struct Operation {
    pub request_type: Option<RequestType>,
    pub bank: Option<Bank>,
    pub payment: Option<Payment>,
    pub transaction: Option<Transaction>,
    pub merchant: Option<Merchant>,
}

/// What encoding `op` yields: a failure when it names no bank, otherwise the
/// encoding for its bank.
pub open spec fn operation_output(op: Operation) -> Result<Seq<char>, Failure> {
    match op.bank {
        Some(b) => request_output(b, op),
        None => Err(Failure::Missing("bank"@)),
    }
}

impl Operation {
    /// Encodes this operation as a request message for its bank.
    pub fn encode(&self) -> (r: GatewayResult<String>)
        ensures
            crate::text_result(r) == operation_output(*self),
    {
        match self.bank {
            Some(bank) => bank.encode_request(self),
            None => Err(GatewayError::MissingAttribute(String::from_str("bank"))),
        }
    }
}

/// The text stored in `m` under the key that reads `k`, if any.
pub open spec fn entry<'a>(m: Map<&'a str, String>, k: Seq<char>) -> Option<Seq<char>> {
    if exists|key: &'a str| m.contains_key(key) && key@ == k {
        Some(m[choose|key: &'a str| m.contains_key(key) && key@ == k]@)
    } else {
        None
    }
}

/// Relies on `HashMap::get`, which finds the entry whose key equals `k`;
/// two `&str` keys are equal when they hold the same text.
#[verifier::external_body]
fn lookup<'a, 'b>(m: &'a HashMap<&'b str, String>, k: &str) -> (r: Option<&'a String>)
    ensures
        match r {
            Some(v) => entry(m@, k@) == Some(v@),
            None => entry(m@, k@) is None,
        },
{
    m.get(k)
}

pub const EMPTY_NUMBER_MESSAGE: &'static str = "cannot parse integer from empty string";

pub const INVALID_DIGIT_MESSAGE: &'static str = "invalid digit found in string";

pub const NUMBER_TOO_LARGE_MESSAGE: &'static str = "number too large to fit in target type";

/// The value of the decimal digit `c`.
pub open spec fn digit_of(c: char) -> nat {
    (c as nat - '0' as nat) as nat
}

/// Reads the digits `s` onto `acc`, left to right: the first character that is
/// not a digit, or the first digit that takes the value past `u32::MAX`, fails.
pub open spec fn read_digits(s: Seq<char>, acc: nat) -> Result<nat, Seq<char>>
    decreases s.len(),
{
    if s.len() == 0 {
        Ok(acc)
    } else if !is_digit(s[0]) {
        Err(INVALID_DIGIT_MESSAGE@)
    } else if acc * 10 + digit_of(s[0]) > u32::MAX {
        Err(NUMBER_TOO_LARGE_MESSAGE@)
    } else {
        read_digits(s.drop_first(), acc * 10 + digit_of(s[0]))
    }
}

/// The unsigned number that `s` spells in decimal, with an optional leading `+`,
/// or the reason it spells none.
pub open spec fn amount_of(s: Seq<char>) -> Result<nat, Seq<char>> {
    if s.len() == 0 {
        Err(EMPTY_NUMBER_MESSAGE@)
    } else if s[0] == '+' {
        if s.len() == 1 {
            Err(INVALID_DIGIT_MESSAGE@)
        } else {
            read_digits(s.drop_first(), 0)
        }
    } else {
        read_digits(s, 0)
    }
}

/// Reading digits never yields more than `u32::MAX`.
proof fn lemma_read_digits_bounded(s: Seq<char>, acc: nat)
    requires
        acc <= u32::MAX,
    ensures
        read_digits(s, acc) matches Ok(n) ==> n <= u32::MAX,
    decreases s.len(),
{
    if s.len() > 0 && is_digit(s[0]) && acc * 10 + digit_of(s[0]) <= u32::MAX {
        lemma_read_digits_bounded(s.drop_first(), acc * 10 + digit_of(s[0]));
    }
}

/// Reads an amount of minor units from its decimal text.
pub fn parse_amount(s: &str) -> (r: GatewayResult<u32>)
    ensures
        match amount_of(s@) {
            Ok(n) => n <= u32::MAX && r == Ok::<u32, GatewayError>(n as u32),
            Err(m) => r is Err && r->Err_0@ == Failure::Field(m),
        },
{
    let n = s.unicode_len();
    if n == 0 {
        return Err(GatewayError::FieldError(String::from_str(EMPTY_NUMBER_MESSAGE)));
    }
    let mut i: usize = 0;
    if s.get_char(0) == '+' {
        if n == 1 {
            return Err(GatewayError::FieldError(String::from_str(INVALID_DIGIT_MESSAGE)));
        }
        i = 1;
    }
    let ghost body = s@.subrange(i as int, n as int);
    assert(body =~= if s@[0] == '+' { s@.drop_first() } else { s@ });
    assert(amount_of(s@) == read_digits(body, 0));
    proof {
        lemma_read_digits_bounded(body, 0);
    }
    let mut acc: u64 = 0;
    while i < n
        invariant
            n == s@.len(),
            i <= n,
            acc <= u32::MAX,
            amount_of(s@) == read_digits(body, 0),
            read_digits(body, 0) == read_digits(s@.subrange(i as int, n as int), acc as nat),
        decreases n - i,
    {
        let c = s.get_char(i);
        let ghost rest = s@.subrange(i as int, n as int);
        assert(rest[0] == c);
        assert(rest.drop_first() =~= s@.subrange(i as int + 1, n as int));
        if c < '0' || c > '9' {
            assert(read_digits(rest, acc as nat) == Err::<nat, Seq<char>>(INVALID_DIGIT_MESSAGE@));
            return Err(GatewayError::FieldError(String::from_str(INVALID_DIGIT_MESSAGE)));
        }
        let d = (c as u32 - '0' as u32) as u64;
        assert(d == digit_of(c));
        if acc * 10 + d > 4294967295 {
            assert(read_digits(rest, acc as nat) == Err::<nat, Seq<char>>(NUMBER_TOO_LARGE_MESSAGE@));
            return Err(GatewayError::FieldError(String::from_str(NUMBER_TOO_LARGE_MESSAGE)));
        }
        acc = acc * 10 + d;
        i = i + 1;
    }
    assert(s@.subrange(i as int, n as int).len() == 0);
    Ok(acc as u32)
}

/// What a record of named text fields becomes: an amount, a currency and a
/// billing name, or the first failure met reading them.
pub open spec fn record_fields<'a>(m: Map<&'a str, String>) -> Result<(nat, Currency, Seq<char>), Failure> {
    match entry(m, "baseamount"@) {
        None => Err(Failure::Field("Missing baseamount"@)),
        Some(a) => match amount_of(a) {
            Err(msg) => Err(Failure::Field(msg)),
            Ok(amount) => match entry(m, "currencyiso3a"@) {
                None => Err(Failure::Field("Missing currencyiso3a"@)),
                Some(c) => match currency_of_code(c) {
                    None => Err(Failure::Field(invalid_currency_message(c))),
                    Some(currency) => Ok(
                        (
                            amount,
                            currency,
                            match entry(m, "billingname"@) {
                                Some(b) => b,
                                None => Seq::empty(),
                            },
                        ),
                    ),
                },
            },
        },
    }
}

/// Whether `op` is the example authorisation, for EMS, paid by the VISA card
/// `4000000000000000` expiring `2024/12` with code `123`, from the example merchant.
pub open spec fn is_example_authorisation(op: Operation) -> bool {
    &&& op.request_type == Some(RequestType::Auth)
    &&& op.bank == Some(Bank::Ems)
    &&& op.payment matches Some(Payment::Card { pan, expiry_date, security_code, name, network })
        && pan@ == "4000000000000000"@ && expiry_date@ == "2024/12"@ && security_code@ == "123"@
        && name@ == "Ben Jones"@ && network@ == network_of("4000000000000000"@)
    &&& op.merchant matches Some(m) && m.mid@ == "000104912345678"@ && m.name@ == "Test Merchant"@
        && m.email@ == "test@merchant.com"@
}

impl<'a> vstd::std_specs::convert::TryFromSpecImpl<HashMap<&'a str, String>> for Operation {
    /// The conversion's meaning is stated on `try_from` itself.
    open spec fn obeys_try_from_spec() -> bool {
        false
    }

    open spec fn try_from_spec(v: HashMap<&'a str, String>) -> Result<Operation, GatewayError> {
        arbitrary()
    }
}

impl<'a> TryFrom<HashMap<&'a str, String>> for Operation {
    type Error = GatewayError;

    /// The example authorisation, priced by the record's `baseamount`,
    /// `currencyiso3a` and optional `billingname`.
    fn try_from(v: HashMap<&'a str, String>) -> (r: GatewayResult<Operation>)
        ensures
            match record_fields(v@) {
                Err(e) => r is Err && r->Err_0@ == e,
                Ok((amount, currency, name)) => r matches Ok(op) && is_example_authorisation(op)
                    && (op.transaction matches Some(t) && t.amount == amount && t.currency
                    == currency && t.billingname@ == name),
            },
    {
        let amount = match lookup(&v, "baseamount") {
            Some(a) => match parse_amount(a.as_str()) {
                Ok(n) => n,
                Err(e) => {
                    return Err(e);
                },
            },
            None => {
                return Err(GatewayError::FieldError(String::from_str("Missing baseamount")));
            },
        };
        let currency = match lookup(&v, "currencyiso3a") {
            Some(c) => match Currency::from_code(c.as_str()) {
                Ok(c) => c,
                Err(e) => {
                    return Err(e);
                },
            },
            None => {
                return Err(GatewayError::FieldError(String::from_str("Missing currencyiso3a")));
            },
        };
        let billingname = match lookup(&v, "billingname") {
            Some(b) => b.clone(),
            None => String::new(),
        };
        let mut op = example_operation();
        op.transaction = Some(Transaction { amount, currency, billingname });
        Ok(op)
    }
}

/// The example card number lies in the VISA range.
proof fn lemma_example_pan_is_visa()
    ensures
        crate::payment::is_known_pan("4000000000000000"@),
        digits_value("4000000000000000"@.subrange(0, 4)) == 4000,
{
    reveal_strlit("4000000000000000");
    let lead = "4000000000000000"@.subrange(0, 4);
    assert(lead.drop_last().drop_last().drop_last().drop_last().len() == 0);
    reveal_with_fuel(digits_value, 5);
}

/// The example authorisation, for 123.45 GBP billed to Ben Jones.
pub fn example_operation() -> (r: Operation)
    ensures
        is_example_authorisation(r),
        r.transaction matches Some(t) && t.amount == 12345 && t.currency == Currency::GBP
            && t.billingname@ == "Ben Jones"@,
{
    proof {
        lemma_example_pan_is_visa();
    }
    Operation {
        payment: Some(Payment::card("4000000000000000", "2024/12", "123", "Ben Jones")),
        transaction: Some(
            Transaction {
                amount: 12345,
                currency: Currency::GBP,
                billingname: String::from_str("Ben Jones"),
            },
        ),
        merchant: Some(test_merchant()),
        bank: Some(Bank::Ems),
        request_type: Some(RequestType::Auth),
    }
}

} // verus!
