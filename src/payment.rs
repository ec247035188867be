//! How an operation is paid: by card or from a bank account.
use vstd::prelude::*;

verus! {

#[derive(Debug, Clone, PartialEq)]
pub enum Payment {
    Card {
        pan: String,
        expiry_date: String,
        security_code: String,
        name: String,
        network: String,
    },
    Account {
        account_number: String,
        sort_code: String,
        name: String,
        bank_name: String,
    },
}

/// Whether `c` is an ASCII decimal digit.
pub open spec fn is_digit(c: char) -> bool {
    '0' <= c && c <= '9'
}

/// The number that the decimal digits `s` spell.
pub open spec fn digits_value(s: Seq<char>) -> nat
    decreases s.len(),
{
    if s.len() == 0 {
        0
    } else {
        digits_value(s.drop_last()) * 10 + (s.last() as nat - '0' as nat) as nat
    }
}

/// Whether `pan` starts with four digits that place it in a known card range.
pub open spec fn is_known_pan(pan: Seq<char>) -> bool {
    &&& pan.len() >= 4
    &&& forall|i: int| 0 <= i < 4 ==> is_digit(#[trigger] pan[i])
    &&& 4000 <= digits_value(pan.subrange(0, 4)) < 7000
}

/// The card network of a PAN in a known range: VISA from 4000, MASTERCARD from 5000.
pub open spec fn network_of(pan: Seq<char>) -> Seq<char> {
    if digits_value(pan.subrange(0, 4)) < 5000 {
        seq!['V', 'I', 'S', 'A']
    } else {
        seq!['M', 'A', 'S', 'T', 'E', 'R', 'C', 'A', 'R', 'D']
    }
}

impl Payment {
    /// A card payment, with the card network derived from the PAN.
    pub fn card(pan: &str, expiry_date: &str, security_code: &str, name: &str) -> (r: Self)
        requires
            is_known_pan(pan@),
        ensures
            r matches Payment::Card { pan: p, expiry_date: e, security_code: s, name: n, network: w }
                && p@ == pan@ && e@ == expiry_date@ && s@ == security_code@ && n@ == name@
                && w@ == network_of(pan@),
    {
        Payment::Card {
            pan: String::from_str(pan),
            expiry_date: String::from_str(expiry_date),
            security_code: String::from_str(security_code),
            name: String::from_str(name),
            network: get_network_from_pan(pan),
        }
    }
}

/// The card network that the first four digits of `pan` belong to.
pub fn get_network_from_pan(pan: &str) -> (r: String)
    requires
        is_known_pan(pan@),
    ensures
        r@ == network_of(pan@),
{
    let mut value: u32 = 0;
    let mut i: usize = 0;
    while i < 4
        invariant
            i <= 4,
            is_known_pan(pan@),
            value == digits_value(pan@.subrange(0, i as int)),
            value < power_of_ten(i as nat),
        decreases 4 - i,
    {
        let c = pan.get_char(i);
        assert(pan@.subrange(0, i as int + 1).drop_last() =~= pan@.subrange(0, i as int));
        let d = c as u32 - '0' as u32;
        let ghost bound = power_of_ten(i as nat);
        assert(power_of_ten(i as nat + 1) == 10 * bound);
        assert(bound <= 1000) by {
            reveal_with_fuel(power_of_ten, 4);
        }
        assert(value * 10 + d < 10 * bound) by (nonlinear_arith)
            requires
                value < bound,
                d < 10,
        ;
        value = value * 10 + d;
        i = i + 1;
    }
    assert(pan@.subrange(0, 4) =~= pan@.subrange(0, i as int));
    let text: &str = if value < 5000 {
        "VISA"
    } else {
        "MASTERCARD"
    };
    proof {
        reveal_strlit("VISA");
        reveal_strlit("MASTERCARD");
    }
    String::from_str(text)
}

/// Ten to the power `n`.
pub open spec fn power_of_ten(n: nat) -> nat
    decreases n,
{
    if n == 0 {
        1
    } else {
        10 * power_of_ten((n - 1) as nat)
    }
}

} // verus!
