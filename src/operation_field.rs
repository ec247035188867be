//! Validated operation fields.
use vstd::prelude::*;

use crate::bank::Bank;
use crate::text::join;
use crate::{Failure, GatewayError, GatewayResult};

verus! {

/// A merchant identifier that has passed its bank's pattern.
#[derive(Debug, Clone, PartialEq)]
pub struct Mid(String);

impl View for Mid {
    type V = Seq<char>;

    closed spec fn view(&self) -> Seq<char> {
        self.0@
    }
}

impl Mid {
    /// The identifier's text.
    pub fn as_str(&self) -> (r: &str)
        ensures
            r@ == self@,
    {
        self.0.as_str()
    }
}

/// The pattern a merchant identifier must match for most banks: at least one digit.
pub const MID_PATTERN: &'static str = "[0-9]+";

/// The pattern a merchant identifier must match for STFS: `0001049` and eight more digits.
pub const STFS_MID_PATTERN: &'static str = "^0001049[0-9]{8}$";

/// Whether `s` holds an ASCII digit somewhere.
pub open spec fn has_digit(s: Seq<char>) -> bool {
    exists|i: int| 0 <= i < s.len() && '0' <= #[trigger] s[i] && s[i] <= '9'
}

/// Whether `s` is `0001049` followed by exactly eight ASCII digits.
pub open spec fn is_stfs_mid(s: Seq<char>) -> bool {
    &&& s.len() == 15
    &&& s.subrange(0, 7) == seq!['0', '0', '0', '1', '0', '4', '9']
    &&& forall|i: int| 7 <= i < 15 ==> '0' <= #[trigger] s[i] && s[i] <= '9'
}

/// The pattern that identifiers are checked against, given the bank they are for.
pub open spec fn mid_pattern_for(bank: Option<Bank>) -> Seq<char> {
    if bank == Some(Bank::Stfs) {
        STFS_MID_PATTERN@
    } else {
        MID_PATTERN@
    }
}

/// Whether `s` matches the pattern for `bank`.
pub open spec fn mid_accepted(bank: Option<Bank>, s: Seq<char>) -> bool {
    if bank == Some(Bank::Stfs) {
        is_stfs_mid(s)
    } else {
        has_digit(s)
    }
}

/// The message that rejects `value` for not matching `pattern`.
pub open spec fn mid_mismatch_message(value: Seq<char>, pattern: Seq<char>) -> Seq<char> {
    "mid '"@ + value + "' does not match regex "@ + pattern
}

/// Relies on `regex::Regex::new`, which compiles `pattern` (`None` where it cannot),
/// and `regex::Regex::is_match`, which tells whether the compiled pattern matches
/// anywhere in `text`. For the two identifier patterns, the regex syntax makes the
/// match exact: `[0-9]+` finds a run of ASCII digits, and `^...$` anchors
/// `0001049[0-9]{8}` to the whole text.
#[verifier::external_body]
fn regex_is_match(pattern: &str, text: &str) -> (r: Option<bool>)
    ensures
        pattern@ == MID_PATTERN@ ==> r == Some(has_digit(text@)),
        pattern@ == STFS_MID_PATTERN@ ==> r == Some(is_stfs_mid(text@)),
{
    regex::Regex::new(pattern).ok().map(|re| re.is_match(text))
}

pub struct ValidationContext {}

/// A field that is built from text only after checking it.
pub trait Validator {
    type Output;

    /// Checks `value`, in the context of the bank it is for where that is known.
    fn validate(value: &str, ctx: Option<Bank>) -> GatewayResult<Self::Output>;
}

impl Validator for Mid {
    type Output = Mid;

    /// Accepts `value` if it matches the identifier pattern of the bank in `ctx`.
    fn validate(value: &str, ctx: Option<Bank>) -> (r: GatewayResult<Mid>)
        ensures
            mid_accepted(ctx, value@) ==> (r matches Ok(m) && m@ == value@),
            !mid_accepted(ctx, value@) ==> r is Err && r->Err_0@ == Failure::Validation(
                mid_mismatch_message(value@, mid_pattern_for(ctx)),
            ),
    {
        let pattern = match ctx {
            Some(Bank::Stfs) => STFS_MID_PATTERN,
            _ => MID_PATTERN,
        };
        match regex_is_match(pattern, value) {
            Some(true) => Ok(Mid(String::from_str(value))),
            _ => Err(
                GatewayError::ValidationError(
                    join(join(join("mid '", value).as_str(), "' does not match regex ").as_str(), pattern),
                ),
            ),
        }
    }
}

} // verus!
