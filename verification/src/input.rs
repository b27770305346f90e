//! The shape that the three inputs must have, and what is made of an input.

use crate::error::{InputField, ScanError};
use vstd::prelude::*;

verus! {

/// A network id: four groups of one to three digits, with dots between them.
pub const NETWORK_ID_PATTERN: &'static str = r"^([0-9]{1,3}\.){3}[0-9]{1,3}$";

/// A prefix length: two digits, after a slash or without one.
pub const NETWORK_CIDR_PATTERN: &'static str = r"^\/{0,1}[0-9]{2}$";

/// A list of ports: groups of one to five digits, with a comma or a dash
/// between any two.
pub const PORT_LIST_PATTERN: &'static str = r"^([0-9]{1,5}[-,])*[0-9]{1,5}$";

/// Whether the regular expression `pattern` matches somewhere in `input`, by
/// `regex::Regex::is_match`; `None` where `regex::Regex::new` does not accept
/// the pattern.
pub uninterp spec fn pattern_match(pattern: Seq<char>, input: Seq<char>) -> Option<bool>;

/// Compiles `pattern` with `regex::Regex::new` and asks `regex::Regex::is_match`
/// for `input`.
///
/// Trusted: that the answer depends on the two texts alone.
#[verifier::external_body]
fn regex_is_match(pattern: &str, input: &str) -> (r: Option<bool>)
    ensures
        r == pattern_match(pattern@, input@),
{
    match regex::Regex::new(pattern) {
        Ok(compiled) => Some(compiled.is_match(input)),
        Err(_) => None,
    }
}

/// What is made of an input.
#[derive(Clone, Copy, Debug, PartialEq, Eq, Structural)]
pub enum InputVerdict {
    /// The input has the shape it must have.
    Valid,
    /// The input is the wish to leave.
    Exit,
}

/// The verdict on `input` for the field `field`, where `matched` says whether
/// the pattern of the field matches it: a matching input is valid; of the
/// others, `exit` and `quit` are the wish to leave, and anything else is an
/// invalid value for the field. A pattern that is no regular expression
/// matches nothing.
pub open spec fn verdict_of(matched: Option<bool>, input: Seq<char>, field: InputField) -> Result<
    InputVerdict,
    ScanError,
> {
    if matched == Some(true) {
        Ok(InputVerdict::Valid)
    } else if input == "exit"@ || input == "quit"@ {
        Ok(InputVerdict::Exit)
    } else {
        Err(ScanError::InvalidVariable(field))
    }
}

fn same_text(a: &str, b: &str) -> (r: bool)
    ensures
        r == (a@ == b@),
{
    a.to_owned() == b.to_owned()
}

/// Gives the verdict on `input`, of which `matched` says whether the pattern
/// of `field` matches it.
pub fn judge_input(matched: Option<bool>, input: &str, field: InputField) -> (r: Result<
    InputVerdict,
    ScanError,
>)
    ensures
        r == verdict_of(matched, input@, field),
{
    let is_match = match matched {
        Some(m) => m,
        None => false,
    };
    if is_match {
        Ok(InputVerdict::Valid)
    } else if same_text(input, "exit") || same_text(input, "quit") {
        Ok(InputVerdict::Exit)
    } else {
        Err(ScanError::InvalidVariable(field))
    }
}

/// Holds `input` against `pattern` and gives the verdict for `field`.
pub fn verify_user_input(input: &str, pattern: &str, field: InputField) -> (r: Result<
    InputVerdict,
    ScanError,
>)
    ensures
        r == verdict_of(pattern_match(pattern@, input@), input@, field),
{
    judge_input(regex_is_match(pattern, input), input, field)
}

} // verus!
