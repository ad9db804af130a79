//! Regular expressions.
use crate::data;
use vstd::prelude::*;

verus! {

/// The first match of a regular expression in a text, or the message with which the expression is
/// refused.
pub uninterp spec fn first_match(pattern: Seq<char>, text: Seq<char>) -> Result<
    Option<Seq<char>>,
    Seq<char>,
>;

/// A match by its view.
pub open spec fn match_view(found: Result<Option<String>, String>) -> Result<
    Option<Seq<char>>,
    Seq<char>,
> {
    match found {
        Ok(matched) => Ok(data::option_view(matched)),
        Err(message) => Err(message@),
    }
}

/// Calls `regex::Regex::new` and, where it accepts the expression, `Regex::find`. What comes out,
/// the text of the leftmost match or the text of the error, depends on the expression and the text
/// alone and is named [`first_match`].
#[verifier::external_body]
pub(crate) fn find_first(pattern: &str, text: &str) -> (r: Result<Option<String>, String>)
    ensures
        match_view(r) == first_match(pattern@, text@),
{
    match regex::Regex::new(pattern) {
        Ok(expression) => Ok(expression.find(text).map(|found| found.as_str().to_owned())),
        Err(error) => Err(error.to_string()),
    }
}

} // verus!
