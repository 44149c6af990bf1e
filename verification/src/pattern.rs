//! Regular expressions, as the `regex` crate compiles and runs them.

use vstd::prelude::*;

verus! {

/// `regex::Regex`, a compiled pattern. Nothing inside it is visible here.
#[verifier::external_type_specification]
#[verifier::external_body]
pub struct ExRegex(regex::Regex);

/// What `regex::Regex::new` returns for a pattern: the compiled pattern, or
/// the text of the compiler's diagnostic.
pub uninterp spec fn compiled(pattern: Seq<char>) -> Result<regex::Regex, Seq<char>>;

/// What `regex::Regex::is_match` returns for a compiled pattern and a haystack:
/// whether the pattern matches anywhere in the haystack.
pub uninterp spec fn found(re: regex::Regex, haystack: Seq<char>) -> bool;

/// A compilation outcome with the diagnostic taken by its characters.
pub open spec fn outcome_view(outcome: Result<regex::Regex, String>) -> Result<
    regex::Regex,
    Seq<char>,
> {
    match outcome {
        Ok(re) => Ok(re),
        Err(diagnostic) => Err(diagnostic@),
    }
}

/// Calls `regex::Regex::new` and renders a diagnostic as text. The outcome
/// depends on the pattern alone; it is not described further here.
#[verifier::external_body]
pub(crate) fn compile(pattern: &str) -> (outcome: Result<regex::Regex, String>)
    ensures
        outcome_view(outcome) == compiled(pattern@),
{
    regex::Regex::new(pattern).map_err(|e| e.to_string())
}

/// Calls `regex::Regex::is_match`, an unanchored search. The answer depends
/// on the compiled pattern and the haystack alone.
#[verifier::external_body]
pub(crate) fn is_match(re: &regex::Regex, haystack: &str) -> (hit: bool)
    ensures
        hit == found(*re, haystack@),
{
    re.is_match(haystack)
}

} // verus!
