//! Trusted boundary to the regular-expression engine.
//!
//! The store's pattern searches compile a user-supplied pattern in
//! case-insensitive mode and test records against it.  What a pattern
//! matches is not restated here: the outcome is named by uninterpreted
//! functions, so every caller's contract speaks of the engine's own
//! answer.

use vstd::prelude::*;

verus! {

#[verifier::external_type_specification]
#[verifier::external_body]
pub struct ExRegex(regex::Regex);

/// Whether the engine accepts `pattern` in case-insensitive mode.
pub uninterp spec fn regex_valid_ci(pattern: Seq<char>) -> bool;

/// The pattern a compiled expression was built from.
pub uninterp spec fn pattern_of(re: regex::Regex) -> Seq<char>;

/// The engine's answer: does the case-insensitively compiled
/// `pattern` match anywhere in `text`?
pub uninterp spec fn regex_ci_matches(pattern: Seq<char>, text: Seq<char>) -> bool;

/// Relies on `regex::RegexBuilder::{new, case_insensitive, build}`:
/// compilation succeeds exactly when the pattern is a valid expression
/// within the engine's limits, and depends on the pattern alone.
#[verifier::external_body]
pub fn compile_ci(pattern: &str) -> (r: Option<regex::Regex>)
    ensures
        (r is Some) == regex_valid_ci(pattern@),
        match r {
            Some(re) => pattern_of(re) == pattern@,
            None => true,
        },
{
    match regex::RegexBuilder::new(pattern).case_insensitive(true).build() {
        Ok(re) => Some(re),
        Err(_) => None,
    }
}

/// Relies on `regex::Regex::is_match`: the outcome depends on the
/// compiled pattern and the haystack alone.
#[verifier::external_body]
pub fn regex_is_match(re: &regex::Regex, text: &str) -> (r: bool)
    ensures
        r == regex_ci_matches(pattern_of(*re), text@),
{
    re.is_match(text)
}

} // verus!
