//! Regular expressions, as the crate `regex` compiles and matches them.
//!
//! A `Matcher` holds a pattern and the regular expression that was compiled
//! from it. `Matcher::compile` is the only place that builds one, and it must
//! stay the only one: the contract of `is_match` speaks of the pattern and
//! is true because the regular expression beside it was compiled from that
//! very pattern. Nothing else stands in this module, so that nothing else
//! can reach the two fields.

use crate::error::AgentError;
use crate::text::combine;
use regex::Regex;
use vstd::prelude::*;

verus! {

/// The compiled regular expression of the crate `regex`, carried as it is.
#[verifier::external_type_specification]
#[verifier::external_body]
pub struct ExRegex(Regex);

/// The error of the crate `regex`, carried as it is.
#[verifier::external_type_specification]
#[verifier::external_body]
pub struct ExRegexError(regex::Error);

/// Whether `regex::Regex::new` compiles the pattern `pattern`.
pub uninterp spec fn regex_compiles(pattern: Seq<char>) -> bool;

/// What `regex::Regex::is_match` gives for the regular expression compiled
/// from `pattern` and the text `text`: whether there is a match somewhere in
/// the text.
pub uninterp spec fn regex_matches(pattern: Seq<char>, text: Seq<char>) -> bool;

/// A compiled regular expression, with the pattern that it was compiled
/// from. The only way to make one is `Matcher::compile`.
pub struct Matcher {
    pattern: String,
    regex: Regex,
}

/// `regex::Regex::new`: the result is a regular expression exactly where
/// `regex` compiles the pattern.
#[verifier::external_body]
fn regex_new(pattern: &str) -> (r: Result<Regex, regex::Error>)
    ensures
        r is Ok == regex_compiles(pattern@),
{
    Regex::new(pattern)
}

/// The `Display` form of `regex::Error`, through `to_string`: the result
/// is what the error says of itself.
#[verifier::external_body]
fn regex_error_text(e: &regex::Error) -> String {
    e.to_string()
}

/// `regex::Regex::is_match` on the regular expression of `m`: the result
/// tells whether the pattern of `m` has a match in `text`. This rests on
/// `m` holding the regular expression that was compiled from its pattern,
/// as every `Matcher` does.
#[verifier::external_body]
fn regex_is_match(m: &Matcher, text: &str) -> (b: bool)
    ensures
        b == regex_matches(m.pattern@, text@),
{
    m.regex.is_match(text)
}

impl Matcher {
    /// The pattern that the regular expression was compiled from.
    pub closed spec fn pattern(&self) -> Seq<char> {
        self.pattern@
    }

    /// Compiles `pattern`; where it cannot be compiled, the failure says
    /// what the compiler objects to.
    pub fn compile(pattern: &str) -> (r: Result<Matcher, AgentError>)
        ensures
            if regex_compiles(pattern@) {
                r matches Ok(m) && m.pattern() == pattern@
            } else {
                r matches Err(e) && exists|reason: Seq<char>|
                    e.is_tool_execution("grep"@, "Invalid regex: "@ + reason)
            },
    {
        match regex_new(pattern) {
            Ok(regex) => Ok(Matcher { pattern: pattern.to_owned(), regex }),
            Err(e) => {
                let reason = regex_error_text(&e);
                let failure = invalid_regex(reason.as_str());
                assert(failure.is_tool_execution("grep"@, "Invalid regex: "@ + reason@));
                Err(failure)
            },
        }
    }

    /// Whether the pattern has a match somewhere in `text`.
    pub fn is_match(&self, text: &str) -> (b: bool)
        ensures
            b == regex_matches(self.pattern(), text@),
    {
        regex_is_match(self, text)
    }
}

/// The failure of a call whose pattern cannot be compiled; `reason` says
/// why.
pub fn invalid_regex(reason: &str) -> (e: AgentError)
    ensures
        e.is_tool_execution("grep"@, "Invalid regex: "@ + reason@),
{
    AgentError::tool_execution("grep", combine("Invalid regex: ", reason).as_str())
}

} // verus!
