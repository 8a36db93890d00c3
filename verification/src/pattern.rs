//! Regular expressions, compiled and searched by the `regex` crate.

use vstd::prelude::*;

verus! {

#[verifier::external_type_specification]
#[verifier::external_body]
pub struct ExRegex(regex::Regex);

#[verifier::external_type_specification]
#[verifier::external_body]
pub struct ExRegexError(regex::Error);

/// Whether `regex::Regex::new` accepts `pattern`.
pub uninterp spec fn regex_compiles(pattern: Seq<char>) -> bool;

/// What `regex::Regex::captures` gives for a regex compiled from `pattern`
/// on `haystack`: `None` when the regex matches nowhere in `haystack`;
/// otherwise, for the leftmost-first match, the text of each capture group
/// in the order of its opening parenthesis, group 0 being the whole match,
/// and `None` for a group that took no part in the match.
pub uninterp spec fn regex_captures(pattern: Seq<char>, haystack: Seq<char>) -> Option<
    Seq<Option<Seq<char>>>,
>;

/// Calls `regex::Regex::new`. The contract claims that the call succeeds
/// exactly when `regex_compiles` holds of the pattern, which depends on the
/// pattern alone.
#[verifier::external_body]
fn compile_regex(pattern: &str) -> (res: Result<regex::Regex, regex::Error>)
    ensures
        res is Ok <==> regex_compiles(pattern@),
{
    regex::Regex::new(pattern)
}

/// A regular expression together with the text it was compiled from.
/// Only `Pattern::new` builds one, so `compiled` is always what
/// `regex::Regex::new` made of `source`.
#[derive(Debug)]
pub struct Pattern {
    source: String,
    compiled: regex::Regex,
}

/// A pattern that `regex::Regex::new` refused, with its text.
#[derive(Clone, Debug, PartialEq, Eq)]
pub struct PatternError {
    pub pattern: String,
}

impl View for Pattern {
    type V = Seq<char>;

    /// The text the pattern was compiled from.
    closed spec fn view(&self) -> Seq<char> {
        self.source@
    }
}

impl Pattern {
    /// Compiles `source`; fails exactly when the `regex` crate refuses it.
    pub fn new(source: &str) -> (res: Result<Pattern, PatternError>)
        ensures
            res is Ok <==> regex_compiles(source@),
            res matches Ok(p) ==> p@ == source@,
            res matches Err(e) ==> e.pattern@ == source@,
    {
        match compile_regex(source) {
            Ok(compiled) => Ok(Pattern { source: String::from_str(source), compiled }),
            Err(_) => Err(PatternError { pattern: String::from_str(source) }),
        }
    }

    /// The text the pattern was compiled from.
    pub fn source(&self) -> (s: &str)
        ensures
            s@ == self@,
    {
        self.source.as_str()
    }

    /// The capture groups of the first match in `haystack`, if any.
    pub fn captures(&self, haystack: &str) -> (res: Option<Vec<Option<String>>>)
        ensures
            res.deep_view() == regex_captures(self@, haystack@),
    {
        regex_captures_of(self, haystack)
    }

    /// Whether the pattern matches anywhere in `haystack`.
    pub fn is_match(&self, haystack: &str) -> (res: bool)
        ensures
            res == regex_captures(self@, haystack@) is Some,
    {
        regex_is_match_of(self, haystack)
    }
}

/// Calls `regex::Regex::captures` and copies out the text of every group.
/// The contract claims the groups are `regex_captures` of the pattern's
/// source and the haystack.
#[verifier::external_body]
fn regex_captures_of(p: &Pattern, haystack: &str) -> (res: Option<Vec<Option<String>>>)
    ensures
        res.deep_view() == regex_captures(p@, haystack@),
{
    p.compiled.captures(haystack).map(
        |caps| caps.iter().map(|m| m.map(|m| m.as_str().to_string())).collect(),
    )
}

/// Calls `regex::Regex::is_match`. Its documentation says it is true
/// exactly when there is a match anywhere in the haystack, which is when
/// `captures` gives `Some`; that is what the contract claims.
#[verifier::external_body]
fn regex_is_match_of(p: &Pattern, haystack: &str) -> (res: bool)
    ensures
        res == regex_captures(p@, haystack@) is Some,
{
    p.compiled.is_match(haystack)
}

} // verus!
