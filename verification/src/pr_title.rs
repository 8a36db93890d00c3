//! Checking that a pull-request title follows the `type(scope): subject`
//! convention.

use vstd::prelude::*;
use crate::pattern::{Pattern, PatternError, regex_captures, regex_compiles};

verus! {

/// A title is valid when it starts with a word of ASCII letters, an
/// optional parenthesised word of ASCII letters, a colon, a space and at
/// least one more character.
pub const PR_TITLE_PATTERN: &'static str = r"^[a-zA-Z]+(\([a-zA-Z]+\))?: .+";

/// The title offered in place of an invalid one.
pub const SUGGESTED_PR_TITLE: &'static str = "Your suggested PR title here";

/// What to offer for a title, given whether it is valid: nothing for a
/// valid title, the suggested title otherwise.
pub fn suggestion_for(valid: bool) -> (s: Option<String>)
    ensures
        valid ==> s is None,
        !valid ==> (s matches Some(t) && t@ == SUGGESTED_PR_TITLE@),
{
    if valid {
        None
    } else {
        Some(String::from_str(SUGGESTED_PR_TITLE))
    }
}

/// Suggests a title when `pr_title` does not follow the convention.
/// Fails only when the `regex` crate refuses `PR_TITLE_PATTERN`.
pub fn suggest_pr_title(pr_title: &str) -> (res: Result<Option<String>, PatternError>)
    ensures
        res is Ok <==> regex_compiles(PR_TITLE_PATTERN@),
        res matches Ok(s) ==> {
            &&& (s is None <==> regex_captures(PR_TITLE_PATTERN@, pr_title@) is Some)
            &&& (s matches Some(t) ==> t@ == SUGGESTED_PR_TITLE@)
        },
        res matches Err(e) ==> e.pattern@ == PR_TITLE_PATTERN@,
{
    let regex = Pattern::new(PR_TITLE_PATTERN)?;
    Ok(suggestion_for(regex.is_match(pr_title)))
}

} // verus!
