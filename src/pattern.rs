//! The two token patterns and the regex search they go through.

use vstd::prelude::*;

verus! {

/// A loose email-shaped token: non-blank text, `@`, non-blank text, `.`, non-blank text.
pub const LOGIN_PATTERN: &'static str = r"\S+@\S+\.\S+";

/// A run of non-blank characters holding at least one decimal digit.
pub const PASSWORD_PATTERN: &'static str = r"\S*\d\S*";

/// The text of the leftmost match of regular expression `pattern` in `text`,
/// as `fancy_regex` finds it, or `None` where the pattern does not occur.
pub uninterp spec fn regex_first_match(pattern: Seq<char>, text: Seq<char>) -> Option<Seq<char>>;

#[verifier::external_type_specification]
#[verifier::external_body]
pub struct ExRegexError(fancy_regex::Error);

/// Relies on `fancy_regex::Regex::new` to compile `pattern` and on
/// `fancy_regex::Regex::find` for its leftmost match in `text`; either may
/// report an error (a malformed pattern, a backtracking limit). Neither of the
/// two patterns above uses a backtracking feature, so `Regex::new` compiles
/// them to the wrapped automaton engine, whose search cannot fail.
#[verifier::external_body]
pub(crate) fn find_first(pattern: &str, text: &str) -> (r: Result<Option<String>, fancy_regex::Error>)
    ensures
        r matches Ok(found) ==> found.deep_view() == regex_first_match(pattern@, text@),
        pattern@ == LOGIN_PATTERN@ || pattern@ == PASSWORD_PATTERN@ ==> r is Ok,
{
    let re = fancy_regex::Regex::new(pattern)?;
    match re.find(text)? {
        Some(m) => Ok(Some(m.as_str().to_string())),
        None => Ok(None),
    }
}

} // verus!
