//! The whole extraction: find the tokens of each line, then pick the pair.

use vstd::pervasive::unreached;
use vstd::prelude::*;

use crate::pattern::{find_first, regex_first_match, LOGIN_PATTERN, PASSWORD_PATTERN};
use crate::scan::{credentials, select_credentials};

verus! {

/// The login token of each line.
pub open spec fn login_tokens(lines: Seq<Seq<char>>) -> Seq<Option<Seq<char>>> {
    lines.map_values(|l: Seq<char>| regex_first_match(LOGIN_PATTERN@, l))
}

/// The password token of each line.
pub open spec fn password_tokens(lines: Seq<Seq<char>>) -> Seq<Option<Seq<char>>> {
    lines.map_values(|l: Seq<char>| regex_first_match(PASSWORD_PATTERN@, l))
}

/// The (login, password) pair that `lines` give, with the login tokens in
/// `exceptions` passed over.
pub open spec fn extracted(lines: Seq<Seq<char>>, exceptions: Seq<Seq<char>>) -> (Seq<char>, Seq<char>) {
    credentials(login_tokens(lines), password_tokens(lines), exceptions)
}

/// Extracts a (login, password) pair from the lines of a scraped page.
///
/// The first line whose email-shaped token is not in `exceptions` gives the
/// login. A login holding `:` is split at its first `:`; otherwise the
/// password is the first digit-bearing token of the next three lines (fewer
/// near the end), or empty. The scan stops at that login. Without one, both
/// texts are empty. The pair depends on `lines` and `exceptions` alone.
pub fn extract(lines: &Vec<String>, exceptions: &Vec<String>) -> (r: (String, String))
    ensures
        (r.0@, r.1@) == extracted(lines.deep_view(), exceptions.deep_view()),
{
    let ghost text = lines.deep_view();
    let mut logins: Vec<Option<String>> = Vec::new();
    let mut passwords: Vec<Option<String>> = Vec::new();
    let mut i: usize = 0;
    while i < lines.len()
        invariant
            i <= lines.len(),
            text == lines.deep_view(),
            logins.len() == i,
            passwords.len() == i,
            forall|k: int| 0 <= k < i ==> logins.deep_view()[k] == login_tokens(text)[k],
            forall|k: int| 0 <= k < i ==> passwords.deep_view()[k] == password_tokens(text)[k],
        decreases lines.len() - i,
    {
        let line = lines[i].as_str();
        let login = match find_first(LOGIN_PATTERN, line) {
            Ok(found) => found,
            Err(_) => unreached(),
        };
        let password = match find_first(PASSWORD_PATTERN, line) {
            Ok(found) => found,
            Err(_) => unreached(),
        };
        logins.push(login);
        passwords.push(password);
        i = i + 1;
    }
    assert(logins.deep_view() =~= login_tokens(text));
    assert(passwords.deep_view() =~= password_tokens(text));
    select_credentials(exceptions, &logins, &passwords)
}

} // verus!
