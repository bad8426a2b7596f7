//! Candidate selection, the exception filter, the inline split and the look-ahead window.

use vstd::prelude::*;
use vstd::string::*;

verus! {

/// How many lines after the login line are searched for a password.
pub const LOOKAHEAD: usize = 3;

/// The first position at or after `j` where `s` holds `c`, or `s.len()` if there is none.
pub open spec fn index_from(s: Seq<char>, c: char, j: int) -> int
    decreases s.len() - j,
{
    if j >= s.len() {
        s.len() as int
    } else if s[j] == c {
        j
    } else {
        index_from(s, c, j + 1)
    }
}

/// Where the first `:` of `s` stands, or `s.len()` if `s` holds none.
pub open spec fn colon_index(s: Seq<char>) -> int {
    index_from(s, ':', 0)
}

/// A login token that is found and is not one of the exceptions.
pub open spec fn is_candidate(found: Option<Seq<char>>, exceptions: Seq<Seq<char>>) -> bool {
    match found {
        Some(token) => !exceptions.contains(token),
        None => false,
    }
}

/// The first password token among lines `j .. end`, or the empty text;
/// lines past the end of `passwords` hold none.
pub open spec fn window_password(passwords: Seq<Option<Seq<char>>>, j: int, end: int) -> Seq<char>
    decreases end - j,
{
    if j >= end || j >= passwords.len() {
        Seq::empty()
    } else {
        match passwords[j] {
            Some(p) => p,
            None => window_password(passwords, j + 1, end),
        }
    }
}

/// The pair that the candidate `login`, found on line `i`, gives: split at its
/// first `:`, or else the login with the first password of the next lines.
pub open spec fn resolve(login: Seq<char>, passwords: Seq<Option<Seq<char>>>, i: int) -> (Seq<char>, Seq<char>) {
    let k = colon_index(login);
    if k < login.len() {
        (login.take(k), login.skip(k + 1))
    } else {
        (login, window_password(passwords, i + 1, i + 1 + LOOKAHEAD))
    }
}

/// The pair given by the first candidate at or after line `i`, or two empty texts.
pub open spec fn scan_from(
    logins: Seq<Option<Seq<char>>>,
    passwords: Seq<Option<Seq<char>>>,
    exceptions: Seq<Seq<char>>,
    i: int,
) -> (Seq<char>, Seq<char>)
    decreases logins.len() - i,
{
    if i >= logins.len() {
        (Seq::empty(), Seq::empty())
    } else if is_candidate(logins[i], exceptions) {
        resolve(logins[i]->Some_0, passwords, i)
    } else {
        scan_from(logins, passwords, exceptions, i + 1)
    }
}

/// The (login, password) pair for lines whose login and password tokens are
/// `logins[i]` and `passwords[i]`.
pub open spec fn credentials(
    logins: Seq<Option<Seq<char>>>,
    passwords: Seq<Option<Seq<char>>>,
    exceptions: Seq<Seq<char>>,
) -> (Seq<char>, Seq<char>) {
    scan_from(logins, passwords, exceptions, 0)
}

fn is_exception(token: &String, exceptions: &Vec<String>) -> (r: bool)
    ensures
        r == exceptions.deep_view().contains(token@),
{
    let ghost ex = exceptions.deep_view();
    let mut j: usize = 0;
    while j < exceptions.len()
        invariant
            j <= exceptions.len(),
            ex == exceptions.deep_view(),
            forall|k: int| 0 <= k < j ==> ex[k] != token@,
        decreases exceptions.len() - j,
    {
        if *token == exceptions[j] {
            assert(ex[j as int] == token@);
            return true;
        }
        j = j + 1;
    }
    proof {
        assert forall|k: int| 0 <= k < ex.len() implies ex[k] != token@ by {}
    }
    false
}

fn find_colon(s: &str) -> (k: usize)
    ensures
        k == colon_index(s@),
{
    let n = s.unicode_len();
    let mut j: usize = 0;
    while j < n
        invariant
            j <= n,
            n == s@.len(),
            index_from(s@, ':', j as int) == colon_index(s@),
        decreases n - j,
    {
        if s.get_char(j) == ':' {
            return j;
        }
        j = j + 1;
    }
    n
}

fn look_ahead(passwords: &Vec<Option<String>>, i: usize) -> (r: String)
    requires
        i < usize::MAX,
    ensures
        r@ == window_password(passwords.deep_view(), i + 1, i + 1 + LOOKAHEAD),
{
    let ghost ps = passwords.deep_view();
    let ghost end = i + 1 + LOOKAHEAD;
    let mut j: usize = i + 1;
    while j < passwords.len() && j - i <= LOOKAHEAD
        invariant
            i < j,
            ps == passwords.deep_view(),
            end == i + 1 + LOOKAHEAD,
            window_password(ps, j as int, end) == window_password(ps, i + 1, end),
        decreases passwords.len() - j,
    {
        assert(ps[j as int] == passwords@[j as int].deep_view());
        if let Some(p) = &passwords[j] {
            return p.clone();
        }
        j = j + 1;
    }
    String::new()
}

fn resolve_login(login: &String, passwords: &Vec<Option<String>>, i: usize) -> (r: (String, String))
    requires
        i < usize::MAX,
    ensures
        (r.0@, r.1@) == resolve(login@, passwords.deep_view(), i as int),
{
    let s = login.as_str();
    let k = find_colon(s);
    let n = s.unicode_len();
    if k < n {
        let before = String::from_str(s.substring_char(0, k));
        let after = String::from_str(s.substring_char(k + 1, n));
        assert(before@ =~= login@.take(k as int));
        assert(after@ =~= login@.skip(k + 1));
        (before, after)
    } else {
        (login.clone(), look_ahead(passwords, i))
    }
}

/// Picks the (login, password) pair from the tokens already found on each line:
/// `logins[i]` and `passwords[i]` are the login and password tokens of line `i`.
///
/// The first login token that is not among `exceptions` decides. If it holds a
/// `:`, it is split at the first one; otherwise the password is the first
/// password token of the following lines, at most [`LOOKAHEAD`] of them and
/// never past the end, or empty. Without such a login both texts are empty.
pub fn select_credentials(
    exceptions: &Vec<String>,
    logins: &Vec<Option<String>>,
    passwords: &Vec<Option<String>>,
) -> (r: (String, String))
    ensures
        (r.0@, r.1@) == credentials(logins.deep_view(), passwords.deep_view(), exceptions.deep_view()),
{
    let ghost ls = logins.deep_view();
    let ghost ps = passwords.deep_view();
    let ghost ex = exceptions.deep_view();
    let mut i: usize = 0;
    while i < logins.len()
        invariant
            i <= logins.len(),
            ls == logins.deep_view(),
            ps == passwords.deep_view(),
            ex == exceptions.deep_view(),
            scan_from(ls, ps, ex, i as int) == credentials(ls, ps, ex),
        decreases logins.len() - i,
    {
        assert(ls[i as int] == logins@[i as int].deep_view());
        if let Some(token) = &logins[i] {
            if !is_exception(token, exceptions) {
                return resolve_login(token, passwords, i);
            }
        }
        i = i + 1;
    }
    (String::new(), String::new())
}

} // verus!
