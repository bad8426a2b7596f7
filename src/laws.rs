//! What holds of every input: the empty result, the exception filter,
//! determinism and dependence on line order.

use vstd::prelude::*;

use crate::extractor::{extracted, login_tokens, password_tokens};
use crate::scan::{
    colon_index, credentials, index_from, is_candidate, resolve, scan_from, window_password, LOOKAHEAD,
};

verus! {

proof fn lemma_scan_without_candidate(
    logins: Seq<Option<Seq<char>>>,
    passwords: Seq<Option<Seq<char>>>,
    exceptions: Seq<Seq<char>>,
    i: int,
)
    requires
        forall|k: int| i <= k < logins.len() ==> !is_candidate(#[trigger] logins[k], exceptions),
    ensures
        scan_from(logins, passwords, exceptions, i) == (Seq::<char>::empty(), Seq::<char>::empty()),
    decreases logins.len() - i,
{
    if i < logins.len() {
        lemma_scan_without_candidate(logins, passwords, exceptions, i + 1);
    }
}

/// Where no line has a login token that is not an exception, the pair is two
/// empty texts.
pub proof fn lemma_no_candidate_gives_empty(
    logins: Seq<Option<Seq<char>>>,
    passwords: Seq<Option<Seq<char>>>,
    exceptions: Seq<Seq<char>>,
)
    requires
        forall|k: int| 0 <= k < logins.len() ==> !is_candidate(#[trigger] logins[k], exceptions),
    ensures
        credentials(logins, passwords, exceptions) == (Seq::<char>::empty(), Seq::<char>::empty()),
{
    lemma_scan_without_candidate(logins, passwords, exceptions, 0);
}

/// Lines without any email-shaped token give two empty texts, whatever the
/// exceptions.
pub proof fn lemma_no_login_gives_empty(lines: Seq<Seq<char>>, exceptions: Seq<Seq<char>>)
    requires
        forall|k: int| 0 <= k < lines.len() ==> (#[trigger] login_tokens(lines)[k]) is None,
    ensures
        extracted(lines, exceptions) == (Seq::<char>::empty(), Seq::<char>::empty()),
{
    lemma_no_candidate_gives_empty(login_tokens(lines), password_tokens(lines), exceptions);
}

proof fn lemma_scan_ignores_exception(
    logins: Seq<Option<Seq<char>>>,
    passwords: Seq<Option<Seq<char>>>,
    exceptions: Seq<Seq<char>>,
    i: int,
    j: int,
)
    requires
        0 <= i < logins.len(),
        0 <= j,
        logins[i] matches Some(token) && exceptions.contains(token),
    ensures
        scan_from(logins, passwords, exceptions, j)
            == scan_from(logins.update(i, None), passwords, exceptions, j),
    decreases logins.len() - j,
{
    let updated = logins.update(i, None);
    if j < logins.len() {
        lemma_scan_ignores_exception(logins, passwords, exceptions, i, j + 1);
        if j == i {
            assert(!is_candidate(logins[j], exceptions));
            assert(!is_candidate(updated[j], exceptions));
        } else {
            assert(updated[j] == logins[j]);
        }
    }
}

/// A login token found in `exceptions` counts for nothing: the pair is the one
/// obtained when its line holds no login token at all, so the scan goes on to
/// the later lines.
pub proof fn lemma_exception_ignored(
    logins: Seq<Option<Seq<char>>>,
    passwords: Seq<Option<Seq<char>>>,
    exceptions: Seq<Seq<char>>,
    i: int,
)
    requires
        0 <= i < logins.len(),
        logins[i] matches Some(token) && exceptions.contains(token),
    ensures
        credentials(logins, passwords, exceptions)
            == credentials(logins.update(i, None), passwords, exceptions),
{
    lemma_scan_ignores_exception(logins, passwords, exceptions, i, 0);
}

/// Two calls of `extract` on the same lines and exceptions return the same
/// pair: each returns `extracted` of its inputs, and nothing else.
pub proof fn lemma_repeated_extraction_agrees(
    lines: Seq<Seq<char>>,
    exceptions: Seq<Seq<char>>,
    first: (Seq<char>, Seq<char>),
    second: (Seq<char>, Seq<char>),
)
    requires
        first == extracted(lines, exceptions),
        second == extracted(lines, exceptions),
    ensures
        first == second,
{
}

/// Where no line holds a login token outside `exceptions`, the pair is two
/// empty texts in either line order.
pub proof fn lemma_reverse_without_candidate(lines: Seq<Seq<char>>, exceptions: Seq<Seq<char>>)
    requires
        forall|k: int| 0 <= k < lines.len() ==> !is_candidate(#[trigger] login_tokens(lines)[k], exceptions),
    ensures
        extracted(lines, exceptions) == (Seq::<char>::empty(), Seq::<char>::empty()),
        extracted(lines.reverse(), exceptions) == (Seq::<char>::empty(), Seq::<char>::empty()),
{
    let rev = lines.reverse();
    assert forall|k: int| 0 <= k < rev.len() implies !is_candidate(#[trigger] login_tokens(rev)[k], exceptions) by {
        assert(rev[k] == lines[lines.len() - 1 - k]);
        assert(login_tokens(rev)[k] == login_tokens(lines)[lines.len() - 1 - k]);
    }
    lemma_no_candidate_gives_empty(login_tokens(lines), password_tokens(lines), exceptions);
    lemma_no_candidate_gives_empty(login_tokens(rev), password_tokens(rev), exceptions);
}

proof fn lemma_index_from(s: Seq<char>, c: char, j: int)
    requires
        0 <= j <= s.len(),
    ensures
        j <= index_from(s, c, j) <= s.len(),
        index_from(s, c, j) < s.len() ==> s[index_from(s, c, j)] == c,
        forall|t: int| j <= t < index_from(s, c, j) ==> s[t] != c,
    decreases s.len() - j,
{
    if j < s.len() && s[j] != c {
        lemma_index_from(s, c, j + 1);
    }
}

/// A login holding `:` gives the text before its first `:` and the text after
/// it: joined again by `:` they are the login, and the first holds no `:`.
pub proof fn lemma_inline_split(login: Seq<char>, passwords: Seq<Option<Seq<char>>>, i: int)
    requires
        login.contains(':'),
    ensures
        resolve(login, passwords, i).0 + seq![':'] + resolve(login, passwords, i).1 == login,
        !resolve(login, passwords, i).0.contains(':'),
{
    lemma_index_from(login, ':', 0);
    let k = colon_index(login);
    let w = choose|w: int| 0 <= w < login.len() && login[w] == ':';
    assert(k <= w);
    assert(k < login.len());
    let (before, after) = resolve(login, passwords, i);
    assert(before + seq![':'] + after =~= login);
    assert(!before.contains(':')) by {
        if before.contains(':') {
            let t = choose|t: int| 0 <= t < before.len() && before[t] == ':';
            assert(login[t] == ':');
        }
    }
}

proof fn lemma_window_shift(passwords: Seq<Option<Seq<char>>>, n: int, j: int, end: int)
    requires
        0 <= n <= passwords.len(),
        0 <= j,
    ensures
        window_password(passwords, n + j, n + end) == window_password(passwords.skip(n), j, end),
    decreases end - j,
{
    if j < end && n + j < passwords.len() {
        lemma_window_shift(passwords, n, j + 1, end);
    }
}

proof fn lemma_scan_shift(
    logins: Seq<Option<Seq<char>>>,
    passwords: Seq<Option<Seq<char>>>,
    exceptions: Seq<Seq<char>>,
    n: int,
    j: int,
)
    requires
        0 <= n <= logins.len(),
        n <= passwords.len(),
        0 <= j,
    ensures
        scan_from(logins, passwords, exceptions, n + j)
            == scan_from(logins.skip(n), passwords.skip(n), exceptions, j),
    decreases logins.len() - j,
{
    if n + j < logins.len() {
        lemma_scan_shift(logins, passwords, exceptions, n, j + 1);
        assert(logins.skip(n)[j] == logins[n + j]);
        lemma_window_shift(passwords, n, j + 1, j + 1 + LOOKAHEAD);
    }
}

proof fn lemma_scan_past_non_candidates(
    logins: Seq<Option<Seq<char>>>,
    passwords: Seq<Option<Seq<char>>>,
    exceptions: Seq<Seq<char>>,
    j: int,
    n: int,
)
    requires
        0 <= j <= n <= logins.len(),
        forall|k: int| j <= k < n ==> !is_candidate(#[trigger] logins[k], exceptions),
    ensures
        scan_from(logins, passwords, exceptions, j) == scan_from(logins, passwords, exceptions, n),
    decreases n - j,
{
    if j < n {
        lemma_scan_past_non_candidates(logins, passwords, exceptions, j + 1, n);
    }
}

/// Leading lines whose login token is absent or among `exceptions` are passed
/// over: the pair is the one that the remaining lines give on their own.
pub proof fn lemma_skipped_prefix(prefix: Seq<Seq<char>>, rest: Seq<Seq<char>>, exceptions: Seq<Seq<char>>)
    requires
        forall|k: int| 0 <= k < prefix.len() ==> !is_candidate(#[trigger] login_tokens(prefix)[k], exceptions),
    ensures
        extracted(prefix + rest, exceptions) == extracted(rest, exceptions),
{
    let lines = prefix + rest;
    let n = prefix.len() as int;
    let logins = login_tokens(lines);
    let passwords = password_tokens(lines);
    assert forall|k: int| 0 <= k < n implies !is_candidate(#[trigger] logins[k], exceptions) by {
        assert(lines[k] == prefix[k]);
        assert(login_tokens(prefix)[k] == logins[k]);
    }
    lemma_scan_past_non_candidates(logins, passwords, exceptions, 0, n);
    lemma_scan_shift(logins, passwords, exceptions, n, 0);
    assert(logins.skip(n) =~= login_tokens(rest));
    assert(passwords.skip(n) =~= password_tokens(rest));
}

/// The scan depends on line order: some lines give another pair once reversed.
pub proof fn lemma_order_matters()
    ensures
        exists|logins: Seq<Option<Seq<char>>>, passwords: Seq<Option<Seq<char>>>|
            credentials(logins, passwords, Seq::empty())
                != #[trigger] credentials(logins.reverse(), passwords.reverse(), Seq::empty()),
{
    let login = seq!['a'];
    let digits = seq!['1'];
    let logins = seq![Some(login), None];
    let passwords = seq![None, Some(digits)];
    let none: Seq<Seq<char>> = Seq::empty();
    assert(index_from(login, ':', 1) == 1);
    assert(index_from(login, ':', 0) == 1);
    assert(window_password(passwords, 2, 4) == Seq::<char>::empty());
    assert(window_password(passwords, 1, 4) == digits);
    assert(scan_from(logins, passwords, none, 0) == (login, digits));
    let rev_logins = logins.reverse();
    let rev_passwords = passwords.reverse();
    assert(rev_logins =~= seq![None, Some(login)]);
    assert(rev_passwords =~= seq![Some(digits), None]);
    assert(window_password(rev_passwords, 2, 5) == Seq::<char>::empty());
    assert(scan_from(rev_logins, rev_passwords, none, 2) == (Seq::<char>::empty(), Seq::<char>::empty()));
    assert(scan_from(rev_logins, rev_passwords, none, 1) == (login, Seq::<char>::empty()));
    assert(scan_from(rev_logins, rev_passwords, none, 0) == (login, Seq::<char>::empty()));
    assert(digits.len() == 1);
    assert(credentials(logins, passwords, none) != credentials(rev_logins, rev_passwords, none));
}

} // verus!
