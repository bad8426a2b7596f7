use login_extract::{extract, select_credentials};

fn lines(items: &[&str]) -> Vec<String> {
    items.iter().map(|s| s.to_string()).collect()
}

fn pair(login: &str, password: &str) -> (String, String) {
    (login.to_string(), password.to_string())
}

fn run(items: &[&str], exceptions: &[&str]) -> (String, String) {
    extract(&lines(items), &lines(exceptions))
}

#[test]
fn empty_input_gives_empty_pair() {
    assert_eq!(run(&[], &[]), pair("", ""));
}

#[test]
fn lines_without_email_give_empty_pair() {
    assert_eq!(run(&["hello world", "pass123", "a@b", "x.y@z"], &[]), pair("", ""));
}

#[test]
fn inline_login_is_split_at_colon() {
    assert_eq!(run(&["user@example.com:secret123"], &[]), pair("user@example.com", "secret123"));
}

#[test]
fn inline_token_is_taken_from_surrounding_text() {
    assert_eq!(
        run(&["login: user@example.com:secret123 here"], &[]),
        pair("user@example.com", "secret123")
    );
}

#[test]
fn inline_split_uses_first_colon() {
    assert_eq!(run(&["u@e.com:p:q"], &[]), pair("u@e.com", "p:q"));
}

#[test]
fn look_ahead_finds_digit_token() {
    // The password is the digit-bearing token itself, not its whole line.
    assert_eq!(
        run(&["name@site.org", "junk", "has digit4here", "more junk"], &[]),
        pair("name@site.org", "digit4here")
    );
}

#[test]
fn look_ahead_is_clamped_at_end_of_input() {
    assert_eq!(run(&["name@site.org", "nothing", "still nothing"], &[]), pair("name@site.org", ""));
}

#[test]
fn login_on_last_line_has_empty_password() {
    assert_eq!(run(&["junk", "name@site.org"], &[]), pair("name@site.org", ""));
}

#[test]
fn look_ahead_spans_three_lines_only() {
    assert_eq!(run(&["a@b.com", "x", "y", "z", "w5"], &[]), pair("a@b.com", ""));
    assert_eq!(run(&["a@b.com", "x", "y", "z5"], &[]), pair("a@b.com", "z5"));
}

#[test]
fn look_ahead_takes_first_match_in_window() {
    assert_eq!(run(&["a@b.com", "p1", "p2"], &[]), pair("a@b.com", "p1"));
}

#[test]
fn scan_stops_after_look_ahead() {
    assert_eq!(run(&["a@b.com", "x", "y", "z", "c@d.com:pw9"], &[]), pair("a@b.com", ""));
    assert_eq!(run(&["a@b.com", "p1", "c@d.org:zz"], &[]), pair("a@b.com", "p1"));
}

#[test]
fn exception_is_skipped_and_scan_continues() {
    assert_eq!(
        run(&["contact noreply@site.com", "code 42", "user@real.org:pw9"], &["noreply@site.com"]),
        pair("user@real.org", "pw9")
    );
}

#[test]
fn skipped_prefix_gives_pair_of_remaining_lines() {
    let rest = ["user@real.org", "x", "pw9"];
    let prefix = ["plain text", "noreply@site.com other@site.com", "code 42"];
    let all: Vec<&str> = prefix.iter().chain(rest.iter()).copied().collect();
    assert_eq!(run(&all, &["noreply@site.com"]), run(&rest, &["noreply@site.com"]));
    assert_eq!(run(&rest, &[]), pair("user@real.org", "pw9"));
}

#[test]
fn exception_without_later_login_gives_empty_pair() {
    assert_eq!(run(&["noreply@site.com", "code 42"], &["noreply@site.com"]), pair("", ""));
}

#[test]
fn exception_must_match_whole_token() {
    assert_eq!(
        run(&["noreply@site.com", "code 42"], &["noreply@site"]),
        pair("noreply@site.com", "42")
    );
}

#[test]
fn repeated_calls_agree() {
    let text = lines(&["name@site.org", "junk", "has digit4here"]);
    let exceptions = lines(&["other@site.org"]);
    assert_eq!(extract(&text, &exceptions), extract(&text, &exceptions));
}

#[test]
fn reversing_lines_changes_result() {
    let forward = ["name@site.org", "junk", "has digit4here", "more junk"];
    let mut backward = forward.to_vec();
    backward.reverse();
    assert_eq!(run(&backward, &[]), pair("name@site.org", ""));
    assert_ne!(run(&forward, &[]), run(&backward, &[]));
}

#[test]
fn reversing_lines_without_login_keeps_empty_pair() {
    let forward = ["abc", "def 1", "ghi"];
    let mut backward = forward.to_vec();
    backward.reverse();
    assert_eq!(run(&forward, &[]), run(&backward, &[]));
    assert_eq!(run(&backward, &[]), pair("", ""));
}

fn tokens(items: &[Option<&str>]) -> Vec<Option<String>> {
    items.iter().map(|t| t.map(|s| s.to_string())).collect()
}

#[test]
fn select_splits_first_candidate() {
    let logins = tokens(&[None, Some("skip@me.io"), Some("a@b.c:pw")]);
    let passwords = tokens(&[None, None, Some("x1")]);
    assert_eq!(select_credentials(&lines(&["skip@me.io"]), &logins, &passwords), pair("a@b.c", "pw"));
}

#[test]
fn select_looks_ahead_for_password() {
    let logins = tokens(&[Some("a@b.c"), None, None, None]);
    let passwords = tokens(&[None, None, Some("p7"), Some("p8")]);
    assert_eq!(select_credentials(&lines(&[]), &logins, &passwords), pair("a@b.c", "p7"));
}

#[test]
fn select_tolerates_shorter_password_list() {
    let logins = tokens(&[Some("a@b.c"), None, None]);
    let passwords = tokens(&[None]);
    assert_eq!(select_credentials(&lines(&[]), &logins, &passwords), pair("a@b.c", ""));
}

#[test]
fn select_without_candidate_is_empty() {
    let logins = tokens(&[None, Some("x@y.z")]);
    let passwords = tokens(&[Some("1"), Some("2")]);
    assert_eq!(select_credentials(&lines(&["x@y.z"]), &logins, &passwords), pair("", ""));
}
