use github_ntfy_agent::text::{
    contains, eq_ignore_ascii_case, join, parse_i64, parse_u64, replace, split_on, split_once_char,
    is_whitespace_char, strip_prefix, to_ascii_lowercase, to_ascii_uppercase, to_decimal, trim_end_matches,
};
use github_ntfy_agent::auto_watch::should_watch_repository;
use github_ntfy_agent::config::AutoWatchConfig;
use github_ntfy_agent::github::subject::token_from_gh_output;
use github_ntfy_agent::github::AutoWatchRepository;

/// Whether the wildcard pattern matches the text, asked through auto-watch
/// with the pattern as the one included pattern.
fn wildcard_matches(pattern: &str, text: &str) -> bool {
    let config = AutoWatchConfig {
        enabled: true,
        included: vec![String::from(pattern)],
        exclude: Vec::new(),
    };
    let repository = AutoWatchRepository {
        full_name: String::from(text),
        html_url: String::new(),
        archived: false,
        fork: false,
    };
    should_watch_repository(&config, &repository, "nobody")
}

#[test]
fn replace_scans_left_to_right() {
    assert_eq!(replace("aaa", "aa", "b"), "ba");
    assert_eq!(replace("x/pulls/1/pulls/", "/pulls/", "/pull/"), "x/pull/1/pull/");
}

#[test]
fn splitting_and_joining() {
    assert_eq!(split_on("a\n\nb", '\n'), vec!["a", "", "b"]);
    assert_eq!(split_on("", '\n'), vec![""]);
    assert_eq!(join(&vec![String::from("a"), String::from("b")], ", "), "a, b");
    assert_eq!(join(&Vec::new(), ", "), "");
    assert_eq!(split_once_char("a/b/c", '/'), Some((String::from("a"), String::from("b/c"))));
    assert_eq!(split_once_char("abc", '/'), None);
}

#[test]
fn case_and_trimming() {
    assert_eq!(to_ascii_lowercase("Pull Request Ü"), "pull request Ü");
    assert_eq!(to_ascii_uppercase("approved"), "APPROVED");
    assert!(eq_ignore_ascii_case("MENTION", "mention"));
    assert!(!eq_ignore_ascii_case("mention", "mentions"));
    assert_eq!(token_from_gh_output("\u{3000} x \u{a0}"), Ok(String::from("x")));
    assert_eq!(trim_end_matches("http://a///", '/'), "http://a");
    assert_eq!(strip_prefix("@me/x", "@me/"), Some(String::from("x")));
    assert!(contains("abc", ""));
    assert!(!contains("ab", "abc"));
}

#[test]
fn numbers() {
    assert_eq!(to_decimal(0), "0");
    assert_eq!(to_decimal(1234567890), "1234567890");
    assert_eq!(parse_u64("007"), Some(7));
    assert_eq!(parse_u64("+"), None);
    assert_eq!(parse_i64("-9223372036854775808"), Some(i64::MIN));
    assert_eq!(parse_i64("9223372036854775808"), None);
    assert_eq!(parse_i64("-"), None);
}

#[test]
fn wildcards() {
    assert!(wildcard_matches("example-org/*", "example-org/api"));
    assert!(wildcard_matches("*", ""));
    assert!(wildcard_matches("c?t", "cat"));
    assert!(!wildcard_matches("c?t", "ct"));
    assert!(!wildcard_matches("example-org/*", "other/api"));
}

#[test]
fn plain_patterns_match_only_themselves() {
    assert!(wildcard_matches("octo/repo", "octo/repo"));
    assert!(!wildcard_matches("octo/repo", "octo/repos"));
    assert!(!wildcard_matches("octo/repo", "octo/rep"));
    assert!(wildcard_matches("*", "anything/at all"));
}

#[test]
fn replacing_the_empty_pattern_surrounds_every_character() {
    assert_eq!(replace("ab", "", "x"), "xaxbx");
    assert_eq!(replace("", "", "x"), "x");
    assert_eq!(replace("ab", "", ""), "ab");
}

#[test]
fn whitespace_follows_the_unicode_property() {
    for c in [' ', '\t', '\n', '\u{0b}', '\u{0c}', '\r', '\u{85}', '\u{a0}', '\u{1680}', '\u{2000}', '\u{200a}', '\u{2028}', '\u{2029}', '\u{202f}', '\u{205f}', '\u{3000}'] {
        assert!(is_whitespace_char(c));
        assert_eq!(is_whitespace_char(c), c.is_whitespace());
    }
    for c in ['a', '\u{200b}', '\u{feff}', '_', '\u{1f600}'] {
        assert!(!is_whitespace_char(c));
        assert_eq!(is_whitespace_char(c), c.is_whitespace());
    }
    assert_eq!(token_from_gh_output("\u{2028}tok\u{85}"), Ok(String::from("tok")));
}
