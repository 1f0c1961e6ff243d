use github_ntfy_agent::github::subject::{
    configured_token, is_last_repository_page, parse_poll_interval, parse_pull_request_subject,
    pull_request_subject_from_segments, repository_page_size, skipped_or_error, token_from_gh_output,
};
use github_ntfy_agent::github::RepositorySubscriptionResult;

#[test]
fn parses_pull_request_subject_url() {
    let subject = parse_pull_request_subject(
        "https://api.github.com/repos/cataclysmbn/Cataclysm-BN/pulls/8404",
    )
    .expect("subject");

    assert_eq!(subject.owner, "cataclysmbn");
    assert_eq!(subject.repo, "Cataclysm-BN");
    assert_eq!(subject.number, 8404);
}

#[test]
fn refuses_other_subject_urls() {
    assert_eq!(
        parse_pull_request_subject("https://api.github.com/repos/octo/repo/issues/1").unwrap_err(),
        "unsupported pull request subject URL: https://api.github.com/repos/octo/repo/issues/1"
    );
    assert_eq!(
        parse_pull_request_subject("not a url").unwrap_err(),
        "failed to parse pull request subject URL: not a url"
    );
    assert_eq!(
        parse_pull_request_subject("https://api.github.com/repos/octo/repo/pulls/x1").unwrap_err(),
        "invalid pull request number in https://api.github.com/repos/octo/repo/pulls/x1"
    );
}

#[test]
fn subject_from_given_segments() {
    let segments = vec!["repos", "o", "r", "pulls", "-3"]
        .into_iter()
        .map(String::from)
        .collect::<Vec<_>>();
    let subject = pull_request_subject_from_segments("u", Some(Some(segments))).expect("subject");
    assert_eq!(subject.number, -3);
    assert_eq!(
        pull_request_subject_from_segments("u", Some(None)).unwrap_err(),
        "pull request subject URL has no path segments"
    );
}

#[test]
fn poll_interval_header() {
    assert_eq!(parse_poll_interval(Some("60")), Some(60));
    assert_eq!(parse_poll_interval(Some("+7")), Some(7));
    assert_eq!(parse_poll_interval(Some("-1")), None);
    assert_eq!(parse_poll_interval(Some("18446744073709551616")), None);
    assert_eq!(parse_poll_interval(Some("18446744073709551615")), Some(u64::MAX));
    assert_eq!(parse_poll_interval(Some("")), None);
    assert_eq!(parse_poll_interval(None), None);
}

#[test]
fn blocked_repositories_are_skipped() {
    match skipped_or_error("o/r", 403, "403 Forbidden", String::from("Repository access blocked")) {
        Ok(RepositorySubscriptionResult::Skipped { reason }) => {
            assert_eq!(reason, "403 Forbidden: Repository access blocked")
        }
        other => panic!("unexpected {other:?}"),
    }
    assert_eq!(
        skipped_or_error("o/r", 500, "500 Internal Server Error", String::from("oops")).unwrap_err(),
        "repository subscription request failed for o/r: 500 Internal Server Error: oops"
    );
}

#[test]
fn repository_pages() {
    assert_eq!(repository_page_size(0), 1);
    assert_eq!(repository_page_size(500), 100);
    assert_eq!(repository_page_size(30), 30);
    assert!(is_last_repository_page(3, 30));
    assert!(!is_last_repository_page(30, 30));
}

#[test]
fn tokens() {
    assert_eq!(configured_token(Some("  ")), None);
    assert_eq!(configured_token(Some("abc")).as_deref(), Some("abc"));
    assert_eq!(token_from_gh_output("gho_x\n").expect("token"), "gho_x");
    assert!(token_from_gh_output(" \n").is_err());
}
