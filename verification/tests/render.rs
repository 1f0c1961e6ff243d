use github_ntfy_agent::github::{
    Label, Owner, PullRequestDetails, Repository, Subject, Thread, TimelineEvent, User,
};
use github_ntfy_agent::render::{render_initial_subject_notification, render_notification, trim_multiline_text};

fn sample_thread() -> Thread {
    Thread {
        id: String::from("1"),
        unread: true,
        updated_at: String::from("2026-03-25T00:00:00Z"),
        reason: Some(String::from("subscribed")),
        repository: Repository {
            full_name: String::from("octo/repo"),
            html_url: String::from("https://github.com/octo/repo"),
            owner: Some(Owner {
                avatar_url: Some(String::from(
                    "https://avatars.githubusercontent.com/u/1?v=4",
                )),
            }),
        },
        subject: Subject {
            title: Some(String::from("Fix pull link")),
            kind: Some(String::from("PullRequest")),
            url: Some(String::from(
                "https://api.github.com/repos/octo/repo/pulls/42",
            )),
        },
    }
}

fn sample_issue_thread() -> Thread {
    Thread {
        id: String::from("2"),
        unread: true,
        updated_at: String::from("2026-03-25T00:00:00Z"),
        reason: Some(String::from("subscribed")),
        repository: Repository {
            full_name: String::from("octo/repo"),
            html_url: String::from("https://github.com/octo/repo"),
            owner: Some(Owner {
                avatar_url: Some(String::from(
                    "https://avatars.githubusercontent.com/u/1?v=4",
                )),
            }),
        },
        subject: Subject {
            title: Some(String::from("Issue title")),
            kind: Some(String::from("Issue")),
            url: Some(String::from(
                "https://api.github.com/repos/octo/repo/issues/7",
            )),
        },
    }
}

#[test]
fn renders_pull_url_from_api_url() {
    let rendered = render_notification(&sample_thread(), None, None).expect("rendered");
    assert_eq!(rendered.click_url, "https://github.com/octo/repo/pull/42");
    assert_eq!(rendered.sequence_id, "github-thread-1");
    assert_eq!(rendered.message, "Pull request update in octo/repo");
}

#[test]
fn renders_commit_push_title_from_timeline() {
    let thread = sample_thread();
    let timeline = vec![TimelineEvent {
        event: Some(String::from("committed")),
        actor: None,
        user: None,
        author: Some(User {
            login: String::from("foo"),
            kind: None,
        }),
        committer: None,
        assignee: None,
        review_requester: None,
        requested_reviewer: None,
        requested_team: None,
        label: None,
        dismissed_review: None,
        body: None,
        message: Some(String::from("feat: improve notifier\n\nbody")),
        commit: None,
        state: None,
        created_at: Some(String::from("2026-03-25T00:00:00Z")),
        updated_at: None,
        submitted_at: None,
    }];

    let rendered = render_notification(&thread, None, Some(&timeline)).expect("rendered");
    assert_eq!(rendered.title, "Fix pull link");
    assert!(rendered
        .message
        .starts_with("@foo pushed 1 commit to Fix pull link\n"));
    assert!(rendered.message.contains("feat: improve notifier"));
}

#[test]
fn renders_issue_mention_title_from_reason() {
    let mut thread = sample_issue_thread();
    thread.reason = Some(String::from("mention"));
    let timeline = vec![TimelineEvent {
        event: Some(String::from("commented")),
        actor: Some(User {
            login: String::from("bar"),
            kind: None,
        }),
        user: None,
        author: None,
        committer: None,
        assignee: None,
        review_requester: None,
        requested_reviewer: None,
        requested_team: None,
        label: None,
        dismissed_review: None,
        body: Some(String::from("ping @you")),
        message: None,
        commit: None,
        state: None,
        created_at: Some(String::from("2026-03-25T00:00:00Z")),
        updated_at: None,
        submitted_at: None,
    }];

    let rendered = render_notification(&thread, None, Some(&timeline)).expect("rendered");
    assert_eq!(rendered.title, "Issue title");
    assert!(rendered
        .message
        .starts_with("@bar mentioned you in Issue title\n"));
    assert!(rendered.message.contains("ping @you"));
    assert!(rendered
        .message
        .contains("Mentioned you in issue in octo/repo"));
}

#[test]
fn renders_issue_closed_title_from_timeline() {
    let thread = sample_issue_thread();
    let timeline = vec![TimelineEvent {
        event: Some(String::from("closed")),
        actor: Some(User {
            login: String::from("bar"),
            kind: None,
        }),
        user: None,
        author: None,
        committer: None,
        assignee: None,
        review_requester: None,
        requested_reviewer: None,
        requested_team: None,
        label: None,
        dismissed_review: None,
        body: None,
        message: None,
        commit: None,
        state: None,
        created_at: Some(String::from("2026-03-25T00:00:00Z")),
        updated_at: None,
        submitted_at: None,
    }];

    let rendered = render_notification(&thread, None, Some(&timeline)).expect("rendered");
    assert_eq!(rendered.title, "Issue title");
    assert!(rendered.message.starts_with("@bar closed Issue title\n"));
}

#[test]
fn renders_issue_label_detail_from_timeline() {
    let thread = sample_issue_thread();
    let timeline = vec![TimelineEvent {
        event: Some(String::from("labeled")),
        actor: Some(User {
            login: String::from("bar"),
            kind: None,
        }),
        user: None,
        author: None,
        committer: None,
        assignee: None,
        review_requester: None,
        requested_reviewer: None,
        requested_team: None,
        label: Some(Label {
            name: String::from("bug"),
        }),
        dismissed_review: None,
        body: None,
        message: None,
        commit: None,
        state: None,
        created_at: Some(String::from("2026-03-25T00:00:00Z")),
        updated_at: None,
        submitted_at: None,
    }];

    let rendered = render_notification(&thread, None, Some(&timeline)).expect("rendered");
    assert_eq!(rendered.title, "Issue title");
    assert!(rendered.message.starts_with("@bar labeled Issue title\n"));
    assert!(rendered.message.contains("Added label: bug"));
}

#[test]
fn renders_exact_fields_for_a_pull_request() {
    let rendered = render_notification(&sample_thread(), None, None).expect("rendered");
    assert_eq!(rendered.dedupe_key, "1|2026-03-25T00:00:00Z");
    assert_eq!(rendered.title, "Fix pull link");
    assert_eq!(rendered.icon_url, "https://avatars.githubusercontent.com/u/1?v=4");
    assert_eq!(rendered.tags, "github,pr,subscribed");
    assert_eq!(rendered.priority, 3);
    assert!(rendered.actions.is_none());
}

#[test]
fn renders_defaults_without_subject_details() {
    let mut thread = sample_thread();
    thread.subject = Subject {
        title: None,
        kind: None,
        url: None,
    };
    thread.reason = None;
    thread.repository.owner = None;
    let rendered = render_notification(&thread, None, None).expect("rendered");
    assert_eq!(rendered.title, "octo/repo");
    assert_eq!(rendered.message, "Notification notification in octo/repo");
    assert_eq!(rendered.click_url, "https://github.com/octo/repo");
    assert_eq!(
        rendered.icon_url,
        "https://github.githubassets.com/images/modules/logos_page/GitHub-Mark.png"
    );
    assert_eq!(rendered.tags, "github,notification");
}

#[test]
fn priority_follows_reason() {
    let mut thread = sample_thread();
    thread.reason = Some(String::from("security_alert"));
    let rendered = render_notification(&thread, None, None).expect("rendered");
    assert_eq!(rendered.priority, 5);
    assert_eq!(rendered.message, "Security alert in octo/repo");
    assert_eq!(rendered.tags, "github,pr,security_alert");
    thread.reason = Some(String::from("review_requested"));
    let rendered = render_notification(&thread, None, None).expect("rendered");
    assert_eq!(rendered.priority, 4);
    assert_eq!(rendered.message, "Review requested on pull request in octo/repo");
    thread.reason = Some(String::from("weird"));
    let rendered = render_notification(&thread, None, None).expect("rendered");
    assert_eq!(rendered.message, "Pull request notification (weird) in octo/repo");
}

#[test]
fn tags_are_sorted_and_deduplicated() {
    let mut thread = sample_thread();
    thread.reason = Some(String::from("pr"));
    let rendered = render_notification(&thread, None, None).expect("rendered");
    assert_eq!(rendered.tags, "github,pr");
    thread.reason = Some(String::from("author"));
    let rendered = render_notification(&thread, None, None).expect("rendered");
    assert_eq!(rendered.tags, "author,github,pr");
}

#[test]
fn click_urls_for_commits_and_releases() {
    let mut thread = sample_thread();
    thread.subject.kind = Some(String::from("Commit"));
    thread.subject.url = Some(String::from("https://api.github.com/repos/octo/repo/commits/abc"));
    let rendered = render_notification(&thread, None, None).expect("rendered");
    assert_eq!(rendered.click_url, "https://github.com/octo/repo/commit/abc");
    thread.subject.kind = Some(String::from("Release"));
    thread.subject.url = Some(String::from("https://api.github.com/repos/octo/repo/releases/1/"));
    let rendered = render_notification(&thread, None, None).expect("rendered");
    assert_eq!(rendered.click_url, "https://github.com/octo/repo/releases/1");
}

#[test]
fn merged_pull_request_is_attributed_to_merger() {
    let thread = sample_thread();
    let timeline = vec![TimelineEvent {
        event: Some(String::from("closed")),
        actor: Some(User {
            login: String::from("bar"),
            kind: None,
        }),
        created_at: Some(String::from("2026-03-25T00:00:00Z")),
        ..TimelineEvent::default()
    }];
    let pull_request = PullRequestDetails {
        merged: true,
        merged_by: Some(User {
            login: String::from("maintainer"),
            kind: None,
        }),
        body: None,
    };
    let rendered =
        render_notification(&thread, Some(&pull_request), Some(&timeline)).expect("rendered");
    assert_eq!(
        rendered.message,
        "@maintainer merged Fix pull link\nPull request update in octo/repo"
    );
}

#[test]
fn pushes_of_several_commits_are_counted() {
    let thread = sample_thread();
    let commit = |message: &str, at: &str| TimelineEvent {
        event: Some(String::from("committed")),
        author: Some(User {
            login: String::from("foo"),
            kind: None,
        }),
        message: Some(String::from(message)),
        created_at: Some(String::from(at)),
        ..TimelineEvent::default()
    };
    let timeline = vec![
        commit("one", "2026-03-25T00:00:01Z"),
        commit("two", "2026-03-25T00:00:02Z"),
    ];
    let rendered = render_notification(&thread, None, Some(&timeline)).expect("rendered");
    assert_eq!(
        rendered.message,
        "@foo pushed 2 commits to Fix pull link\none\ntwo\nPull request update in octo/repo"
    );
}

#[test]
fn initial_subject_shows_the_body() {
    let thread = sample_issue_thread();
    let rendered =
        render_initial_subject_notification(&thread, Some("  first line \n\n second line ")).expect("rendered");
    assert_eq!(
        rendered.message,
        "first line\nsecond line\nIssue update in octo/repo"
    );
    assert_eq!(rendered.click_url, "https://github.com/octo/repo/issues/7");
    let rendered = render_initial_subject_notification(&thread, None).expect("rendered");
    assert_eq!(rendered.message, "Issue update in octo/repo");
}

#[test]
fn multiline_text_is_trimmed_line_by_line() {
    assert_eq!(trim_multiline_text("  a \r\n\n\t b\n   \n"), "a\nb");
    assert_eq!(trim_multiline_text(""), "");
}

#[test]
fn updates_of_one_thread_share_a_sequence_id() {
    let first = sample_thread();
    let mut later = sample_thread();
    later.updated_at = String::from("2026-03-26T00:00:00Z");
    let a = render_notification(&first, None, None).expect("rendered");
    let b = render_notification(&later, None, None).expect("rendered");
    assert_eq!(a.sequence_id, b.sequence_id);
    assert_ne!(a.dedupe_key, b.dedupe_key);
    let other = render_notification(&sample_issue_thread(), None, None).expect("rendered");
    assert_ne!(a.sequence_id, other.sequence_id);
}

#[test]
fn unknown_subject_types_open_the_repository() {
    let mut thread = sample_thread();
    thread.subject.kind = Some(String::from("CheckSuite"));
    thread.subject.url = Some(String::from("https://api.github.com/repos/octo/repo/check-suites/9"));
    let rendered = render_notification(&thread, None, None).expect("rendered");
    assert_eq!(rendered.click_url, "https://github.com/octo/repo");
}
