use github_ntfy_agent::github::timeline::timeline_url;
use github_ntfy_agent::github::{DismissedReview, Team, TimelineActivity, TimelineEvent, User};

fn user(login: &str, kind: Option<&str>) -> User {
    User {
        login: String::from(login),
        kind: kind.map(String::from),
    }
}

fn committed_event(actor: &str, message: &str, created_at: &str) -> TimelineEvent {
    TimelineEvent {
        event: Some(String::from("committed")),
        actor: None,
        user: None,
        author: Some(user(actor, None)),
        committer: None,
        assignee: None,
        review_requester: None,
        requested_reviewer: None,
        requested_team: None,
        label: None,
        dismissed_review: None,
        body: None,
        message: Some(String::from(message)),
        commit: None,
        state: None,
        created_at: Some(String::from(created_at)),
        updated_at: None,
        submitted_at: None,
    }
}

#[test]
fn groups_recent_commits_for_same_actor() {
    let timeline = vec![
        committed_event("alice", "feat: one\n\nbody", "2026-03-24T00:00:00Z"),
        committed_event("alice", "fix: two", "2026-03-24T01:00:00Z"),
        committed_event("bob", "chore: three", "2026-03-24T02:00:00Z"),
    ];

    let activity = TimelineActivity::from_timeline(&timeline).expect("activity");

    assert_eq!(activity.kind, "committed");
    assert_eq!(activity.actor, "bob");
    assert_eq!(activity.commit_count, Some(1));
    assert_eq!(activity.detail.as_deref(), Some("chore: three"));
}

#[test]
fn keeps_requested_team_in_review_request_detail() {
    let timeline = vec![TimelineEvent {
        event: Some(String::from("review_requested")),
        actor: Some(user("actor", None)),
        user: None,
        author: None,
        committer: None,
        assignee: None,
        review_requester: Some(user("carol", None)),
        requested_reviewer: None,
        requested_team: Some(Team {
            slug: String::from("backend"),
        }),
        label: None,
        dismissed_review: None,
        body: None,
        message: None,
        commit: None,
        state: None,
        created_at: Some(String::from("2026-03-24T00:00:00Z")),
        updated_at: None,
        submitted_at: None,
    }];

    let activity = TimelineActivity::from_timeline(&timeline).expect("activity");

    assert_eq!(activity.kind, "review_requested");
    assert_eq!(activity.actor, "carol");
    assert_eq!(activity.detail.as_deref(), Some("Requested from @backend"));
}

#[test]
fn detects_bot_users_from_type_or_suffix() {
    assert!(user("renovate[bot]", None).is_bot());
    assert!(user("app", Some("Bot")).is_bot());
    assert!(!user("alice", Some("User")).is_bot());
}

#[test]
fn converts_pull_urls_to_timeline_urls() {
    let url = timeline_url("https://api.github.com/repos/octo/repo/pulls/42").expect("url");
    assert_eq!(
        url,
        "https://api.github.com/repos/octo/repo/issues/42/timeline?per_page=100"
    );
}

#[test]
fn timeline_urls_for_issues_and_other_subjects() {
    assert_eq!(
        timeline_url("https://api.github.com/repos/octo/repo/issues/7").expect("url"),
        "https://api.github.com/repos/octo/repo/issues/7/timeline?per_page=100"
    );
    assert_eq!(
        timeline_url("https://api.github.com/repos/octo/repo/commits/abc").unwrap_err(),
        "unsupported subject URL for timeline: https://api.github.com/repos/octo/repo/commits/abc"
    );
}

fn simple(kind: &str, login: &str, at: &str) -> TimelineEvent {
    TimelineEvent {
        event: Some(String::from(kind)),
        actor: Some(user(login, None)),
        created_at: Some(String::from(at)),
        ..TimelineEvent::default()
    }
}

#[test]
fn untracked_events_give_no_activity() {
    assert!(TimelineActivity::from_timeline(&[]).is_none());
    let timeline = vec![simple("subscribed", "a", "2026-01-01"), simple("mentioned", "b", "2026-01-02")];
    assert!(TimelineActivity::from_timeline(&timeline).is_none());
}

#[test]
fn newest_event_wins_and_ties_keep_the_later_one() {
    let timeline = vec![
        simple("closed", "late", "2026-01-03"),
        simple("reopened", "early", "2026-01-01"),
        simple("labeled", "tie-first", "2026-01-02"),
    ];
    let activity = TimelineActivity::from_timeline(&timeline).expect("activity");
    assert_eq!(activity.kind, "closed");
    assert_eq!(activity.actor, "late");

    let tied = vec![simple("closed", "first", "2026-01-03"), simple("reopened", "second", "2026-01-03")];
    let activity = TimelineActivity::from_timeline(&tied).expect("activity");
    assert_eq!(activity.kind, "reopened");
    assert_eq!(activity.actor, "second");
}

#[test]
fn review_states_name_the_activity() {
    let mut review = simple("reviewed", "rev", "2026-01-01");
    review.state = Some(String::from("approved"));
    review.body = Some(String::from("looks good"));
    let activity = TimelineActivity::from_timeline(&[review.clone()]).expect("activity");
    assert_eq!(activity.kind, "review_approved");
    assert_eq!(activity.detail.as_deref(), Some("looks good"));
    review.state = Some(String::from("CHANGES_REQUESTED"));
    let activity = TimelineActivity::from_timeline(&[review.clone()]).expect("activity");
    assert_eq!(activity.kind, "review_changes_requested");
    review.state = None;
    let activity = TimelineActivity::from_timeline(&[review]).expect("activity");
    assert_eq!(activity.kind, "reviewed");
}

#[test]
fn commit_groups_keep_three_messages() {
    let timeline = vec![
        committed_event("alice", "one", "2026-01-01"),
        committed_event("alice", "\n  two  \nrest", "2026-01-02"),
        committed_event("alice", "three", "2026-01-03"),
        committed_event("alice", "four", "2026-01-04"),
    ];
    let activity = TimelineActivity::from_timeline(&timeline).expect("activity");
    assert_eq!(activity.commit_count, Some(4));
    assert_eq!(activity.detail.as_deref(), Some("one\ntwo\nthree"));
}

#[test]
fn assignment_labels_and_dismissals_have_details() {
    let mut assigned = simple("assigned", "a", "2026-01-01");
    let activity = TimelineActivity::from_timeline(&[assigned.clone()]).expect("activity");
    assert_eq!(activity.detail.as_deref(), Some("Assigned to @someone"));
    assigned.assignee = Some(user("bob", None));
    assigned.event = Some(String::from("unassigned"));
    let activity = TimelineActivity::from_timeline(&[assigned]).expect("activity");
    assert_eq!(activity.detail.as_deref(), Some("Unassigned from @bob"));

    let unlabeled = simple("unlabeled", "a", "2026-01-01");
    let activity = TimelineActivity::from_timeline(&[unlabeled]).expect("activity");
    assert_eq!(activity.detail.as_deref(), Some("Removed label: unknown"));

    let mut dismissed = simple("review_dismissed", "a", "2026-01-01");
    dismissed.dismissed_review = Some(DismissedReview {
        dismissal_message: Some(String::from("stale")),
    });
    let activity = TimelineActivity::from_timeline(&[dismissed]).expect("activity");
    assert_eq!(activity.detail.as_deref(), Some("stale"));
}

#[test]
fn removed_review_request_names_the_reviewer_and_bots() {
    let mut e = simple("review_request_removed", "someone-else", "2026-01-01");
    e.review_requester = Some(user("dependabot[bot]", None));
    e.requested_reviewer = Some(user("dave", None));
    let activity = TimelineActivity::from_timeline(&[e]).expect("activity");
    assert_eq!(activity.actor, "dependabot[bot]");
    assert!(activity.actor_is_bot);
    assert_eq!(activity.detail.as_deref(), Some("Removed for @dave"));
}

#[test]
fn submitted_time_orders_before_creation_time() {
    let mut early = simple("commented", "a", "2026-01-05");
    early.submitted_at = Some(String::from("2026-01-01"));
    let late = simple("closed", "b", "2026-01-02");
    let activity = TimelineActivity::from_timeline(&[late, early]).expect("activity");
    assert_eq!(activity.kind, "closed");
}

#[test]
fn reordering_events_with_distinct_times_keeps_the_summary() {
    let first = vec![
        committed_event("alice", "one", "2026-01-01"),
        simple("labeled", "bob", "2026-01-02"),
        committed_event("alice", "two", "2026-01-03"),
        committed_event("alice", "three", "2026-01-04"),
        simple("subscribed", "nobody", "2026-01-05"),
    ];
    let second = vec![
        committed_event("alice", "three", "2026-01-04"),
        simple("mentioned", "nobody", "2026-01-09"),
        committed_event("alice", "one", "2026-01-01"),
        committed_event("alice", "two", "2026-01-03"),
        simple("labeled", "bob", "2026-01-02"),
    ];
    let a = TimelineActivity::from_timeline(&first).expect("activity");
    let b = TimelineActivity::from_timeline(&second).expect("activity");
    assert_eq!(a.kind, "committed");
    assert_eq!(a.kind, b.kind);
    assert_eq!(a.actor, b.actor);
    assert_eq!(a.actor_is_bot, b.actor_is_bot);
    assert_eq!(a.detail, b.detail);
    assert_eq!(a.commit_count, Some(2));
    assert_eq!(a.commit_count, b.commit_count);
}
