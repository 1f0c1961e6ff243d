use github_ntfy_agent::config::{BlockRule, FiltersConfig};
use github_ntfy_agent::filter::{build_notification_facts, matching_block_rule, NotificationFacts};
use github_ntfy_agent::github::{PullRequestDetails, Repository, Subject, Thread, TimelineEvent, User};

fn facts() -> NotificationFacts {
    NotificationFacts {
        repo_full_name: String::from("example-org/api"),
        owner: String::from("example-org"),
        subject_type: String::from("Issue"),
        reason: String::from("mention"),
        title: None,
        activity: Some(String::from("commented")),
        actor: Some(String::from("renovate[bot]")),
        actor_is_bot: true,
    }
}

#[test]
fn matches_block_rule_for_repo_and_bot_actor() {
    let filters = FiltersConfig {
        block: vec![BlockRule {
            name: Some(String::from("ignore example-org bots")),
            repo: Some(String::from("example-org/*")),
            actor_is_bot: Some(true),
            ..BlockRule::default()
        }],
    };

    let matched = matching_block_rule(&filters, &facts()).expect("rule matched");
    assert_eq!(matched.name.as_deref(), Some("ignore example-org bots"));
}

#[test]
fn does_not_match_when_actor_is_human() {
    let filters = FiltersConfig {
        block: vec![BlockRule {
            repo: Some(String::from("example-org/*")),
            actor_is_bot: Some(true),
            ..BlockRule::default()
        }],
    };
    let mut facts = facts();
    facts.actor_is_bot = false;
    facts.actor = Some(String::from("alice"));

    assert!(matching_block_rule(&filters, &facts).is_none());
}

#[test]
fn ignores_empty_rules() {
    let filters = FiltersConfig {
        block: vec![BlockRule::default()],
    };

    assert!(matching_block_rule(&filters, &facts()).is_none());
}

#[test]
fn first_matching_rule_wins() {
    let filters = FiltersConfig {
        block: vec![
            BlockRule {
                name: Some(String::from("other repo")),
                repo: Some(String::from("other/*")),
                ..BlockRule::default()
            },
            BlockRule {
                name: Some(String::from("mentions")),
                reason: Some(String::from("MENTION")),
                ..BlockRule::default()
            },
            BlockRule {
                name: Some(String::from("issues")),
                subject_type: Some(String::from("issue")),
                ..BlockRule::default()
            },
        ],
    };
    let matched = matching_block_rule(&filters, &facts()).expect("rule matched");
    assert_eq!(matched.name.as_deref(), Some("mentions"));
}

#[test]
fn activity_rule_needs_an_activity() {
    let filters = FiltersConfig {
        block: vec![BlockRule {
            activity: Some(String::from("Commented")),
            ..BlockRule::default()
        }],
    };
    assert!(matching_block_rule(&filters, &facts()).is_some());
    let mut quiet = facts();
    quiet.activity = None;
    assert!(matching_block_rule(&filters, &quiet).is_none());
}

#[test]
fn actor_pattern_needs_an_actor() {
    let filters = FiltersConfig {
        block: vec![BlockRule {
            actor: Some(String::from("renovate*")),
            ..BlockRule::default()
        }],
    };
    assert!(matching_block_rule(&filters, &facts()).is_some());
    let mut anonymous = facts();
    anonymous.actor = None;
    assert!(matching_block_rule(&filters, &anonymous).is_none());
}

fn thread() -> Thread {
    Thread {
        id: String::from("9"),
        unread: true,
        updated_at: String::from("2026-03-25T00:00:00Z"),
        reason: None,
        repository: Repository {
            full_name: String::from("octo/repo"),
            html_url: String::from("https://github.com/octo/repo"),
            owner: None,
        },
        subject: Subject {
            title: Some(String::from("Title")),
            kind: None,
            url: None,
        },
    }
}

fn event(kind: &str, login: &str, at: &str) -> TimelineEvent {
    TimelineEvent {
        event: Some(String::from(kind)),
        actor: Some(User {
            login: String::from(login),
            kind: None,
        }),
        created_at: Some(String::from(at)),
        ..TimelineEvent::default()
    }
}

#[test]
fn facts_default_reason_and_subject_type() {
    let facts = build_notification_facts(&thread(), None, None);
    assert_eq!(facts.repo_full_name, "octo/repo");
    assert_eq!(facts.owner, "octo");
    assert_eq!(facts.reason, "notification");
    assert_eq!(facts.subject_type, "Notification");
    assert_eq!(facts.activity, None);
    assert_eq!(facts.actor, None);
    assert!(!facts.actor_is_bot);
}

#[test]
fn facts_owner_is_empty_without_slash() {
    let mut t = thread();
    t.repository.full_name = String::from("lonely");
    let facts = build_notification_facts(&t, None, None);
    assert_eq!(facts.owner, "");
}

#[test]
fn facts_attribute_merge_to_merger() {
    let timeline = vec![event("closed", "alice", "2026-03-25T00:00:00Z")];
    let pull_request = PullRequestDetails {
        merged: true,
        merged_by: Some(User {
            login: String::from("merge-bot[bot]"),
            kind: None,
        }),
        body: None,
    };
    let facts = build_notification_facts(&thread(), Some(&pull_request), Some(&timeline));
    assert_eq!(facts.activity.as_deref(), Some("closed"));
    assert_eq!(facts.actor.as_deref(), Some("merge-bot[bot]"));
    assert!(facts.actor_is_bot);

    let not_merged = PullRequestDetails {
        merged: false,
        ..pull_request
    };
    let facts = build_notification_facts(&thread(), Some(&not_merged), Some(&timeline));
    assert_eq!(facts.actor.as_deref(), Some("alice"));
    assert!(!facts.actor_is_bot);
}

#[test]
fn title_rules_match_the_subject_title() {
    let thread = Thread {
        subject: Subject {
            title: Some(String::from("chore: bump deps")),
            kind: Some(String::from("PullRequest")),
            url: None,
        },
        ..thread()
    };
    let facts = build_notification_facts(&thread, None, None);
    assert_eq!(facts.title.as_deref(), Some("chore: bump deps"));
    let filters = FiltersConfig {
        block: vec![BlockRule {
            name: Some(String::from("ignore chores")),
            title: Some(String::from("chore*")),
            ..BlockRule::default()
        }],
    };
    let matched = matching_block_rule(&filters, &facts).expect("rule matched");
    assert_eq!(matched.name.as_deref(), Some("ignore chores"));

    let untitled = Thread {
        subject: Subject { title: None, kind: None, url: None },
        ..thread
    };
    let untitled_facts = build_notification_facts(&untitled, None, None);
    assert!(matching_block_rule(&filters, &untitled_facts).is_none());
}
