use github_ntfy_agent::app::{
    decide_delivery, dedupe_key, enrichment_plan, enrichment_result, rest_fallback, initial_subject_body_source, next_backoff_secs,
    next_sleep_secs, plan_auto_watch, prepare_delivery, prepare_initial_subject, record_delivery, record_subscription,
    repositories_to_watch, should_send_initial_subject_notification, unread_positions, wants_initial_subject,
    BodySource, Delivery,
};
use github_ntfy_agent::config::{
    ActionsConfig, AppConfig, AutoWatchConfig, BlockRule, Config, FiltersConfig, GitHubConfig, NtfyConfig,
};
use github_ntfy_agent::github::{
    AutoWatchRepository, PullRequestDetails, Repository, RepositorySubscriptionResult, Subject, Thread,
    TimelineEvent, User,
};
use github_ntfy_agent::state::{NotificationMerge, State};

fn thread(kind: &str) -> Thread {
    Thread {
        id: String::from("1"),
        unread: true,
        updated_at: String::from("2026-06-15T00:07:51Z"),
        reason: Some(String::from("subscribed")),
        repository: Repository {
            full_name: String::from("cataclysmbn/Cataclysm-BN"),
            html_url: String::from("https://github.com/cataclysmbn/Cataclysm-BN"),
            owner: None,
        },
        subject: Subject {
            title: Some(String::from("feat: allow pens to be used as writing tools")),
            kind: Some(String::from(kind)),
            url: Some(String::from(
                "https://api.github.com/repos/cataclysmbn/Cataclysm-BN/pulls/9503",
            )),
        },
    }
}

fn merge(had_existing: bool) -> NotificationMerge {
    NotificationMerge {
        blocks: vec![String::from("Added label: JSON")],
        had_existing,
        inserted_new_block: true,
    }
}

#[test]
fn sends_initial_subject_when_first_activity_is_filtered() {
    let rule = BlockRule {
        activity: Some(String::from("labeled")),
        ..BlockRule::default()
    };

    assert!(should_send_initial_subject_notification(
        &rule,
        &merge(false),
        &thread("PullRequest")
    ));
}

#[test]
fn keeps_filtering_activity_after_subject_was_sent() {
    let rule = BlockRule {
        activity: Some(String::from("labeled")),
        ..BlockRule::default()
    };

    assert!(!should_send_initial_subject_notification(
        &rule,
        &merge(true),
        &thread("PullRequest")
    ));
}

#[test]
fn does_not_bypass_non_activity_filters() {
    let rule = BlockRule {
        repo: Some(String::from("cataclysmbn/Cataclysm-BN")),
        ..BlockRule::default()
    };

    assert!(!should_send_initial_subject_notification(
        &rule,
        &merge(false),
        &thread("PullRequest")
    ));
}

fn config(block: Vec<BlockRule>) -> Config {
    Config {
        github: GitHubConfig {
            token: None,
            api_base: String::from("https://api.github.com"),
            participating: false,
            per_page: 50,
            enrich_pull_requests: true,
            enrich_issues: false,
            timeout_secs: 5,
        },
        ntfy: NtfyConfig {
            publish_url: String::from("https://ntfy.example/topic"),
            token: None,
            timeout_secs: 5,
        },
        app: AppConfig::default(),
        filters: FiltersConfig { block },
        actions: ActionsConfig {
            enabled: true,
            listen_addr: String::from("127.0.0.1:8787"),
            public_base_url: String::from("http://agent"),
            token: String::from("secret"),
        },
        auto_watch: AutoWatchConfig::default(),
    }
}

fn labeled_timeline() -> Vec<TimelineEvent> {
    vec![TimelineEvent {
        event: Some(String::from("labeled")),
        actor: Some(User {
            login: String::from("bar"),
            kind: None,
        }),
        created_at: Some(String::from("2026-06-15T00:00:00Z")),
        ..TimelineEvent::default()
    }]
}

#[test]
fn delivery_sends_then_skips_the_same_update() {
    let config = config(Vec::new());
    let mut state = State::default();
    let t = thread("PullRequest");
    let timeline = labeled_timeline();
    let prepared = prepare_delivery(&config, &state, &t, None, Some(&timeline));
    assert!(prepared.rendered.actions.as_deref().unwrap().contains("http://agent/api/actions/done/1"));
    assert_eq!(prepared.facts.activity.as_deref(), Some("labeled"));
    match decide_delivery(&config, &mut state, prepared) {
        Delivery::Send { notification, blocks } => {
            assert_eq!(notification.message, blocks.join("\n\n"));
            record_delivery(&config, &mut state, &notification, blocks);
        }
        other => panic!("expected a delivery, got {other:?}"),
    }
    assert!(state.has_seen(&dedupe_key(&t)));
    let again = prepare_delivery(&config, &state, &t, None, Some(&timeline));
    assert!(again.merge.had_existing);
    assert!(!again.merge.inserted_new_block);
    assert!(matches!(decide_delivery(&config, &mut state, again), Delivery::Unchanged));
}

#[test]
fn blocked_activity_announces_the_subject_first() {
    let config = config(vec![BlockRule {
        name: Some(String::from("labels")),
        activity: Some(String::from("labeled")),
        ..BlockRule::default()
    }]);
    let mut state = State::default();
    let t = thread("Issue");
    let timeline = labeled_timeline();
    let prepared = prepare_delivery(&config, &state, &t, None, Some(&timeline));
    assert!(wants_initial_subject(&config, &prepared, &t));
    let initial = prepare_initial_subject(&config, &state, &t, None, Some("the body"));
    assert!(initial.facts.activity.is_none());
    assert!(!wants_initial_subject(&config, &initial, &t));
    match decide_delivery(&config, &mut state, initial) {
        Delivery::Send { notification, .. } => {
            assert_eq!(notification.message, "the body\nIssue update in cataclysmbn/Cataclysm-BN");
        }
        other => panic!("expected a delivery, got {other:?}"),
    }
    let blocked = prepare_delivery(&config, &state, &t, None, Some(&timeline));
    match decide_delivery(&config, &mut state, blocked) {
        Delivery::Blocked { rule_name } => assert_eq!(rule_name.as_deref(), Some("labels")),
        other => panic!("expected a block, got {other:?}"),
    }
    assert!(state.has_seen(&dedupe_key(&t)));
}

#[test]
fn enrichment_plan_follows_subject_and_switches() {
    let config = config(Vec::new());
    assert_eq!(enrichment_plan(&thread("PullRequest"), &config.github), (true, true));
    assert_eq!(enrichment_plan(&thread("Issue"), &config.github), (false, false));
    let mut github = config.github.clone();
    github.enrich_issues = true;
    assert_eq!(enrichment_plan(&thread("Issue"), &github), (false, true));
    let mut no_url = thread("PullRequest");
    no_url.subject.url = None;
    assert_eq!(enrichment_plan(&no_url, &config.github), (false, false));
}

#[test]
fn initial_body_comes_from_details_or_a_fetch() {
    let pull_request = PullRequestDetails {
        merged: false,
        merged_by: None,
        body: Some(String::from("known")),
    };
    assert!(matches!(
        initial_subject_body_source(&thread("PullRequest"), Some(&pull_request)),
        BodySource::Known(b) if b == "known"
    ));
    assert!(matches!(
        initial_subject_body_source(&thread("Issue"), None),
        BodySource::Fetch(u) if u.ends_with("/pulls/9503")
    ));
    assert!(matches!(
        initial_subject_body_source(&thread("Commit"), None),
        BodySource::Absent
    ));
}

#[test]
fn sleeping_and_backoff() {
    assert_eq!(next_sleep_secs(Some(120), 60), 120);
    assert_eq!(next_sleep_secs(Some(30), 60), 60);
    assert_eq!(next_sleep_secs(None, 60), 60);
    assert_eq!(next_backoff_secs(60), 120);
    assert_eq!(next_backoff_secs(600), 900);
    assert_eq!(next_backoff_secs(u64::MAX), 900);
}

#[test]
fn only_unread_threads_are_processed() {
    let mut read = thread("Issue");
    read.unread = false;
    let threads = vec![thread("Issue"), read, thread("PullRequest")];
    assert_eq!(unread_positions(&threads), vec![0, 2]);
}

#[test]
fn auto_watch_selection_and_recording() {
    let repositories = vec![
        AutoWatchRepository {
            full_name: String::from("alice/app"),
            html_url: String::new(),
            archived: false,
            fork: false,
        },
        AutoWatchRepository {
            full_name: String::from("single"),
            html_url: String::new(),
            archived: false,
            fork: false,
        },
    ];
    let names = repositories_to_watch(&AutoWatchConfig::default(), &repositories, "alice");
    assert_eq!(names, vec![String::from("alice/app")]);
    let mut state = State::default();
    record_subscription(&mut state, String::from("alice/app"), &Err(String::from("boom")));
    assert!(!state.has_auto_watched_repository("alice/app"));
    record_subscription(&mut state, String::from("alice/app"), &Ok(RepositorySubscriptionResult::Subscribed));
    assert!(state.has_auto_watched_repository("alice/app"));
}

#[test]
fn auto_watch_records_a_baseline_then_plans_new_repositories() {
    let mut state = State::default();
    let first = plan_auto_watch(&mut state, vec![String::from("alice/a"), String::from("alice/b")]);
    assert!(first.is_empty());
    assert!(state.is_auto_watch_initialized());
    assert!(state.has_auto_watched_repository("alice/a"));
    assert!(state.has_auto_watched_repository("alice/b"));

    let second = plan_auto_watch(
        &mut state,
        vec![String::from("alice/a"), String::from("alice/c"), String::from("alice/b"), String::from("alice/d")],
    );
    assert_eq!(second, vec![String::from("alice/c"), String::from("alice/d")]);
    assert!(!state.has_auto_watched_repository("alice/c"));
}

#[test]
fn auto_watch_plans_each_new_repository_once() {
    let mut state = State::default();
    let _ = plan_auto_watch(&mut state, vec![String::from("alice/a")]);
    let planned = plan_auto_watch(
        &mut state,
        vec![String::from("alice/b"), String::from("alice/a"), String::from("alice/b")],
    );
    assert_eq!(planned, vec![String::from("alice/b")]);
}

fn details(merged: bool) -> PullRequestDetails {
    PullRequestDetails { merged, merged_by: None, body: None }
}

#[test]
fn graphql_enrichment_wins_and_rest_is_the_fallback() {
    let graphql_ok: Option<Result<(PullRequestDetails, Vec<TimelineEvent>), String>> =
        Some(Ok((details(true), labeled_timeline())));
    assert_eq!(rest_fallback((true, true), &graphql_ok), (false, false));
    let (pull_request, timeline) = enrichment_result((true, true), graphql_ok, None, None);
    assert!(pull_request.expect("details").merged);
    assert_eq!(timeline.expect("timeline").len(), labeled_timeline().len());

    let graphql_failed: Option<Result<(PullRequestDetails, Vec<TimelineEvent>), String>> =
        Some(Err(String::from("boom")));
    assert_eq!(rest_fallback((true, true), &graphql_failed), (true, true));
    let (pull_request, timeline) = enrichment_result(
        (true, true),
        graphql_failed,
        Some(Ok(details(false))),
        Some(Err(String::from("timeline down"))),
    );
    assert!(!pull_request.expect("details").merged);
    assert!(timeline.is_none());

    assert_eq!(rest_fallback((false, true), &None), (false, true));
    let (pull_request, timeline) = enrichment_result((false, true), None, None, Some(Ok(Vec::new())));
    assert!(pull_request.is_none());
    assert_eq!(timeline.expect("timeline").len(), 0);
}
