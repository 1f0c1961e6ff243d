use github_ntfy_agent::auto_watch::{expand_me, should_watch_repository};
use github_ntfy_agent::config::AutoWatchConfig;
use github_ntfy_agent::github::AutoWatchRepository;

fn repository(full_name: &str) -> AutoWatchRepository {
    AutoWatchRepository {
        full_name: String::from(full_name),
        html_url: format!("https://github.com/{full_name}"),
        archived: false,
        fork: false,
    }
}

#[test]
fn watches_repositories_matching_default_include() {
    assert!(should_watch_repository(
        &AutoWatchConfig::default(),
        &repository("example-org/api"),
        "alice"
    ));
}

#[test]
fn supports_me_as_current_user_owner_pattern() {
    let config = AutoWatchConfig {
        enabled: true,
        included: vec![String::from("@me/*")],
        exclude: Vec::new(),
    };

    assert!(should_watch_repository(
        &config,
        &repository("alice/app"),
        "alice"
    ));
    assert!(!should_watch_repository(
        &config,
        &repository("example-org/app"),
        "alice"
    ));
}

#[test]
fn exclude_patterns_opt_out_after_me_expansion() {
    let config = AutoWatchConfig {
        enabled: true,
        included: vec![String::from("*/*")],
        exclude: vec![String::from("@me/noisy-*")],
    };

    assert!(!should_watch_repository(
        &config,
        &repository("alice/noisy-app"),
        "alice"
    ));
    assert!(should_watch_repository(
        &config,
        &repository("alice/quiet-app"),
        "alice"
    ));
}

#[test]
fn me_expansion() {
    assert_eq!(expand_me("@me", "alice"), "alice");
    assert_eq!(expand_me("@me/x-*", "alice"), "alice/x-*");
    assert_eq!(expand_me("@meow/x", "alice"), "@meow/x");
    assert_eq!(expand_me("org/@me", "alice"), "org/@me");
}

#[test]
fn nothing_is_watched_without_includes() {
    let config = AutoWatchConfig {
        enabled: true,
        included: Vec::new(),
        exclude: Vec::new(),
    };
    assert!(!should_watch_repository(&config, &repository("a/b"), "alice"));
}

#[test]
fn bare_me_matches_only_the_login() {
    let config = AutoWatchConfig {
        enabled: true,
        included: vec![String::from("@me")],
        exclude: Vec::new(),
    };
    assert!(should_watch_repository(&config, &repository("alice"), "alice"));
    assert!(!should_watch_repository(&config, &repository("alice/app"), "alice"));
}
