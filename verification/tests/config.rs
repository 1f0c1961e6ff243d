use github_ntfy_agent::config::{
    default_api_base, default_config_path, default_log_level, default_max_seen, default_per_page,
    default_poll_interval_secs, default_timeout_secs, default_true, resolve_state_path, validate,
    ActionsConfig, AppConfig, AutoWatchConfig, Config, FiltersConfig, GitHubConfig, NtfyConfig,
};

fn config() -> Config {
    Config {
        github: GitHubConfig {
            token: None,
            api_base: default_api_base(),
            participating: false,
            per_page: default_per_page(),
            enrich_pull_requests: default_true(),
            enrich_issues: default_true(),
            timeout_secs: default_timeout_secs(),
        },
        ntfy: NtfyConfig {
            publish_url: String::from("https://ntfy.sh/topic"),
            token: None,
            timeout_secs: default_timeout_secs(),
        },
        app: AppConfig::default(),
        filters: FiltersConfig::default(),
        actions: ActionsConfig::default(),
        auto_watch: AutoWatchConfig::default(),
    }
}

#[test]
fn defaults() {
    assert_eq!(default_api_base(), "https://api.github.com");
    assert_eq!(default_per_page(), 100);
    assert_eq!(default_poll_interval_secs(), 60);
    assert_eq!(default_max_seen(), 2000);
    assert_eq!(default_log_level(), "info");
    let app = AppConfig::default();
    assert_eq!(app.poll_interval_secs, 60);
    assert!(app.state_path.is_none());
}

#[test]
fn validation_names_the_first_problem() {
    assert!(validate(&config()).is_ok());
    let mut c = config();
    c.ntfy.publish_url = String::from("  ");
    c.github.per_page = 0;
    assert_eq!(validate(&c).unwrap_err(), "ntfy.publish_url must not be empty");
    let mut c = config();
    c.github.per_page = 101;
    assert_eq!(validate(&c).unwrap_err(), "github.per_page must be between 1 and 100");
    let mut c = config();
    c.app.poll_interval_secs = 0;
    assert_eq!(validate(&c).unwrap_err(), "app.poll_interval_secs must be greater than zero");
    let mut c = config();
    c.app.max_seen = 0;
    assert_eq!(validate(&c).unwrap_err(), "app.max_seen must be greater than zero");
}

#[test]
fn state_path_resolution() {
    let mut c = config();
    c.app.state_path = Some(String::from("/var/lib/agent/state.json"));
    assert_eq!(resolve_state_path(&c, "/etc/x/config.toml").expect("path"), "/var/lib/agent/state.json");
    let c = config();
    for config_path in ["/etc/github-ntfy-agent/config.toml", "/tmp/elsewhere/config.toml"] {
        match resolve_state_path(&c, config_path) {
            Ok(path) => {
                assert!(path.ends_with("state.json"));
                assert!(path.contains("github-ntfy-agent"));
                assert_ne!(path, "/etc/github-ntfy-agent/state.json");
            }
            Err(message) => assert!(
                message == "failed to resolve platform config directories"
                    || message == "failed to resolve platform state directory"
            ),
        }
    }
}

#[test]
fn default_config_path_ends_in_config_toml() {
    if let Ok(path) = default_config_path() {
        assert!(path.ends_with("config.toml"));
        assert!(path.contains("github-ntfy-agent"));
    }
}
