use axum::http::header::AUTHORIZATION;
use axum::http::HeaderMap;
use github_ntfy_agent::action::{authorized, notification_actions};
use github_ntfy_agent::config::ActionsConfig;

fn header_of(headers: &HeaderMap) -> Option<&str> {
    headers.get(AUTHORIZATION).and_then(|value| value.to_str().ok())
}

#[test]
fn authorizes_matching_bearer_token() {
    let mut headers = HeaderMap::new();
    headers.insert(AUTHORIZATION, "Bearer secret".parse().expect("header"));

    assert!(authorized(header_of(&headers), "secret"));
    assert!(!authorized(header_of(&headers), "wrong"));
}

#[test]
fn missing_authorization_is_refused() {
    let headers = HeaderMap::new();
    assert!(!authorized(header_of(&headers), "secret"));
    assert!(!authorized(Some("bearer secret"), "secret"));
}

#[test]
fn builds_notification_actions_for_thread() {
    let actions = notification_actions(
        &ActionsConfig {
            enabled: true,
            listen_addr: String::from("127.0.0.1:8787"),
            public_base_url: String::from("http://127.0.0.1:8787/"),
            token: String::from("secret"),
        },
        "123",
    )
    .expect("actions");

    assert!(actions.contains("/api/actions/done/123"));
    assert!(actions.contains("headers.Authorization=\"Bearer secret\""));
}

#[test]
fn builds_exact_actions_text() {
    let actions = notification_actions(
        &ActionsConfig {
            enabled: true,
            listen_addr: String::from("0.0.0.0:8787"),
            public_base_url: String::from("http://host:8787//"),
            token: String::from("t"),
        },
        "7",
    )
    .expect("actions");
    assert_eq!(
        actions,
        "http, Done, http://host:8787/api/actions/done/7, method=POST, headers.Authorization=\"Bearer t\", clear=true; \
http, Read, http://host:8787/api/actions/read/7, method=POST, headers.Authorization=\"Bearer t\", clear=true; \
http, Mute, http://host:8787/api/actions/mute/7, method=POST, headers.Authorization=\"Bearer t\", clear=true"
    );
}

#[test]
fn disabled_actions_give_nothing() {
    assert!(notification_actions(&ActionsConfig::default(), "1").is_none());
}
