use github_ntfy_agent::ntfy::build_headers;
use github_ntfy_agent::render::RenderedNotification;

fn sample_notification() -> RenderedNotification {
    RenderedNotification {
        dedupe_key: String::from("1|now"),
        sequence_id: String::from("github-thread-1"),
        title: String::from("Title"),
        message: String::from("Body"),
        actions: None,
        click_url: String::from("https://github.com/octo/repo/pull/1"),
        icon_url: String::from("https://avatars.githubusercontent.com/u/1?v=4"),
        tags: String::from("github,pr"),
        priority: 4,
    }
}

fn get<'a>(headers: &'a [(String, String)], name: &str) -> Option<&'a str> {
    headers
        .iter()
        .find(|(key, _)| key == name)
        .map(|(_, value)| value.as_str())
}

#[test]
fn builds_ntfy_headers_without_auth_when_token_missing() {
    let headers = build_headers(&sample_notification(), None);

    assert_eq!(get(&headers, "title").expect("title"), "Title");
    assert_eq!(get(&headers, "tags").expect("tags"), "github,pr");
    assert!(get(&headers, "authorization").is_none());
}

#[test]
fn builds_ntfy_headers_with_bearer_token() {
    let headers = build_headers(&sample_notification(), Some("secret"));

    assert_eq!(
        get(&headers, "authorization").expect("authorization"),
        "Bearer secret"
    );
    assert_eq!(get(&headers, "priority").expect("priority"), "4");
}

#[test]
fn header_order_and_values() {
    let headers = build_headers(&sample_notification(), None);
    let names: Vec<&str> = headers.iter().map(|(k, _)| k.as_str()).collect();
    assert_eq!(names, vec!["title", "click", "icon", "tags", "priority", "x-sequence-id"]);
    assert_eq!(get(&headers, "click"), Some("https://github.com/octo/repo/pull/1"));
}

#[test]
fn sequence_id_and_actions_are_sent() {
    let mut notification = sample_notification();
    notification.actions = Some(String::from("http, Done, https://agent/api/actions/done/1"));
    let headers = build_headers(&notification, Some("secret"));
    let names: Vec<&str> = headers.iter().map(|(k, _)| k.as_str()).collect();
    assert_eq!(
        names,
        vec!["title", "click", "icon", "tags", "priority", "x-sequence-id", "actions", "authorization"]
    );
    assert_eq!(get(&headers, "x-sequence-id"), Some("github-thread-1"));
    assert_eq!(get(&headers, "actions"), Some("http, Done, https://agent/api/actions/done/1"));
}
