use github_ntfy_agent::state::{NotificationEntry, State};

// The seen keys are kept as a queue without repeats (see `State::has_seen`).
#[test]
fn marks_seen_in_constant_time_index() {
    let mut state = State::default();

    state.mark_seen(String::from("one"), 3);
    state.mark_seen(String::from("two"), 3);

    assert!(state.has_seen("one"));
    assert!(state.has_seen("two"));
    assert!(!state.has_seen("three"));
}

#[test]
fn evicts_oldest_seen_key() {
    let mut state = State::default();

    state.mark_seen(String::from("one"), 2);
    state.mark_seen(String::from("two"), 2);
    state.mark_seen(String::from("three"), 2);

    assert!(!state.has_seen("one"));
    assert!(state.has_seen("two"));
    assert!(state.has_seen("three"));
}

#[test]
fn merges_new_notification_blocks_newest_first() {
    let mut state = State::default();
    state.remember_notification(
        String::from("github-thread-1"),
        vec![String::from("older"), String::from("oldest")],
        10,
    );

    let merged = state.merge_notification("github-thread-1", "newest");

    assert!(merged.had_existing);
    assert!(merged.inserted_new_block);
    assert_eq!(
        merged.blocks,
        vec![
            String::from("newest"),
            String::from("older"),
            String::from("oldest")
        ]
    );
    assert_eq!(merged.message(), "newest\n\nolder\n\noldest");
}

#[test]
fn skips_duplicate_notification_blocks() {
    let mut state = State::default();
    state.remember_notification(
        String::from("github-thread-1"),
        vec![String::from("same"), String::from("older")],
        10,
    );

    let merged = state.merge_notification("github-thread-1", "same");

    assert!(merged.had_existing);
    assert!(!merged.inserted_new_block);
    assert_eq!(
        merged.blocks,
        vec![String::from("same"), String::from("older")]
    );
}

#[test]
fn marking_a_seen_key_again_changes_nothing() {
    let mut state = State::default();
    state.mark_seen(String::from("one"), 2);
    state.mark_seen(String::from("two"), 2);
    state.mark_seen(String::from("one"), 2);
    assert_eq!(state.seen_keys(), &vec![String::from("one"), String::from("two")]);
}

#[test]
fn zero_capacity_forgets_the_key_at_once() {
    let mut state = State::default();
    state.mark_seen(String::from("one"), 0);
    assert!(!state.has_seen("one"));
}

#[test]
fn merge_without_history_is_a_single_trimmed_block() {
    let state = State::default();
    let merged = state.merge_notification("github-thread-5", "  hello \n");
    assert!(!merged.had_existing);
    assert!(merged.inserted_new_block);
    assert_eq!(merged.blocks, vec![String::from("hello")]);
}

#[test]
fn merge_keeps_at_most_four_blocks() {
    let mut state = State::default();
    state.remember_notification(
        String::from("s"),
        vec![
            String::from("a"),
            String::from("b"),
            String::from("c"),
            String::from("d"),
        ],
        10,
    );
    let merged = state.merge_notification("s", "e");
    assert_eq!(
        merged.blocks,
        vec![
            String::from("e"),
            String::from("a"),
            String::from("b"),
            String::from("c")
        ]
    );
}

#[test]
fn remember_updates_in_place_and_evicts_oldest() {
    let mut state = State::default();
    state.remember_notification(String::from("a"), vec![String::from("1")], 2);
    state.remember_notification(String::from("b"), vec![String::from("2")], 2);
    state.remember_notification(String::from("a"), vec![String::from("3")], 2);
    let ids: Vec<&str> = state
        .notification_entries()
        .iter()
        .map(|e| e.sequence_id.as_str())
        .collect();
    assert_eq!(ids, vec!["a", "b"]);
    assert_eq!(state.notification_entries()[0].messages, vec![String::from("3")]);
    state.remember_notification(String::from("c"), vec![String::from("4")], 2);
    let ids: Vec<&str> = state
        .notification_entries()
        .iter()
        .map(|e| e.sequence_id.as_str())
        .collect();
    assert_eq!(ids, vec!["b", "c"]);
    assert!(!state.merge_notification("a", "x").had_existing);
}

#[test]
fn restore_keeps_first_occurrences_and_four_blocks() {
    let state = State::restore(
        Some(String::from("today")),
        vec![String::from("one"), String::from("two"), String::from("one")],
        vec![
            NotificationEntry {
                sequence_id: String::from("s"),
                messages: vec![
                    String::from("1"),
                    String::from("2"),
                    String::from("3"),
                    String::from("4"),
                    String::from("5"),
                ],
            },
            NotificationEntry {
                sequence_id: String::from("s"),
                messages: vec![String::from("later")],
            },
        ],
        true,
        vec![String::from("octo/a"), String::from("octo/a")],
    );
    assert_eq!(state.last_modified.as_deref(), Some("today"));
    assert_eq!(state.seen_keys(), &vec![String::from("one"), String::from("two")]);
    assert!(state.has_seen("one"));
    assert_eq!(state.notification_entries().len(), 1);
    assert_eq!(state.notification_entries()[0].messages.len(), 4);
    assert!(state.is_auto_watch_initialized());
    assert_eq!(state.auto_watched_repositories(), &vec![String::from("octo/a")]);
}

#[test]
fn auto_watch_state_records_repositories_once() {
    let mut state = State::default();
    assert!(!state.is_auto_watch_initialized());
    state.remember_auto_watched_repository(String::from("octo/a"));
    state.remember_auto_watched_repository(String::from("octo/a"));
    state.mark_auto_watch_initialized();
    assert!(state.is_auto_watch_initialized());
    assert!(state.has_auto_watched_repository("octo/a"));
    assert!(!state.has_auto_watched_repository("octo/b"));
    assert_eq!(state.auto_watched_repositories().len(), 1);
}

#[test]
fn rebuilds_seen_index_when_loading_from_disk() {
    let text = r#"{
  "last_modified": "today",
  "seen": ["one", "two"]
}"#;
    let value: serde_json::Value = serde_json::from_str(text).expect("state parsed");
    let last_modified = value["last_modified"].as_str().map(String::from);
    let seen = value["seen"]
        .as_array()
        .expect("seen keys")
        .iter()
        .map(|key| String::from(key.as_str().expect("key")))
        .collect::<Vec<_>>();

    let state = State::restore(last_modified, seen, Vec::new(), false, Vec::new());

    assert!(state.has_seen("one"));
    assert!(state.has_seen("two"));
    assert_eq!(state.last_modified.as_deref(), Some("today"));
}

#[test]
fn marking_keys_in_turn_keeps_a_bounded_queue() {
    let mut state = State::default();
    for key in ["a", "b", "a", "c"] {
        state.mark_seen(String::from(key), 2);
    }
    assert!(!state.has_seen("a"));
    assert!(state.has_seen("b"));
    assert!(state.has_seen("c"));
    assert_eq!(state.seen_keys(), &vec![String::from("b"), String::from("c")]);
}

#[test]
fn restoring_saved_fields_gives_the_state_back() {
    let mut state = State::default();
    state.last_modified = Some(String::from("today"));
    state.mark_seen(String::from("one"), 10);
    state.mark_seen(String::from("two"), 10);
    state.remember_notification(
        String::from("github-thread-1"),
        vec![String::from("newer"), String::from("older")],
        10,
    );
    state.remember_auto_watched_repository(String::from("alice/app"));
    state.mark_auto_watch_initialized();

    let restored = State::restore(
        state.last_modified.clone(),
        state.seen_keys().iter().cloned().collect(),
        state.notification_entries().iter().cloned().collect(),
        state.is_auto_watch_initialized(),
        state.auto_watched_repositories().clone(),
    );

    assert_eq!(restored.last_modified, state.last_modified);
    assert_eq!(restored.seen_keys(), state.seen_keys());
    assert!(restored.has_seen("one") && restored.has_seen("two"));
    assert_eq!(
        restored.merge_notification("github-thread-1", "newest"),
        state.merge_notification("github-thread-1", "newest")
    );
    assert!(restored.is_auto_watch_initialized());
    assert_eq!(restored.auto_watched_repositories(), state.auto_watched_repositories());
}
