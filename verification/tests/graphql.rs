use github_ntfy_agent::github::graphql::{
    enrichment_outcome, graphql_commit_event, graphql_timeline_event, graphql_timeline_to_rest, Actor,
    ActorKind, Assignee, CommitSignature, GraphQlCommit, GraphQlPullRequest, RequestedReviewer,
    ReviewComment, ReviewState, TimelineItem,
};

fn actor(login: &str) -> Option<Actor> {
    Some(Actor {
        login: String::from(login),
        kind: ActorKind::User,
    })
}

#[test]
fn converts_graphql_review_dismissal_to_timeline_event() {
    let item = TimelineItem::ReviewDismissedEvent {
        actor: actor("chaosvolt"),
        dismissal_message: Some(String::from("one more test soonmish")),
        created_at: String::from("2026-06-09T06:46:03Z"),
    };
    let event = graphql_timeline_event(&item);

    assert_eq!(event.event.as_deref(), Some("review_dismissed"));
    assert_eq!(
        event.actor.as_ref().map(|user| user.login.as_str()),
        Some("chaosvolt")
    );
    assert_eq!(
        event
            .dismissed_review
            .as_ref()
            .and_then(|review| review.dismissal_message.as_deref()),
        Some("one more test soonmish")
    );
}

#[test]
fn converts_graphql_review_comments_to_review_body_fallback() {
    let item = TimelineItem::PullRequestReview {
        state: ReviewState::Commented,
        author: actor("code-owner"),
        body: String::from("   "),
        comments: Some(vec![
            ReviewComment {
                author: actor("code-owner"),
                body: String::from("older inline comment"),
                created_at: String::from("2026-03-30T04:08:52Z"),
            },
            ReviewComment {
                author: actor("code-owner"),
                body: String::from("newer inline comment"),
                created_at: String::from("2026-03-30T04:09:52Z"),
            },
        ]),
        created_at: String::from("2026-03-30T04:10:52Z"),
    };
    let event = graphql_timeline_event(&item);

    assert_eq!(event.event.as_deref(), Some("reviewed"));
    assert_eq!(
        event.actor.as_ref().map(|user| user.login.as_str()),
        Some("code-owner")
    );
    assert_eq!(event.body.as_deref(), Some("newer inline comment"));
}

#[test]
fn converts_graphql_bot_commit_to_timeline_event() {
    let commit = GraphQlCommit {
        message_headline: String::from("style(autofix.ci): automated formatting"),
        authored_date: String::from("2026-03-30T04:08:52Z"),
        author: Some(CommitSignature {
            name: Some(String::from("autofix-ci[bot]")),
            user_login: Some(String::from("autofix-ci[bot]")),
        }),
        committer: None,
    };
    let event = graphql_commit_event(&commit);

    assert_eq!(event.event.as_deref(), Some("committed"));
    assert_eq!(
        event.author.as_ref().map(|user| user.login.as_str()),
        Some("autofix-ci[bot]")
    );
    assert_eq!(
        event.author.as_ref().and_then(|user| user.kind.as_deref()),
        Some("Bot")
    );
    assert_eq!(
        event.message.as_deref(),
        Some("style(autofix.ci): automated formatting")
    );
}

#[test]
fn review_without_author_takes_the_comment_author() {
    let item = TimelineItem::PullRequestReview {
        state: ReviewState::Approved,
        author: None,
        body: String::from("ok"),
        comments: Some(vec![
            ReviewComment {
                author: actor("late"),
                body: String::from("b"),
                created_at: String::from("2026-01-02"),
            },
            ReviewComment {
                author: actor("blank"),
                body: String::from("  "),
                created_at: String::from("2026-01-03"),
            },
            ReviewComment {
                author: actor("tie"),
                body: String::from("c"),
                created_at: String::from("2026-01-02"),
            },
        ]),
        created_at: String::from("2026-01-04"),
    };
    let event = graphql_timeline_event(&item);
    assert_eq!(event.actor.as_ref().map(|u| u.login.as_str()), Some("tie"));
    assert_eq!(event.actor.as_ref().and_then(|u| u.kind.as_deref()), Some("User"));
    assert_eq!(event.body.as_deref(), Some("ok"));
    assert_eq!(event.state.as_deref(), Some("APPROVED"));
    assert_eq!(event.submitted_at.as_deref(), Some("2026-01-04"));
}

#[test]
fn review_requests_name_users_or_teams() {
    let item = TimelineItem::ReviewRequestedEvent {
        actor: actor("carol"),
        requested_reviewer: Some(RequestedReviewer::Team {
            slug: String::from("backend"),
        }),
        created_at: String::from("t"),
    };
    let event = graphql_timeline_event(&item);
    assert_eq!(event.review_requester.as_ref().map(|u| u.login.as_str()), Some("carol"));
    assert!(event.requested_reviewer.is_none());
    assert_eq!(event.requested_team.as_ref().map(|t| t.slug.as_str()), Some("backend"));

    let item = TimelineItem::ReviewRequestRemovedEvent {
        actor: None,
        requested_reviewer: Some(RequestedReviewer::Bot {
            login: String::from("helper"),
        }),
        created_at: String::from("t"),
    };
    let event = graphql_timeline_event(&item);
    assert_eq!(event.event.as_deref(), Some("review_request_removed"));
    assert_eq!(event.requested_reviewer.as_ref().and_then(|u| u.kind.as_deref()), Some("Bot"));
}

#[test]
fn assignments_and_labels() {
    let item = TimelineItem::AssignedEvent {
        actor: actor("a"),
        assignee: Some(Assignee::Organization {
            login: String::from("org"),
        }),
        created_at: String::from("t"),
    };
    let event = graphql_timeline_event(&item);
    assert_eq!(event.assignee.as_ref().and_then(|u| u.kind.as_deref()), Some("Organization"));
    let item = TimelineItem::LabeledEvent {
        actor: actor("a"),
        label: Some(String::from("bug")),
        created_at: String::from("t"),
    };
    let event = graphql_timeline_event(&item);
    assert_eq!(event.label.as_ref().map(|l| l.name.as_str()), Some("bug"));
    let item = TimelineItem::MergedEvent {
        actor: actor("m"),
        created_at: String::from("t"),
    };
    let event = graphql_timeline_event(&item);
    assert_eq!(event.event.as_deref(), Some("merged"));
    assert_eq!(event.created_at.as_deref(), Some("t"));
}

#[test]
fn commit_signature_falls_back_to_name_and_committer() {
    let commit = GraphQlCommit {
        message_headline: String::from("m"),
        authored_date: String::from("d"),
        author: Some(CommitSignature {
            name: None,
            user_login: None,
        }),
        committer: Some(CommitSignature {
            name: Some(String::from("Jane")),
            user_login: None,
        }),
    };
    let event = graphql_commit_event(&commit);
    assert_eq!(event.author.as_ref().map(|u| u.login.as_str()), Some("Jane"));
    assert!(event.author.as_ref().unwrap().kind.is_none());
}

fn pull_request() -> GraphQlPullRequest {
    GraphQlPullRequest {
        merged: true,
        merged_by: Some(Actor {
            login: String::from("bot"),
            kind: ActorKind::Bot,
        }),
        body: String::from("body"),
        timeline_items: Some(vec![TimelineItem::ClosedEvent {
            actor: actor("x"),
            created_at: String::from("t1"),
        }]),
        commits: Some(vec![GraphQlCommit {
            message_headline: String::from("m"),
            authored_date: String::from("t0"),
            author: None,
            committer: None,
        }]),
    }
}

#[test]
fn pull_request_timeline_lists_items_then_commits() {
    let events = graphql_timeline_to_rest(&pull_request());
    let kinds: Vec<_> = events.iter().map(|e| e.event.clone().unwrap()).collect();
    assert_eq!(kinds, vec![String::from("closed"), String::from("committed")]);
}

#[test]
fn enrichment_outcomes() {
    let errors = vec![String::from("a"), String::from("b")];
    assert_eq!(
        enrichment_outcome(&errors, None).unwrap_err(),
        "pull request enrichment query failed: a; b"
    );
    assert_eq!(
        enrichment_outcome(&Vec::new(), None).unwrap_err(),
        "pull request enrichment returned no pull request"
    );
    let pr = pull_request();
    let (details, timeline) = enrichment_outcome(&Vec::new(), Some(&pr)).expect("ok");
    assert!(details.merged);
    assert_eq!(details.merged_by.as_ref().and_then(|u| u.kind.as_deref()), Some("Bot"));
    assert_eq!(details.body.as_deref(), Some("body"));
    assert_eq!(timeline.len(), 2);
}
