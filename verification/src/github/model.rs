//! Plain data records for the GitHub notifications, pull request and timeline
//! payloads.

use vstd::prelude::*;

verus! {

/// One notification thread of the GitHub inbox.
#[derive(Debug, Clone)]
pub struct Thread {
    pub id: String,
    pub unread: bool,
    pub updated_at: String,
    pub reason: Option<String>,
    pub repository: Repository,
    pub subject: Subject,
}

/// The repository a thread belongs to.
#[derive(Debug, Clone)]
pub struct Repository {
    pub full_name: String,
    pub html_url: String,
    pub owner: Option<Owner>,
}

/// The owner of a repository.
#[derive(Debug, Clone)]
pub struct Owner {
    pub avatar_url: Option<String>,
}

/// What a thread is about.
#[derive(Debug, Clone)]
pub struct Subject {
    pub title: Option<String>,
    pub kind: Option<String>,
    pub url: Option<String>,
}

/// The fields of a pull request that enrichment reads.
#[derive(Debug, Clone)]
pub struct PullRequestDetails {
    pub merged: bool,
    pub merged_by: Option<User>,
    pub body: Option<String>,
}

/// The body of an issue or pull request subject.
#[derive(Debug, Clone, Default)]
pub struct SubjectDetails {
    pub body: Option<String>,
}

/// One event of an issue or pull request timeline.
#[derive(Debug, Clone, Default)]
pub struct TimelineEvent {
    pub event: Option<String>,
    pub actor: Option<User>,
    pub user: Option<User>,
    pub author: Option<User>,
    pub committer: Option<User>,
    pub assignee: Option<User>,
    pub review_requester: Option<User>,
    pub requested_reviewer: Option<User>,
    pub requested_team: Option<Team>,
    pub label: Option<Label>,
    pub dismissed_review: Option<DismissedReview>,
    pub body: Option<String>,
    pub message: Option<String>,
    pub commit: Option<Commit>,
    pub state: Option<String>,
    pub created_at: Option<String>,
    pub updated_at: Option<String>,
    pub submitted_at: Option<String>,
}

/// A GitHub account.
#[derive(Debug, Clone)]
pub struct User {
    pub login: String,
    pub kind: Option<String>,
}

/// A GitHub team.
#[derive(Debug, Clone)]
pub struct Team {
    pub slug: String,
}

/// An issue or pull request label.
#[derive(Debug, Clone)]
pub struct Label {
    pub name: String,
}

/// The dismissal of a review.
#[derive(Debug, Clone)]
pub struct DismissedReview {
    pub dismissal_message: Option<String>,
}

/// A commit as it appears in a timeline.
#[derive(Debug, Clone)]
pub struct Commit {
    pub message: Option<String>,
}

/// The latest activity of a timeline, summarised.
#[derive(Debug, Clone)]
pub struct TimelineActivity {
    pub kind: String,
    pub actor: String,
    pub actor_is_bot: bool,
    pub detail: Option<String>,
    pub commit_count: Option<usize>,
}

/// The mathematical content of a [`TimelineActivity`].
pub ghost struct ActivityView {
    pub kind: Seq<char>,
    pub actor: Seq<char>,
    pub actor_is_bot: bool,
    pub detail: Option<Seq<char>>,
    pub commit_count: Option<nat>,
}

/// The view of an optional string.
pub open spec fn opt_view(s: Option<String>) -> Option<Seq<char>> {
    match s {
        Some(x) => Some(x@),
        None => None,
    }
}

impl View for TimelineActivity {
    type V = ActivityView;

    open spec fn view(&self) -> ActivityView {
        ActivityView {
            kind: self.kind@,
            actor: self.actor@,
            actor_is_bot: self.actor_is_bot,
            detail: opt_view(self.detail),
            commit_count: match self.commit_count {
                Some(n) => Some(n as nat),
                None => None,
            },
        }
    }
}

/// One page of the notifications inbox.
#[derive(Debug, Clone)]
pub struct PollResult {
    pub notifications: Vec<Thread>,
    pub last_modified: Option<String>,
    pub poll_interval_secs: Option<u64>,
}

/// A repository that auto-watch considers.
#[derive(Debug, Clone)]
pub struct AutoWatchRepository {
    pub full_name: String,
    pub html_url: String,
    pub archived: bool,
    pub fork: bool,
}

/// The outcome of subscribing to a repository.
#[derive(Debug, Clone)]
pub enum RepositorySubscriptionResult {
    Subscribed,
    Skipped { reason: String },
}


/// The mathematical content of a [`User`].
pub ghost struct UserView {
    pub login: Seq<char>,
    pub kind: Option<Seq<char>>,
}

/// The view of an optional account.
pub open spec fn opt_user_view(u: Option<User>) -> Option<UserView> {
    match u {
        Some(x) => Some(UserView { login: x.login@, kind: opt_view(x.kind) }),
        None => None,
    }
}

/// The mathematical content of a [`TimelineEvent`].
pub ghost struct EventView {
    pub event: Option<Seq<char>>,
    pub actor: Option<UserView>,
    pub user: Option<UserView>,
    pub author: Option<UserView>,
    pub committer: Option<UserView>,
    pub assignee: Option<UserView>,
    pub review_requester: Option<UserView>,
    pub requested_reviewer: Option<UserView>,
    pub requested_team: Option<Seq<char>>,
    pub label: Option<Seq<char>>,
    pub dismissed_review: Option<Option<Seq<char>>>,
    pub body: Option<Seq<char>>,
    pub message: Option<Seq<char>>,
    pub commit: Option<Option<Seq<char>>>,
    pub state: Option<Seq<char>>,
    pub created_at: Option<Seq<char>>,
    pub updated_at: Option<Seq<char>>,
    pub submitted_at: Option<Seq<char>>,
}

/// An event with nothing set.
pub open spec fn empty_event_view() -> EventView {
    EventView {
        event: None,
        actor: None,
        user: None,
        author: None,
        committer: None,
        assignee: None,
        review_requester: None,
        requested_reviewer: None,
        requested_team: None,
        label: None,
        dismissed_review: None,
        body: None,
        message: None,
        commit: None,
        state: None,
        created_at: None,
        updated_at: None,
        submitted_at: None,
    }
}

impl View for TimelineEvent {
    type V = EventView;

    open spec fn view(&self) -> EventView {
        EventView {
            event: opt_view(self.event),
            actor: opt_user_view(self.actor),
            user: opt_user_view(self.user),
            author: opt_user_view(self.author),
            committer: opt_user_view(self.committer),
            assignee: opt_user_view(self.assignee),
            review_requester: opt_user_view(self.review_requester),
            requested_reviewer: opt_user_view(self.requested_reviewer),
            requested_team: match self.requested_team {
                Some(t) => Some(t.slug@),
                None => None,
            },
            label: match self.label {
                Some(l) => Some(l.name@),
                None => None,
            },
            dismissed_review: match self.dismissed_review {
                Some(d) => Some(opt_view(d.dismissal_message)),
                None => None,
            },
            body: opt_view(self.body),
            message: opt_view(self.message),
            commit: match self.commit {
                Some(c) => Some(opt_view(c.message)),
                None => None,
            },
            state: opt_view(self.state),
            created_at: opt_view(self.created_at),
            updated_at: opt_view(self.updated_at),
            submitted_at: opt_view(self.submitted_at),
        }
    }
}

} // verus!
