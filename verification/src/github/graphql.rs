//! The pull request enrichment query's answer, and how it becomes
//! the timeline events and pull request details the rest of the library reads.

use vstd::prelude::*;

use crate::github::model::{
    empty_event_view, opt_user_view, opt_view, Commit, DismissedReview, EventView, Label,
    PullRequestDetails, Team, TimelineEvent, User, UserView,
};
use crate::text::{chars_lt, chars_lt_exec, chars_of, copy_opt, copy_str, ends_with, has_suffix, is_blank, join, joined, trim, views};

verus! {

/// The GraphQL type of an account.
#[derive(Debug, Clone, Copy, PartialEq, Eq)]
pub enum ActorKind {
    Bot,
    EnterpriseUserAccount,
    Mannequin,
    Organization,
    User,
}

/// An account as the query returns it.
#[derive(Debug, Clone)]
pub struct Actor {
    pub login: String,
    pub kind: ActorKind,
}

/// An inline comment of a review.
#[derive(Debug, Clone)]
pub struct ReviewComment {
    pub author: Option<Actor>,
    pub body: String,
    pub created_at: String,
}

/// The state of a review.
#[derive(Debug, Clone)]
pub enum ReviewState {
    Approved,
    ChangesRequested,
    Commented,
    Dismissed,
    Pending,
    Other(String),
}

/// Whom a review request names.
#[derive(Debug, Clone)]
pub enum RequestedReviewer {
    User { login: String },
    Bot { login: String },
    Team { slug: String },
}

/// Whom an assignment names.
#[derive(Debug, Clone)]
pub enum Assignee {
    Bot { login: String },
    Mannequin { login: String },
    Organization { login: String },
    User { login: String },
}

/// One item of a pull request timeline.
#[derive(Debug, Clone)]
pub enum TimelineItem {
    PullRequestReview {
        author: Option<Actor>,
        body: String,
        state: ReviewState,
        comments: Option<Vec<ReviewComment>>,
        created_at: String,
    },
    IssueComment { author: Option<Actor>, body: String, created_at: String },
    ReviewRequestedEvent {
        actor: Option<Actor>,
        requested_reviewer: Option<RequestedReviewer>,
        created_at: String,
    },
    ReviewRequestRemovedEvent {
        actor: Option<Actor>,
        requested_reviewer: Option<RequestedReviewer>,
        created_at: String,
    },
    ReviewDismissedEvent { actor: Option<Actor>, dismissal_message: Option<String>, created_at: String },
    MergedEvent { actor: Option<Actor>, created_at: String },
    ClosedEvent { actor: Option<Actor>, created_at: String },
    ReopenedEvent { actor: Option<Actor>, created_at: String },
    ReadyForReviewEvent { actor: Option<Actor>, created_at: String },
    ConvertToDraftEvent { actor: Option<Actor>, created_at: String },
    LabeledEvent { actor: Option<Actor>, label: Option<String>, created_at: String },
    UnlabeledEvent { actor: Option<Actor>, label: Option<String>, created_at: String },
    AssignedEvent { actor: Option<Actor>, assignee: Option<Assignee>, created_at: String },
    UnassignedEvent { actor: Option<Actor>, assignee: Option<Assignee>, created_at: String },
}

/// The author or committer of a commit: a name and, when linked, an account.
#[derive(Debug, Clone)]
pub struct CommitSignature {
    pub name: Option<String>,
    pub user_login: Option<String>,
}

/// A commit of a pull request.
#[derive(Debug, Clone)]
pub struct GraphQlCommit {
    pub message_headline: String,
    pub authored_date: String,
    pub author: Option<CommitSignature>,
    pub committer: Option<CommitSignature>,
}

/// The pull request the query returns.
#[derive(Debug, Clone)]
pub struct GraphQlPullRequest {
    pub merged: bool,
    pub merged_by: Option<Actor>,
    pub body: String,
    pub timeline_items: Option<Vec<TimelineItem>>,
    pub commits: Option<Vec<GraphQlCommit>>,
}

/// The name of an account type.
pub open spec fn actor_kind_name(k: ActorKind) -> Seq<char> {
    match k {
        ActorKind::Bot => "Bot"@,
        ActorKind::EnterpriseUserAccount => "EnterpriseUserAccount"@,
        ActorKind::Mannequin => "Mannequin"@,
        ActorKind::Organization => "Organization"@,
        ActorKind::User => "User"@,
    }
}

/// An account, typed by its GraphQL type.
pub open spec fn actor_user(a: Actor) -> UserView {
    UserView { login: a.login@, kind: Some(actor_kind_name(a.kind)) }
}

/// An optional account, typed by its GraphQL type.
pub open spec fn opt_actor_user(a: Option<Actor>) -> Option<UserView> {
    match a {
        Some(x) => Some(actor_user(x)),
        None => None,
    }
}

/// The text of a review state.
pub open spec fn review_state_text(s: ReviewState) -> Seq<char> {
    match s {
        ReviewState::Approved => "APPROVED"@,
        ReviewState::ChangesRequested => "CHANGES_REQUESTED"@,
        ReviewState::Commented => "COMMENTED"@,
        ReviewState::Dismissed => "DISMISSED"@,
        ReviewState::Pending => "PENDING"@,
        ReviewState::Other(x) => x@,
    }
}

/// The newest non-blank inline comment of a review; of comments written at
/// the same time, the later one.
pub open spec fn latest_comment(cs: Seq<ReviewComment>) -> Option<ReviewComment>
    decreases cs.len(),
{
    if cs.len() == 0 {
        None
    } else {
        let best = latest_comment(cs.drop_last());
        let c = cs.last();
        if is_blank(c.body@) {
            best
        } else {
            match best {
                None => Some(c),
                Some(b) => if chars_lt(c.created_at@, b.created_at@) {
                    Some(b)
                } else {
                    Some(c)
                },
            }
        }
    }
}

/// The comments of a review, none when the query gave none.
pub open spec fn comment_seq(cs: Option<Vec<ReviewComment>>) -> Seq<ReviewComment> {
    match cs {
        Some(v) => v@,
        None => Seq::empty(),
    }
}

/// The text of a review: its body unless blank, else its newest comment's.
pub open spec fn review_detail_text(body: Seq<char>, fallback: Option<ReviewComment>) -> Option<Seq<char>> {
    if !is_blank(body) {
        Some(body)
    } else {
        match fallback {
            Some(c) => Some(c.body@),
            None => None,
        }
    }
}

/// The account a review request names, unless it names a team.
pub open spec fn requested_user(r: Option<RequestedReviewer>) -> Option<UserView> {
    match r {
        Some(RequestedReviewer::User { login }) => Some(UserView { login: login@, kind: None }),
        Some(RequestedReviewer::Bot { login }) => Some(UserView { login: login@, kind: Some("Bot"@) }),
        _ => None,
    }
}

/// The team a review request names, if it names one.
pub open spec fn requested_team_slug(r: Option<RequestedReviewer>) -> Option<Seq<char>> {
    match r {
        Some(RequestedReviewer::Team { slug }) => Some(slug@),
        _ => None,
    }
}

/// The account an assignment names, typed by its kind.
pub open spec fn assignee_user(a: Option<Assignee>) -> Option<UserView> {
    match a {
        Some(Assignee::Bot { login }) => Some(UserView { login: login@, kind: Some("Bot"@) }),
        Some(Assignee::Mannequin { login }) => Some(UserView { login: login@, kind: Some("Mannequin"@) }),
        Some(Assignee::Organization { login }) => Some(UserView { login: login@, kind: Some("Organization"@) }),
        Some(Assignee::User { login }) => Some(UserView { login: login@, kind: Some("User"@) }),
        None => None,
    }
}

/// An event of `kind` by `actor` at `created_at`, with nothing else set.
pub open spec fn simple_event(kind: Seq<char>, actor: Option<Actor>, created_at: Seq<char>) -> EventView {
    EventView { event: Some(kind), actor: opt_actor_user(actor), created_at: Some(created_at), ..empty_event_view() }
}

/// The timeline event a GraphQL timeline item stands for.
pub open spec fn item_event(item: TimelineItem) -> EventView {
    match item {
        TimelineItem::PullRequestReview { author, body, state, comments, created_at } => {
            let latest = latest_comment(comment_seq(comments));
            EventView {
                event: Some("reviewed"@),
                actor: if author is Some {
                    opt_actor_user(author)
                } else {
                    match latest {
                        Some(c) => opt_actor_user(c.author),
                        None => None,
                    }
                },
                body: review_detail_text(body@, latest),
                state: Some(review_state_text(state)),
                created_at: Some(created_at@),
                submitted_at: Some(created_at@),
                ..empty_event_view()
            }
        },
        TimelineItem::IssueComment { author, body, created_at } => EventView {
            event: Some("commented"@),
            actor: opt_actor_user(author),
            body: Some(body@),
            created_at: Some(created_at@),
            ..empty_event_view()
        },
        TimelineItem::ReviewRequestedEvent { actor, requested_reviewer, created_at } => EventView {
            event: Some("review_requested"@),
            actor: opt_actor_user(actor),
            review_requester: opt_actor_user(actor),
            requested_reviewer: requested_user(requested_reviewer),
            requested_team: requested_team_slug(requested_reviewer),
            created_at: Some(created_at@),
            ..empty_event_view()
        },
        TimelineItem::ReviewRequestRemovedEvent { actor, requested_reviewer, created_at } => EventView {
            event: Some("review_request_removed"@),
            actor: opt_actor_user(actor),
            review_requester: opt_actor_user(actor),
            requested_reviewer: requested_user(requested_reviewer),
            requested_team: requested_team_slug(requested_reviewer),
            created_at: Some(created_at@),
            ..empty_event_view()
        },
        TimelineItem::ReviewDismissedEvent { actor, dismissal_message, created_at } => EventView {
            event: Some("review_dismissed"@),
            actor: opt_actor_user(actor),
            dismissed_review: Some(opt_view(dismissal_message)),
            created_at: Some(created_at@),
            ..empty_event_view()
        },
        TimelineItem::MergedEvent { actor, created_at } => simple_event("merged"@, actor, created_at@),
        TimelineItem::ClosedEvent { actor, created_at } => simple_event("closed"@, actor, created_at@),
        TimelineItem::ReopenedEvent { actor, created_at } => simple_event("reopened"@, actor, created_at@),
        TimelineItem::ReadyForReviewEvent { actor, created_at } => simple_event("ready_for_review"@, actor, created_at@),
        TimelineItem::ConvertToDraftEvent { actor, created_at } => simple_event("convert_to_draft"@, actor, created_at@),
        TimelineItem::LabeledEvent { actor, label, created_at } => EventView {
            event: Some("labeled"@),
            actor: opt_actor_user(actor),
            label: opt_view(label),
            created_at: Some(created_at@),
            ..empty_event_view()
        },
        TimelineItem::UnlabeledEvent { actor, label, created_at } => EventView {
            event: Some("unlabeled"@),
            actor: opt_actor_user(actor),
            label: opt_view(label),
            created_at: Some(created_at@),
            ..empty_event_view()
        },
        TimelineItem::AssignedEvent { actor, assignee, created_at } => EventView {
            event: Some("assigned"@),
            actor: opt_actor_user(actor),
            assignee: assignee_user(assignee),
            created_at: Some(created_at@),
            ..empty_event_view()
        },
        TimelineItem::UnassignedEvent { actor, assignee, created_at } => EventView {
            event: Some("unassigned"@),
            actor: opt_actor_user(actor),
            assignee: assignee_user(assignee),
            created_at: Some(created_at@),
            ..empty_event_view()
        },
    }
}

/// The account of a commit signature: the linked login, else the name; typed
/// `Bot` when it ends in `[bot]`.
pub open spec fn signature_user(s: CommitSignature) -> Option<UserView> {
    let login = if s.user_login is Some {
        opt_view(s.user_login)
    } else {
        opt_view(s.name)
    };
    match login {
        Some(l) => Some(UserView { login: l, kind: if has_suffix(l, "[bot]"@) { Some("Bot"@) } else { None } }),
        None => None,
    }
}

/// The account a commit is attributed to: its author's, else its committer's.
pub open spec fn commit_actor(c: GraphQlCommit) -> Option<UserView> {
    let from_author = match c.author {
        Some(a) => signature_user(a),
        None => None,
    };
    if from_author is Some {
        from_author
    } else {
        match c.committer {
            Some(m) => signature_user(m),
            None => None,
        }
    }
}

/// The timeline event a commit stands for.
pub open spec fn commit_event(c: GraphQlCommit) -> EventView {
    EventView {
        event: Some("committed"@),
        author: commit_actor(c),
        message: Some(c.message_headline@),
        created_at: Some(c.authored_date@),
        ..empty_event_view()
    }
}

/// The items of an optional list.
pub open spec fn items_of<A>(v: Option<Vec<A>>) -> Seq<A> {
    match v {
        Some(x) => x@,
        None => Seq::empty(),
    }
}

/// The views of a sequence of events.
pub open spec fn event_views(v: Seq<TimelineEvent>) -> Seq<EventView> {
    v.map_values(|e: TimelineEvent| e@)
}

/// The timeline of a pull request: its timeline items, then its commits.
pub open spec fn pull_request_timeline(pr: GraphQlPullRequest) -> Seq<EventView> {
    items_of(pr.timeline_items).map_values(|i: TimelineItem| item_event(i)) + items_of(pr.commits).map_values(
        |c: GraphQlCommit| commit_event(c),
    )
}

fn actor_kind_text(k: ActorKind) -> (r: String)
    ensures
        r@ == actor_kind_name(k),
{
    match k {
        ActorKind::Bot => String::from_str("Bot"),
        ActorKind::EnterpriseUserAccount => String::from_str("EnterpriseUserAccount"),
        ActorKind::Mannequin => String::from_str("Mannequin"),
        ActorKind::Organization => String::from_str("Organization"),
        ActorKind::User => String::from_str("User"),
    }
}

/// An account typed by its GraphQL type.
pub fn graphql_actor_to_user(actor: &Actor) -> (r: User)
    ensures
        opt_user_view(Some(r)) == Some(actor_user(*actor)),
{
    User { login: actor.login.clone(), kind: Some(actor_kind_text(actor.kind)) }
}

fn opt_actor_to_user(actor: &Option<Actor>) -> (r: Option<User>)
    ensures
        opt_user_view(r) == opt_actor_user(*actor),
{
    match actor {
        Some(a) => Some(graphql_actor_to_user(a)),
        None => None,
    }
}

/// The text of a review state.
pub fn review_state(state: &ReviewState) -> (r: String)
    ensures
        r@ == review_state_text(*state),
{
    match state {
        ReviewState::Approved => String::from_str("APPROVED"),
        ReviewState::ChangesRequested => String::from_str("CHANGES_REQUESTED"),
        ReviewState::Commented => String::from_str("COMMENTED"),
        ReviewState::Dismissed => String::from_str("DISMISSED"),
        ReviewState::Pending => String::from_str("PENDING"),
        ReviewState::Other(x) => x.clone(),
    }
}

/// The newest non-blank inline comment of a review, by position.
fn latest_review_comment(comments: &Option<Vec<ReviewComment>>) -> (r: Option<usize>)
    ensures
        match r {
            Some(i) => i < comment_seq(*comments).len() && latest_comment(comment_seq(*comments)) == Some(
                comment_seq(*comments)[i as int],
            ),
            None => latest_comment(comment_seq(*comments)) is None,
        },
{
    let cs = match comments {
        Some(v) => v,
        None => {
            return None;
        },
    };
    let mut best: Option<usize> = None;
    let mut best_time: Vec<char> = Vec::new();
    let mut k: usize = 0;
    proof {
        assert(cs@.take(0) =~= Seq::<ReviewComment>::empty());
    }
    while k < cs.len()
        invariant
            k <= cs@.len(),
            cs@ == comment_seq(*comments),
            match best {
                Some(i) => i < k && latest_comment(cs@.take(k as int)) == Some(cs@[i as int]) && best_time@
                    == cs@[i as int].created_at@,
                None => latest_comment(cs@.take(k as int)) is None,
            },
        decreases cs.len() - k,
    {
        proof {
            assert(cs@.take(k + 1).drop_last() =~= cs@.take(k as int));
            assert(cs@.take(k + 1).last() == cs@[k as int]);
        }
        let c = &cs[k];
        if !trim(c.body.as_str()).is_empty() {
            let t = chars_of(c.created_at.as_str());
            match best {
                None => {
                    best = Some(k);
                    best_time = t;
                },
                Some(_) => {
                    if !chars_lt_exec(&t, &best_time) {
                        best = Some(k);
                        best_time = t;
                    }
                },
            }
        }
        k += 1;
    }
    proof {
        assert(cs@.take(cs@.len() as int) =~= cs@);
    }
    best
}

/// The text of a review: its body unless blank, else the given comment's.
fn review_detail(body: &str, fallback: Option<&ReviewComment>) -> (r: Option<String>)
    ensures
        opt_view(r) == review_detail_text(
            body@,
            match fallback {
                Some(c) => Some(*c),
                None => None,
            },
        ),
{
    if !trim(body).is_empty() {
        Some(copy_str(body))
    } else {
        match fallback {
            Some(c) => Some(c.body.clone()),
            None => None,
        }
    }
}

fn requested_reviewer_user(r: &Option<RequestedReviewer>) -> (u: Option<User>)
    ensures
        opt_user_view(u) == requested_user(*r),
{
    match r {
        Some(RequestedReviewer::User { login }) => Some(User { login: login.clone(), kind: None }),
        Some(RequestedReviewer::Bot { login }) => Some(User { login: login.clone(), kind: Some(String::from_str("Bot")) }),
        _ => None,
    }
}

fn requested_reviewer_team(r: &Option<RequestedReviewer>) -> (t: Option<Team>)
    ensures
        match t {
            Some(x) => requested_team_slug(*r) == Some(x.slug@),
            None => requested_team_slug(*r) is None,
        },
{
    match r {
        Some(RequestedReviewer::Team { slug }) => Some(Team { slug: slug.clone() }),
        _ => None,
    }
}

fn assignee_to_user(a: &Option<Assignee>) -> (u: Option<User>)
    ensures
        opt_user_view(u) == assignee_user(*a),
{
    match a {
        Some(Assignee::Bot { login }) => Some(User { login: login.clone(), kind: Some(String::from_str("Bot")) }),
        Some(Assignee::Mannequin { login }) => Some(User { login: login.clone(), kind: Some(String::from_str("Mannequin")) }),
        Some(Assignee::Organization { login }) => Some(
            User { login: login.clone(), kind: Some(String::from_str("Organization")) },
        ),
        Some(Assignee::User { login }) => Some(User { login: login.clone(), kind: Some(String::from_str("User")) }),
        None => None,
    }
}

fn label_of(label: &Option<String>) -> (r: Option<Label>)
    ensures
        match r {
            Some(l) => opt_view(*label) == Some(l.name@),
            None => label is None,
        },
{
    match label {
        Some(n) => Some(Label { name: n.clone() }),
        None => None,
    }
}

fn empty_event() -> (e: TimelineEvent)
    ensures
        e@ == empty_event_view(),
{
    TimelineEvent {
        event: None,
        actor: None,
        user: None,
        author: None,
        committer: None,
        assignee: None,
        review_requester: None,
        requested_reviewer: None,
        requested_team: None,
        label: None,
        dismissed_review: None,
        body: None,
        message: None,
        commit: None,
        state: None,
        created_at: None,
        updated_at: None,
        submitted_at: None,
    }
}

/// An event of `kind` by `actor` at `created_at`, with nothing else set.
pub fn simple_timeline_event(kind: &str, actor: Option<User>, created_at: Option<String>) -> (e: TimelineEvent)
    ensures
        e@ == (EventView {
            event: Some(kind@),
            actor: opt_user_view(actor),
            created_at: opt_view(created_at),
            ..empty_event_view()
        }),
{
    let mut e = empty_event();
    e.event = Some(copy_str(kind));
    e.actor = actor;
    e.created_at = created_at;
    e
}

/// The timeline event a GraphQL timeline item stands for.
pub fn graphql_timeline_event(item: &TimelineItem) -> (e: TimelineEvent)
    ensures
        e@ == item_event(*item),
{
    let mut e = empty_event();
    match item {
        TimelineItem::PullRequestReview { author, body, state, comments, created_at } => {
            let latest = latest_review_comment(comments);
            let latest_ref: Option<&ReviewComment> = match latest {
                Some(i) => Some(&comments.as_ref().unwrap()[i]),
                None => None,
            };
            e.event = Some(String::from_str("reviewed"));
            e.actor = if author.is_some() {
                opt_actor_to_user(author)
            } else {
                match latest_ref {
                    Some(c) => opt_actor_to_user(&c.author),
                    None => None,
                }
            };
            e.body = review_detail(body.as_str(), latest_ref);
            e.state = Some(review_state(state));
            e.created_at = Some(created_at.clone());
            e.submitted_at = Some(created_at.clone());
        },
        TimelineItem::IssueComment { author, body, created_at } => {
            e.event = Some(String::from_str("commented"));
            e.actor = opt_actor_to_user(author);
            e.body = Some(body.clone());
            e.created_at = Some(created_at.clone());
        },
        TimelineItem::ReviewRequestedEvent { actor, requested_reviewer, created_at } => {
            e.event = Some(String::from_str("review_requested"));
            e.actor = opt_actor_to_user(actor);
            e.review_requester = opt_actor_to_user(actor);
            e.requested_reviewer = requested_reviewer_user(requested_reviewer);
            e.requested_team = requested_reviewer_team(requested_reviewer);
            e.created_at = Some(created_at.clone());
        },
        TimelineItem::ReviewRequestRemovedEvent { actor, requested_reviewer, created_at } => {
            e.event = Some(String::from_str("review_request_removed"));
            e.actor = opt_actor_to_user(actor);
            e.review_requester = opt_actor_to_user(actor);
            e.requested_reviewer = requested_reviewer_user(requested_reviewer);
            e.requested_team = requested_reviewer_team(requested_reviewer);
            e.created_at = Some(created_at.clone());
        },
        TimelineItem::ReviewDismissedEvent { actor, dismissal_message, created_at } => {
            e.event = Some(String::from_str("review_dismissed"));
            e.actor = opt_actor_to_user(actor);
            e.dismissed_review = Some(DismissedReview { dismissal_message: copy_opt(dismissal_message) });
            e.created_at = Some(created_at.clone());
        },
        TimelineItem::MergedEvent { actor, created_at } => {
            return simple_timeline_event("merged", opt_actor_to_user(actor), Some(created_at.clone()));
        },
        TimelineItem::ClosedEvent { actor, created_at } => {
            return simple_timeline_event("closed", opt_actor_to_user(actor), Some(created_at.clone()));
        },
        TimelineItem::ReopenedEvent { actor, created_at } => {
            return simple_timeline_event("reopened", opt_actor_to_user(actor), Some(created_at.clone()));
        },
        TimelineItem::ReadyForReviewEvent { actor, created_at } => {
            return simple_timeline_event("ready_for_review", opt_actor_to_user(actor), Some(created_at.clone()));
        },
        TimelineItem::ConvertToDraftEvent { actor, created_at } => {
            return simple_timeline_event("convert_to_draft", opt_actor_to_user(actor), Some(created_at.clone()));
        },
        TimelineItem::LabeledEvent { actor, label, created_at } => {
            e.event = Some(String::from_str("labeled"));
            e.actor = opt_actor_to_user(actor);
            e.label = label_of(label);
            e.created_at = Some(created_at.clone());
        },
        TimelineItem::UnlabeledEvent { actor, label, created_at } => {
            e.event = Some(String::from_str("unlabeled"));
            e.actor = opt_actor_to_user(actor);
            e.label = label_of(label);
            e.created_at = Some(created_at.clone());
        },
        TimelineItem::AssignedEvent { actor, assignee, created_at } => {
            e.event = Some(String::from_str("assigned"));
            e.actor = opt_actor_to_user(actor);
            e.assignee = assignee_to_user(assignee);
            e.created_at = Some(created_at.clone());
        },
        TimelineItem::UnassignedEvent { actor, assignee, created_at } => {
            e.event = Some(String::from_str("unassigned"));
            e.actor = opt_actor_to_user(actor);
            e.assignee = assignee_to_user(assignee);
            e.created_at = Some(created_at.clone());
        },
    }
    e
}

/// The account of a commit signature (see [`signature_user`]).
pub fn commit_signature_to_user(signature: &CommitSignature) -> (r: Option<User>)
    ensures
        opt_user_view(r) == signature_user(*signature),
{
    let login = match &signature.user_login {
        Some(l) => l.clone(),
        None => match &signature.name {
            Some(n) => n.clone(),
            None => {
                return None;
            },
        },
    };
    let kind = if ends_with(login.as_str(), "[bot]") {
        Some(String::from_str("Bot"))
    } else {
        None
    };
    Some(User { login, kind })
}

fn opt_signature_user(s: &Option<CommitSignature>) -> (r: Option<User>)
    ensures
        opt_user_view(r) == match *s {
            Some(x) => signature_user(x),
            None => None,
        },
{
    match s {
        Some(x) => commit_signature_to_user(x),
        None => None,
    }
}

/// The timeline event a commit stands for.
pub fn graphql_commit_event(commit: &GraphQlCommit) -> (e: TimelineEvent)
    ensures
        e@ == commit_event(*commit),
{
    let from_author = opt_signature_user(&commit.author);
    let actor = if from_author.is_some() {
        from_author
    } else {
        opt_signature_user(&commit.committer)
    };
    let mut e = empty_event();
    e.event = Some(String::from_str("committed"));
    e.author = actor;
    e.message = Some(commit.message_headline.clone());
    e.created_at = Some(commit.authored_date.clone());
    e
}

/// The timeline of a pull request: its timeline items, then its commits.
pub fn graphql_timeline_to_rest(pull_request: &GraphQlPullRequest) -> (r: Vec<TimelineEvent>)
    ensures
        event_views(r@) == pull_request_timeline(*pull_request),
{
    let mut r: Vec<TimelineEvent> = Vec::new();
    let ghost items = items_of(pull_request.timeline_items).map_values(|i: TimelineItem| item_event(i));
    let ghost commits = items_of(pull_request.commits).map_values(|c: GraphQlCommit| commit_event(c));
    match &pull_request.timeline_items {
        Some(v) => {
            let mut k: usize = 0;
            while k < v.len()
                invariant
                    k <= v@.len(),
                    items == v@.map_values(|i: TimelineItem| item_event(i)),
                    event_views(r@) == items.take(k as int),
                decreases v.len() - k,
            {
                let ghost before = r@;
                r.push(graphql_timeline_event(&v[k]));
                proof {
                    assert(event_views(r@) =~= event_views(before).push(item_event(v@[k as int])));
                    assert(items.take(k + 1) =~= items.take(k as int).push(item_event(v@[k as int])));
                }
                k += 1;
            }
            proof {
                assert(items.take(v@.len() as int) =~= items);
            }
        },
        None => {
            proof {
                assert(event_views(r@) =~= items);
            }
        },
    }
    match &pull_request.commits {
        Some(v) => {
            let mut k: usize = 0;
            proof {
                assert(event_views(r@) =~= items + commits.take(0));
            }
            while k < v.len()
                invariant
                    k <= v@.len(),
                    commits == v@.map_values(|c: GraphQlCommit| commit_event(c)),
                    event_views(r@) == items + commits.take(k as int),
                decreases v.len() - k,
            {
                let ghost before = r@;
                r.push(graphql_commit_event(&v[k]));
                proof {
                    assert(event_views(r@) =~= event_views(before).push(commit_event(v@[k as int])));
                    assert(commits.take(k + 1) =~= commits.take(k as int).push(commit_event(v@[k as int])));
                    assert(items + commits.take(k + 1) =~= (items + commits.take(k as int)).push(commit_event(v@[k as int])));
                }
                k += 1;
            }
            proof {
                assert(commits.take(v@.len() as int) =~= commits);
            }
        },
        None => {
            proof {
                assert(event_views(r@) =~= items + commits);
            }
        },
    }
    r
}

/// The pull request details the query gives: whether it is merged, who
/// merged it, and its body.
pub fn graphql_pull_request_details(pull_request: &GraphQlPullRequest) -> (r: PullRequestDetails)
    ensures
        r.merged == pull_request.merged,
        opt_user_view(r.merged_by) == opt_actor_user(pull_request.merged_by),
        opt_view(r.body) == Some(pull_request.body@),
{
    PullRequestDetails {
        merged: pull_request.merged,
        merged_by: opt_actor_to_user(&pull_request.merged_by),
        body: Some(pull_request.body.clone()),
    }
}

/// The outcome of the enrichment query: a failure naming the query errors
/// when there are any (joined by `; `), a failure when no pull request came
/// back, else the pull request's details and timeline.
pub fn enrichment_outcome(errors: &Vec<String>, pull_request: Option<&GraphQlPullRequest>) -> (r: Result<
    (PullRequestDetails, Vec<TimelineEvent>),
    String,
>)
    ensures
        errors@.len() > 0 ==> (r matches Err(m) && m@ == "pull request enrichment query failed: "@ + joined(
            views(errors@),
            "; "@,
        )),
        errors@.len() == 0 && pull_request is None ==> (r matches Err(m) && m@
            == "pull request enrichment returned no pull request"@),
        errors@.len() == 0 && pull_request is Some ==> (r matches Ok((details, timeline)) && details.merged
            == pull_request->0.merged && opt_user_view(details.merged_by) == opt_actor_user(pull_request->0.merged_by)
            && opt_view(details.body) == Some(pull_request->0.body@) && event_views(timeline@)
            == pull_request_timeline(*pull_request->0)),
{
    if errors.len() > 0 {
        let mut m = String::from_str("pull request enrichment query failed: ");
        m.append(join(errors, "; ").as_str());
        return Err(m);
    }
    match pull_request {
        Some(p) => Ok((graphql_pull_request_details(p), graphql_timeline_to_rest(p))),
        None => Err(String::from_str("pull request enrichment returned no pull request")),
    }
}

/// Each GraphQL timeline item becomes the GitHub timeline event of its own
/// kind (a `ReopenedEvent` a `reopened` event, a `ClosedEvent` a `closed`
/// one, and so on), attributed to the item's actor (a review to its author,
/// when it names one) at the item's time.
pub proof fn law_items_keep_their_kind(item: TimelineItem)
    ensures
        item is PullRequestReview ==> item_event(item).event == Some("reviewed"@),
        item is IssueComment ==> item_event(item).event == Some("commented"@),
        item is ReviewRequestedEvent ==> item_event(item).event == Some("review_requested"@),
        item is ReviewRequestRemovedEvent ==> item_event(item).event == Some("review_request_removed"@),
        item is ReviewDismissedEvent ==> item_event(item).event == Some("review_dismissed"@),
        item is MergedEvent ==> item_event(item).event == Some("merged"@),
        item is ClosedEvent ==> item_event(item).event == Some("closed"@),
        item is ReopenedEvent ==> item_event(item).event == Some("reopened"@),
        item is ReadyForReviewEvent ==> item_event(item).event == Some("ready_for_review"@),
        item is ConvertToDraftEvent ==> item_event(item).event == Some("convert_to_draft"@),
        item is LabeledEvent ==> item_event(item).event == Some("labeled"@),
        item is UnlabeledEvent ==> item_event(item).event == Some("unlabeled"@),
        item is AssignedEvent ==> item_event(item).event == Some("assigned"@),
        item is UnassignedEvent ==> item_event(item).event == Some("unassigned"@),
        item matches TimelineItem::PullRequestReview { author: Some(x), created_at, .. } ==> item_event(item).actor == Some(actor_user(x)) && item_event(item).created_at == Some(created_at@),
        item matches TimelineItem::IssueComment { author, created_at, .. } ==> item_event(item).actor == opt_actor_user(author) && item_event(item).created_at == Some(created_at@),
        item matches TimelineItem::ReviewRequestedEvent { actor, created_at, .. } ==> item_event(item).actor == opt_actor_user(actor) && item_event(item).created_at == Some(created_at@),
        item matches TimelineItem::ReviewRequestRemovedEvent { actor, created_at, .. } ==> item_event(item).actor == opt_actor_user(actor) && item_event(item).created_at == Some(created_at@),
        item matches TimelineItem::ReviewDismissedEvent { actor, created_at, .. } ==> item_event(item).actor == opt_actor_user(actor) && item_event(item).created_at == Some(created_at@),
        item matches TimelineItem::MergedEvent { actor, created_at, .. } ==> item_event(item).actor == opt_actor_user(actor) && item_event(item).created_at == Some(created_at@),
        item matches TimelineItem::ClosedEvent { actor, created_at, .. } ==> item_event(item).actor == opt_actor_user(actor) && item_event(item).created_at == Some(created_at@),
        item matches TimelineItem::ReopenedEvent { actor, created_at, .. } ==> item_event(item).actor == opt_actor_user(actor) && item_event(item).created_at == Some(created_at@),
        item matches TimelineItem::ReadyForReviewEvent { actor, created_at, .. } ==> item_event(item).actor == opt_actor_user(actor) && item_event(item).created_at == Some(created_at@),
        item matches TimelineItem::ConvertToDraftEvent { actor, created_at, .. } ==> item_event(item).actor == opt_actor_user(actor) && item_event(item).created_at == Some(created_at@),
        item matches TimelineItem::LabeledEvent { actor, created_at, .. } ==> item_event(item).actor == opt_actor_user(actor) && item_event(item).created_at == Some(created_at@),
        item matches TimelineItem::UnlabeledEvent { actor, created_at, .. } ==> item_event(item).actor == opt_actor_user(actor) && item_event(item).created_at == Some(created_at@),
        item matches TimelineItem::AssignedEvent { actor, created_at, .. } ==> item_event(item).actor == opt_actor_user(actor) && item_event(item).created_at == Some(created_at@),
        item matches TimelineItem::UnassignedEvent { actor, created_at, .. } ==> item_event(item).actor == opt_actor_user(actor) && item_event(item).created_at == Some(created_at@),
{
}

/// Different kinds of timeline items never give the same kind of event, and
/// no item gives the `committed` kind of a commit.
pub proof fn law_item_kinds_are_distinct(a: TimelineItem, b: TimelineItem, c: GraphQlCommit)
    ensures
        item_event(a).event == item_event(b).event ==> {
            &&& (a is PullRequestReview <==> b is PullRequestReview)
            &&& (a is IssueComment <==> b is IssueComment)
            &&& (a is ReviewRequestedEvent <==> b is ReviewRequestedEvent)
            &&& (a is ReviewRequestRemovedEvent <==> b is ReviewRequestRemovedEvent)
            &&& (a is ReviewDismissedEvent <==> b is ReviewDismissedEvent)
            &&& (a is MergedEvent <==> b is MergedEvent)
            &&& (a is ClosedEvent <==> b is ClosedEvent)
            &&& (a is ReopenedEvent <==> b is ReopenedEvent)
            &&& (a is ReadyForReviewEvent <==> b is ReadyForReviewEvent)
            &&& (a is ConvertToDraftEvent <==> b is ConvertToDraftEvent)
            &&& (a is LabeledEvent <==> b is LabeledEvent)
            &&& (a is UnlabeledEvent <==> b is UnlabeledEvent)
            &&& (a is AssignedEvent <==> b is AssignedEvent)
            &&& (a is UnassignedEvent <==> b is UnassignedEvent)
        },
        item_event(a).event != commit_event(c).event,
{
    reveal_strlit("reviewed");
    reveal_strlit("commented");
    reveal_strlit("review_requested");
    reveal_strlit("review_request_removed");
    reveal_strlit("review_dismissed");
    reveal_strlit("merged");
    reveal_strlit("closed");
    reveal_strlit("reopened");
    reveal_strlit("ready_for_review");
    reveal_strlit("convert_to_draft");
    reveal_strlit("labeled");
    reveal_strlit("unlabeled");
    reveal_strlit("assigned");
    reveal_strlit("unassigned");
    reveal_strlit("committed");
    let ka = item_event(a).event->0;
    let kb = item_event(b).event->0;
    if ka == kb {
        assert(ka.len() == kb.len());
        if ka.len() > 0 {
            assert(ka[0] == kb[0]);
        }
        if ka.len() > 2 {
            assert(ka[2] == kb[2]);
        }
        if ka.len() > 7 {
            assert(ka[7] == kb[7]);
        }
    }
    let kc = commit_event(c).event->0;
    if ka == kc {
        assert(ka.len() == kc.len());
        assert(ka[0] == kc[0]);
        assert(ka[2] == kc[2]);
        assert(ka[4] == kc[4]);
        assert(ka[7] == kc[7]);
    }
}

} // verus!
