//! The decisions of the polling loop: what to enrich, whether and what to
//! deliver for a thread, what to remember, and how long to sleep.  The
//! program runs the loop and performs the network work between them.

use vstd::prelude::*;

use crate::action::{actions_of, notification_actions};
use crate::auto_watch::{should_watch_repository, watches};
use crate::config::{BlockRule, Config, GitHubConfig};
use crate::filter::{
    activity_for, blocks, build_notification_facts, facts_match, first_blocking, matching_block_rule,
    NotificationFacts,
};
use crate::github::model::{
    opt_view, AutoWatchRepository, PullRequestDetails, RepositorySubscriptionResult, Thread, TimelineEvent,
};
use crate::render::{
    initial_subject_message, kind_is, pr_value, render_initial_subject, render_thread,
    rendered_message, rendered_with_message, timeline_seq, RenderedNotification,
};
use crate::state::{
    contains_str, dedup_keep_first, entries_after_remember, joined_blocks, lookup, merge_matches, seen_after_mark, NotificationMerge, State,
};
use crate::text::{copy_str, opt_str_eq, views};

verus! {

/// A rendered notification with its facts and its merge into what was sent before.
#[derive(Debug)]
pub struct Prepared {
    pub rendered: RenderedNotification,
    pub facts: NotificationFacts,
    pub merge: NotificationMerge,
}

/// What happens to a thread once it is prepared.
#[derive(Debug)]
pub enum Delivery {
    /// A block rule matched; the thread is marked handled and nothing is sent.
    Blocked { rule_name: Option<String> },
    /// The message is already one of the notification's blocks; the thread
    /// is marked handled and nothing is sent.
    Unchanged,
    /// The notification is to be published; once it is, the blocks are
    /// remembered under its sequence id.
    Send { notification: RenderedNotification, blocks: Vec<String> },
}

/// The key under which a thread update is remembered as handled.
pub open spec fn dedupe_key_of(thread: Thread) -> Seq<char> {
    thread.id@ + "|"@ + thread.updated_at@
}

/// The key under which a thread update is remembered as handled: its id
/// and its update time.
pub fn dedupe_key(thread: &Thread) -> (r: String)
    ensures
        r@ == dedupe_key_of(*thread),
{
    let mut k = thread.id.clone();
    k.append("|");
    k.append(thread.updated_at.as_str());
    k
}

/// The subject is a pull request or an issue.
pub open spec fn is_pull_request_or_issue(thread: Thread) -> bool {
    kind_is(thread, "PullRequest"@) || kind_is(thread, "Issue"@)
}

/// When a rule with an activity condition blocks the first notification of
/// a pull request or issue, a notification about the subject itself is sent
/// instead, so that the subject is announced once.
pub fn should_send_initial_subject_notification(rule: &BlockRule, merge: &NotificationMerge, thread: &Thread) -> (r: bool)
    ensures
        r == (rule.activity is Some && !merge.had_existing && is_pull_request_or_issue(*thread)),
{
    rule.activity.is_some() && !merge.had_existing && (opt_str_eq(&thread.subject.kind, "PullRequest")
        || opt_str_eq(&thread.subject.kind, "Issue"))
}

/// What enrichment fetches for a thread: pull request details (for pull
/// requests, when enabled) and the timeline (for those, and for issues when
/// enabled); nothing without a subject address.
pub open spec fn enrichment_of(thread: Thread, config: GitHubConfig) -> (bool, bool) {
    if thread.subject.url is None {
        (false, false)
    } else {
        let pr = kind_is(thread, "PullRequest"@) && config.enrich_pull_requests;
        (pr, pr || (kind_is(thread, "Issue"@) && config.enrich_issues))
    }
}

/// Whether to fetch pull request details, and whether to fetch the timeline.
pub fn enrichment_plan(thread: &Thread, config: &GitHubConfig) -> (r: (bool, bool))
    ensures
        r == enrichment_of(*thread, *config),
{
    if thread.subject.url.is_none() {
        return (false, false);
    }
    let pr = opt_str_eq(&thread.subject.kind, "PullRequest") && config.enrich_pull_requests;
    (pr, pr || (opt_str_eq(&thread.subject.kind, "Issue") && config.enrich_issues))
}

/// Which REST requests follow the GraphQL enrichment: none when it gave the
/// pull request and its timeline; else those of the plan (pull request
/// details, the timeline).
pub fn rest_fallback(
    plan: (bool, bool),
    graphql: &Option<Result<(PullRequestDetails, Vec<TimelineEvent>), String>>,
) -> (r: (bool, bool))
    ensures
        r == (if graphql matches Some(Ok(_)) {
            (false, false)
        } else {
            plan
        }),
{
    match graphql {
        Some(Ok(_)) => (false, false),
        _ => plan,
    }
}

/// What enrichment found: the pull request and timeline of a GraphQL answer
/// when there is one; else each planned REST answer that succeeded.  Failed
/// and unplanned requests give nothing.
pub fn enrichment_result(
    plan: (bool, bool),
    graphql: Option<Result<(PullRequestDetails, Vec<TimelineEvent>), String>>,
    details: Option<Result<PullRequestDetails, String>>,
    timeline: Option<Result<Vec<TimelineEvent>, String>>,
) -> (r: (Option<PullRequestDetails>, Option<Vec<TimelineEvent>>))
    ensures
        graphql matches Some(Ok(x)) ==> r == (Some(x.0), Some(x.1)),
        !(graphql matches Some(Ok(_))) ==> r == (
            if plan.0 && details matches Some(Ok(_)) {
                Some(details->0->Ok_0)
            } else {
                None
            },
            if plan.1 && timeline matches Some(Ok(_)) {
                Some(timeline->0->Ok_0)
            } else {
                None
            },
        ),
{
    if let Some(Ok((pull_request, events))) = graphql {
        return (Some(pull_request), Some(events));
    }
    let pull_request = match details {
        Some(Ok(p)) => if plan.0 {
            Some(p)
        } else {
            None
        },
        _ => None,
    };
    let events = match timeline {
        Some(Ok(t)) => if plan.1 {
            Some(t)
        } else {
            None
        },
        _ => None,
    };
    (pull_request, events)
}

/// Where the body of a subject notification comes from.
#[derive(Debug)]
pub enum BodySource {
    /// The pull request details already carry it.
    Known(String),
    /// It is fetched from the subject's address.
    Fetch(String),
    /// There is none.
    Absent,
}

/// The body of a subject notification: the pull request's body when known;
/// else, for pull requests and issues with an address, fetched from it;
/// else none.
pub fn initial_subject_body_source(thread: &Thread, pull_request: Option<&PullRequestDetails>) -> (r: BodySource)
    ensures
        match r {
            BodySource::Known(b) => (pull_request matches Some(p) && p.body matches Some(x) && x@ == b@),
            BodySource::Fetch(u) => {
                &&& !(pull_request matches Some(p) && p.body is Some)
                &&& is_pull_request_or_issue(*thread)
                &&& (thread.subject.url matches Some(x) && x@ == u@)
            },
            BodySource::Absent => {
                &&& !(pull_request matches Some(p) && p.body is Some)
                &&& (!is_pull_request_or_issue(*thread) || thread.subject.url is None)
            },
        },
{
    if let Some(p) = pull_request {
        if let Some(b) = &p.body {
            return BodySource::Known(b.clone());
        }
    }
    if !(opt_str_eq(&thread.subject.kind, "PullRequest") || opt_str_eq(&thread.subject.kind, "Issue")) {
        return BodySource::Absent;
    }
    match &thread.subject.url {
        Some(u) => BodySource::Fetch(u.clone()),
        None => BodySource::Absent,
    }
}

/// `p` is the preparation of a notification with body `message` and the
/// facts of the given enrichment, merged into what `state` remembers.
pub open spec fn prepared_matches(
    p: Prepared,
    config: Config,
    state: State,
    thread: Thread,
    message: Seq<char>,
    pull_request: Option<PullRequestDetails>,
    timeline: Option<Seq<TimelineEvent>>,
) -> bool {
    &&& rendered_with_message(
        RenderedNotification { actions: None, ..p.rendered },
        thread,
        message,
    )
    &&& opt_view(p.rendered.actions) == actions_of(config.actions, thread.id@)
    &&& facts_match(p.facts, thread, pull_request, timeline)
    &&& merge_matches(p.merge, state.entries_view(), p.rendered.sequence_id@, message)
}

/// Renders a thread, attaches its action buttons, gathers its facts and
/// merges it into what was sent before under the same sequence id.
pub fn prepare_delivery(
    config: &Config,
    state: &State,
    thread: &Thread,
    pull_request: Option<&PullRequestDetails>,
    timeline: Option<&[TimelineEvent]>,
) -> (r: Prepared)
    requires
        state.wf(),
    ensures
        prepared_matches(
            r,
            *config,
            *state,
            *thread,
            rendered_message(*thread, pr_value(pull_request), timeline_seq(timeline)),
            pr_value(pull_request),
            timeline_seq(timeline),
        ),
{
    let mut rendered = render_thread(thread, pull_request, timeline);
    rendered.actions = notification_actions(&config.actions, thread.id.as_str());
    let facts = build_notification_facts(thread, pull_request, timeline);
    let merge = state.merge_notification(rendered.sequence_id.as_str(), rendered.message.as_str());
    Prepared { rendered, facts, merge }
}

/// Like [`prepare_delivery`], for a notification about the subject itself:
/// its body is the subject's body over the base message, and its facts carry
/// no timeline activity.
pub fn prepare_initial_subject(
    config: &Config,
    state: &State,
    thread: &Thread,
    pull_request: Option<&PullRequestDetails>,
    body: Option<&str>,
) -> (r: Prepared)
    requires
        state.wf(),
    ensures
        prepared_matches(
            r,
            *config,
            *state,
            *thread,
            initial_subject_message(
                *thread,
                match body {
                    Some(b) => Some(b@),
                    None => None,
                },
            ),
            pr_value(pull_request),
            None,
        ),
{
    let mut rendered = render_initial_subject(thread, body);
    rendered.actions = notification_actions(&config.actions, thread.id.as_str());
    let facts = build_notification_facts(thread, pull_request, None);
    let merge = state.merge_notification(rendered.sequence_id.as_str(), rendered.message.as_str());
    Prepared { rendered, facts, merge }
}

/// A rule blocks the prepared facts and asks for the subject to be announced
/// instead (see [`should_send_initial_subject_notification`]).
pub open spec fn wants_initial_subject_spec(config: Config, p: Prepared, thread: Thread) -> bool {
    let i = first_blocking(config.filters.block@, p.facts);
    i < config.filters.block@.len() && config.filters.block@[i].activity is Some && !p.merge.had_existing
        && is_pull_request_or_issue(thread)
}

/// Whether the first rule that blocks the prepared notification asks for
/// the subject to be announced instead.
pub fn wants_initial_subject(config: &Config, prepared: &Prepared, thread: &Thread) -> (r: bool)
    ensures
        r == wants_initial_subject_spec(*config, *prepared, *thread),
{
    match matching_block_rule(&config.filters, &prepared.facts) {
        Some(rule) => should_send_initial_subject_notification(rule, &prepared.merge, thread),
        None => false,
    }
}

/// Decides what to do with a prepared thread.  A blocked thread (reported
/// with the name of the first rule that blocks it), and one
/// whose message is already shown, is marked handled and nothing is sent;
/// otherwise the notification, with the merged blocks as its body, is to be
/// sent and nothing is remembered yet.
pub fn decide_delivery(config: &Config, state: &mut State, prepared: Prepared) -> (r: Delivery)
    requires
        old(state).wf(),
    ensures
        final(state).wf(),
        r matches Delivery::Blocked { rule_name } ==> opt_view(rule_name) == opt_view(
            config.filters.block@[first_blocking(config.filters.block@, prepared.facts)].name,
        ),
        first_blocking(config.filters.block@, prepared.facts) < config.filters.block@.len() ==> (r is Blocked
            && final(state).seen_view() == seen_after_mark(
            old(state).seen_view(),
            prepared.rendered.dedupe_key@,
            config.app.max_seen as nat,
        )),
        first_blocking(config.filters.block@, prepared.facts) >= config.filters.block@.len()
            && prepared.merge.had_existing && !prepared.merge.inserted_new_block ==> (r is Unchanged
            && final(state).seen_view() == seen_after_mark(
            old(state).seen_view(),
            prepared.rendered.dedupe_key@,
            config.app.max_seen as nat,
        )),
        first_blocking(config.filters.block@, prepared.facts) >= config.filters.block@.len() && !(
        prepared.merge.had_existing && !prepared.merge.inserted_new_block) ==> (r matches Delivery::Send {
            notification,
            blocks,
        } && notification.message@ == joined_blocks(views(prepared.merge.blocks@))
            && views(blocks@) == views(prepared.merge.blocks@)
            && notification.sequence_id@ == prepared.rendered.sequence_id@
            && notification.dedupe_key@ == prepared.rendered.dedupe_key@
            && notification.title@ == prepared.rendered.title@
            && opt_view(notification.actions) == opt_view(prepared.rendered.actions)
            && notification.click_url@ == prepared.rendered.click_url@
            && notification.icon_url@ == prepared.rendered.icon_url@
            && notification.tags@ == prepared.rendered.tags@
            && notification.priority == prepared.rendered.priority && final(state).seen_view() == old(
            state,
        ).seen_view()),
        final(state).entries_view() == old(state).entries_view(),
{
    let Prepared { mut rendered, facts, merge } = prepared;
    match matching_block_rule(&config.filters, &facts) {
        Some(rule) => {
            let rule_name = crate::text::copy_opt(&rule.name);
            state.mark_seen(rendered.dedupe_key, config.app.max_seen);
            return Delivery::Blocked { rule_name };
        },
        None => {},
    }
    if merge.had_existing && !merge.inserted_new_block {
        state.mark_seen(rendered.dedupe_key, config.app.max_seen);
        return Delivery::Unchanged;
    }
    rendered.message = merge.message();
    Delivery::Send { notification: rendered, blocks: merge.blocks }
}

/// Records a published notification: its blocks are remembered under its
/// sequence id and the thread update is marked handled.
pub fn record_delivery(config: &Config, state: &mut State, notification: &RenderedNotification, blocks: Vec<String>)
    requires
        old(state).wf(),
    ensures
        final(state).wf(),
        final(state).entries_view() == entries_after_remember(
            old(state).entries_view(),
            notification.sequence_id@,
            views(blocks@),
            config.app.max_seen as nat,
        ),
        final(state).seen_view() == seen_after_mark(
            old(state).seen_view(),
            notification.dedupe_key@,
            config.app.max_seen as nat,
        ),
{
    state.remember_notification(notification.sequence_id.clone(), blocks, config.app.max_seen);
    state.mark_seen(notification.dedupe_key.clone(), config.app.max_seen);
}

/// The threads a poll processes: the unread ones, by position.
pub fn unread_positions(threads: &Vec<Thread>) -> (r: Vec<usize>)
    ensures
        forall|i: int| 0 <= i < r@.len() ==> r@[i] < threads@.len() && threads@[r@[i] as int].unread,
        forall|i: int, j: int| 0 <= i < j < r@.len() ==> r@[i] < r@[j],
        forall|k: int| 0 <= k < threads@.len() && threads@[k].unread ==> r@.contains(k as usize),
{
    let mut r: Vec<usize> = Vec::new();
    let mut k: usize = 0;
    while k < threads.len()
        invariant
            k <= threads@.len(),
            forall|i: int| 0 <= i < r@.len() ==> r@[i] < k && threads@[r@[i] as int].unread,
            forall|i: int, j: int| 0 <= i < j < r@.len() ==> r@[i] < r@[j],
            forall|m: int| 0 <= m < k && threads@[m].unread ==> r@.contains(m as usize),
        decreases threads.len() - k,
    {
        if threads[k].unread {
            let ghost before = r@;
            r.push(k);
            proof {
                assert forall|m: int| 0 <= m < k + 1 && threads@[m].unread implies r@.contains(m as usize) by {
                    if m < k {
                        let i = choose|i: int| 0 <= i < before.len() && before[i] == m as usize;
                        assert(r@[i] == m as usize);
                    } else {
                        assert(r@[r@.len() - 1] == k);
                    }
                }
            }
        }
        k += 1;
    }
    r
}

/// How long to sleep after a successful poll: GitHub's requested interval,
/// but never less than the configured one.
pub fn next_sleep_secs(requested: Option<u64>, configured: u64) -> (r: u64)
    ensures
        r == match requested {
            Some(x) => if x > configured { x } else { configured },
            None => configured,
        },
{
    match requested {
        Some(x) => if x > configured { x } else { configured },
        None => configured,
    }
}

/// The back-off after a failed poll: doubled, saturating, at most 900 seconds.
pub fn next_backoff_secs(backoff: u64) -> (r: u64)
    ensures
        r == if 2 * backoff > 900 { 900 } else { 2 * backoff },
{
    if backoff > 450 {
        900
    } else {
        backoff * 2
    }
}

/// The full names of the repositories auto-watch subscribes to for
/// `current_user`, in listing order.
pub fn repositories_to_watch(
    config: &crate::config::AutoWatchConfig,
    repositories: &Vec<AutoWatchRepository>,
    current_user: &str,
) -> (r: Vec<String>)
    ensures
        views(r@) == repositories@.filter(|x: AutoWatchRepository| watches(*config, x.full_name@, current_user@)).map_values(
            |x: AutoWatchRepository| x.full_name@,
        ),
{
    let ghost pred = |x: AutoWatchRepository| watches(*config, x.full_name@, current_user@);
    let ghost name = |x: AutoWatchRepository| x.full_name@;
    let mut r: Vec<String> = Vec::new();
    let mut k: usize = 0;
    proof {
        assert(repositories@.take(0) =~= Seq::<AutoWatchRepository>::empty());
        assert(repositories@.take(0).filter(pred) =~= Seq::<AutoWatchRepository>::empty()) by {
            reveal(Seq::filter);
        }
        assert(views(r@) =~= repositories@.take(0).filter(pred).map_values(name));
    }
    while k < repositories.len()
        invariant
            k <= repositories@.len(),
            pred == (|x: AutoWatchRepository| watches(*config, x.full_name@, current_user@)),
            name == (|x: AutoWatchRepository| x.full_name@),
            views(r@) == repositories@.take(k as int).filter(pred).map_values(name),
        decreases repositories.len() - k,
    {
        proof {
            reveal(Seq::filter);
            assert(repositories@.take(k + 1).drop_last() =~= repositories@.take(k as int));
            assert(repositories@.take(k + 1).last() == repositories@[k as int]);
        }
        let ghost before = r@;
        if should_watch_repository(config, &repositories[k], current_user) {
            r.push(repositories[k].full_name.clone());
            proof {
                let old_f = repositories@.take(k as int).filter(pred);
                assert(repositories@.take(k + 1).filter(pred) == old_f.push(repositories@[k as int]));
                assert(views(r@) =~= views(before).push(repositories@[k as int].full_name@));
                assert(old_f.push(repositories@[k as int]).map_values(name) =~= old_f.map_values(name).push(
                    name(repositories@[k as int]),
                ));
            }
        } else {
            proof {
                assert(repositories@.take(k + 1).filter(pred) == repositories@.take(k as int).filter(pred));
            }
        }
        k += 1;
    }
    proof {
        assert(repositories@.take(repositories@.len() as int) =~= repositories@);
    }
    r
}

/// Records the outcome of a subscription attempt: a subscription, or a
/// skip, marks the repository handled; a failure leaves it to be retried.
pub fn record_subscription(state: &mut State, full_name: String, outcome: &Result<RepositorySubscriptionResult, String>)
    requires
        old(state).wf(),
    ensures
        final(state).wf(),
        outcome is Ok ==> final(state).auto_watched_view() == if old(state).auto_watched_view().contains(full_name@) {
            old(state).auto_watched_view()
        } else {
            old(state).auto_watched_view().push(full_name@)
        },
        outcome is Err ==> final(state).auto_watched_view() == old(state).auto_watched_view(),
        final(state).seen_view() == old(state).seen_view(),
        final(state).entries_view() == old(state).entries_view(),
        final(state).auto_watch_initialized_view() == old(state).auto_watch_initialized_view(),
{
    match outcome {
        Ok(_) => state.remember_auto_watched_repository(full_name),
        Err(_) => {},
    }
}

/// `x` added at the end of `watched` unless it is already there.
pub open spec fn add_new(watched: Seq<Seq<char>>, x: Seq<char>) -> Seq<Seq<char>> {
    if watched.contains(x) {
        watched
    } else {
        watched.push(x)
    }
}

/// Each of `names` in turn added to `watched` with [`add_new`].
pub open spec fn add_all_new(watched: Seq<Seq<char>>, names: Seq<Seq<char>>) -> Seq<Seq<char>>
    decreases names.len(),
{
    if names.len() == 0 {
        watched
    } else {
        add_new(add_all_new(watched, names.drop_last()), names.last())
    }
}

/// Plans one auto-watch round for the repositories that match.  The first
/// round only records a baseline: every match is remembered as handled, the
/// baseline is marked recorded and nothing is subscribed to.  Later rounds
/// change nothing and return the matches not yet handled, in order, each
/// once.
pub fn plan_auto_watch(state: &mut State, matching: Vec<String>) -> (to_subscribe: Vec<String>)
    requires
        old(state).wf(),
    ensures
        final(state).wf(),
        !old(state).auto_watch_initialized_view() ==> {
            &&& final(state).auto_watched_view() == add_all_new(old(state).auto_watched_view(), views(matching@))
            &&& final(state).auto_watch_initialized_view()
            &&& to_subscribe@.len() == 0
        },
        old(state).auto_watch_initialized_view() ==> {
            &&& final(state).auto_watched_view() == old(state).auto_watched_view()
            &&& final(state).auto_watch_initialized_view()
            &&& views(to_subscribe@) == dedup_keep_first(
                views(matching@).filter(|x: Seq<char>| !old(state).auto_watched_view().contains(x)),
            )
        },
        final(state).seen_view() == old(state).seen_view(),
        final(state).entries_view() == old(state).entries_view(),
        final(state).last_modified_view() == old(state).last_modified_view(),
{
    let ghost start_watched = state.auto_watched_view();
    let ghost start_seen = state.seen_view();
    let ghost start_entries = state.entries_view();
    let ghost start_modified = state.last_modified_view();
    let ghost names = views(matching@);
    if !state.is_auto_watch_initialized() {
        let mut k: usize = 0;
        proof {
            assert(names.take(0) =~= Seq::<Seq<char>>::empty());
        }
        while k < matching.len()
            invariant
                k <= matching@.len(),
                names == views(matching@),
                state.wf(),
                state.auto_watched_view() == add_all_new(start_watched, names.take(k as int)),
                state.seen_view() == start_seen,
                state.entries_view() == start_entries,
                state.last_modified_view() == start_modified,
            decreases matching.len() - k,
        {
            proof {
                assert(names.take(k + 1).drop_last() =~= names.take(k as int));
                assert(names.take(k + 1).last() == matching@[k as int]@);
            }
            state.remember_auto_watched_repository(matching[k].clone());
            k += 1;
        }
        proof {
            assert(names.take(matching@.len() as int) =~= names);
        }
        state.mark_auto_watch_initialized();
        return Vec::new();
    }
    let ghost keep = |x: Seq<char>| !start_watched.contains(x);
    let mut r: Vec<String> = Vec::new();
    let mut k: usize = 0;
    proof {
        assert(names.take(0).filter(keep) =~= Seq::<Seq<char>>::empty()) by {
            reveal(Seq::filter);
        }
        assert(views(r@) =~= dedup_keep_first(names.take(0).filter(keep)));
    }
    while k < matching.len()
        invariant
            k <= matching@.len(),
            names == views(matching@),
            keep == (|x: Seq<char>| !start_watched.contains(x)),
            state.auto_watched_view() == start_watched,
            views(r@) == dedup_keep_first(names.take(k as int).filter(keep)),
        decreases matching.len() - k,
    {
        proof {
            reveal(Seq::filter);
            assert(names.take(k + 1).drop_last() =~= names.take(k as int));
            assert(names.take(k + 1).last() == matching@[k as int]@);
        }
        let ghost before = r@;
        let ghost f = names.take(k as int).filter(keep);
        let ghost x = matching@[k as int]@;
        proof {
            if keep(x) {
                assert(names.take(k + 1).filter(keep) == f.push(x));
                assert(f.push(x).drop_last() =~= f);
                assert(f.push(x).last() == x);
            } else {
                assert(names.take(k + 1).filter(keep) == f);
            }
        }
        if !state.has_auto_watched_repository(matching[k].as_str()) && !contains_str(&r, matching[k].as_str()) {
            r.push(matching[k].clone());
            proof {
                assert(views(r@) =~= views(before).push(matching@[k as int]@));
            }
        }
        k += 1;
    }
    proof {
        assert(names.take(matching@.len() as int) =~= names);
    }
    r
}

} // verus!
