//! Summarising a timeline: the newest tracked event, who did it, and what to
//! show about it.

use vstd::prelude::*;

use crate::github::model::{
    opt_view, ActivityView, Label, TimelineActivity, TimelineEvent, User,
};
use crate::text::{
    contains, contains_seq, replace, replaced, chars_lt, chars_lt_exec, chars_of, copy_opt, copy_str, ends_with, has_suffix, is_blank, join,
    joined, opt_str_eq, split_char, split_on, str_eq, to_ascii_uppercase, trim, trimmed,
    ascii_uppercase, views,
};

verus! {

/// The time an event is ordered by: when it was submitted, else updated,
/// else created, else the empty string.
pub open spec fn event_time(e: TimelineEvent) -> Seq<char> {
    match e.submitted_at {
        Some(t) => t@,
        None => match e.updated_at {
            Some(t) => t@,
            None => match e.created_at {
                Some(t) => t@,
                None => Seq::empty(),
            },
        },
    }
}

/// The account an event is attributed to: its user, else actor, else author,
/// else committer.
pub open spec fn acting_user(e: TimelineEvent) -> Option<User> {
    if e.user is Some {
        e.user
    } else if e.actor is Some {
        e.actor
    } else if e.author is Some {
        e.author
    } else {
        e.committer
    }
}

/// The login of an optional account, or `someone`.
pub open spec fn login_or_someone(u: Option<User>) -> Seq<char> {
    match u {
        Some(x) => x.login@,
        None => "someone"@,
    }
}

/// The login an event is attributed to, or `someone`.
pub open spec fn actor_name(e: TimelineEvent) -> Seq<char> {
    login_or_someone(acting_user(e))
}

/// An account is a bot when GitHub types it `Bot` or its login ends in `[bot]`.
pub open spec fn user_is_bot(u: User) -> bool {
    (u.kind is Some && u.kind->0@ == "Bot"@) || has_suffix(u.login@, "[bot]"@)
}

/// The account an event is attributed to is a bot.
pub open spec fn actor_is_bot(e: TimelineEvent) -> bool {
    match acting_user(e) {
        Some(u) => user_is_bot(u),
        None => false,
    }
}

/// The text that accompanies an event: its body, else a review dismissal message.
pub open spec fn detail_text(e: TimelineEvent) -> Option<Seq<char>> {
    match e.body {
        Some(b) => Some(b@),
        None => match e.dismissed_review {
            Some(r) => opt_view(r.dismissal_message),
            None => None,
        },
    }
}

/// The first line that is not blank, trimmed.
pub open spec fn first_nonblank_line(lines: Seq<Seq<char>>) -> Option<Seq<char>>
    decreases lines.len(),
{
    if lines.len() == 0 {
        None
    } else if !is_blank(lines[0]) {
        Some(trimmed(lines[0]))
    } else {
        first_nonblank_line(lines.drop_first())
    }
}

/// The commit message of an event: its message, else its commit's message.
pub open spec fn commit_message_source(e: TimelineEvent) -> Option<Seq<char>> {
    match e.message {
        Some(m) => Some(m@),
        None => match e.commit {
            Some(c) => opt_view(c.message),
            None => None,
        },
    }
}

/// The first non-blank line of an event's commit message, trimmed.
pub open spec fn cleaned_commit_message(e: TimelineEvent) -> Option<Seq<char>> {
    match commit_message_source(e) {
        Some(m) => first_nonblank_line(split_char(m, '\n')),
        None => None,
    }
}

/// The event kinds that can summarise a timeline.
pub open spec fn is_tracked_kind(k: Seq<char>) -> bool {
    ||| k == "reviewed"@
    ||| k == "commented"@
    ||| k == "committed"@
    ||| k == "merged"@
    ||| k == "assigned"@
    ||| k == "unassigned"@
    ||| k == "labeled"@
    ||| k == "unlabeled"@
    ||| k == "review_requested"@
    ||| k == "review_request_removed"@
    ||| k == "review_dismissed"@
    ||| k == "closed"@
    ||| k == "reopened"@
    ||| k == "ready_for_review"@
    ||| k == "convert_to_draft"@
}

/// An event whose kind is tracked.
pub open spec fn is_tracked(e: TimelineEvent) -> bool {
    e.event is Some && is_tracked_kind(e.event->0@)
}

/// `e` placed into the time-ordered `sorted` after every event whose time is
/// not later than its own.
pub open spec fn insert_by_time(sorted: Seq<TimelineEvent>, e: TimelineEvent) -> Seq<TimelineEvent>
    decreases sorted.len(),
{
    if sorted.len() == 0 {
        seq![e]
    } else if !chars_lt(event_time(e), event_time(sorted.last())) {
        sorted.push(e)
    } else {
        insert_by_time(sorted.drop_last(), e).push(sorted.last())
    }
}

/// The tracked events of `t`, stably sorted by time: events with equal times
/// keep their order in `t`.
pub open spec fn ordered_events(t: Seq<TimelineEvent>) -> Seq<TimelineEvent>
    decreases t.len(),
{
    if t.len() == 0 {
        Seq::empty()
    } else if is_tracked(t.last()) {
        insert_by_time(ordered_events(t.drop_last()), t.last())
    } else {
        ordered_events(t.drop_last())
    }
}

/// The longest run at the end of `events` of commits attributed to `actor`.
pub open spec fn committed_run(events: Seq<TimelineEvent>, actor: Seq<char>) -> Seq<TimelineEvent>
    decreases events.len(),
{
    if events.len() > 0 && is_commit_by(events.last(), actor) {
        committed_run(events.drop_last(), actor).push(events.last())
    } else {
        Seq::empty()
    }
}

/// `e` is a commit attributed to `actor`.
pub open spec fn is_commit_by(e: TimelineEvent, actor: Seq<char>) -> bool {
    e.event is Some && e.event->0@ == "committed"@ && actor_name(e) == actor
}

/// The cleaned commit messages of `g`, in order, skipping those without one.
pub open spec fn commit_messages(g: Seq<TimelineEvent>) -> Seq<Seq<char>>
    decreases g.len(),
{
    if g.len() == 0 {
        Seq::empty()
    } else {
        let rest = commit_messages(g.drop_last());
        match cleaned_commit_message(g.last()) {
            Some(m) => rest.push(m),
            None => rest,
        }
    }
}

/// The first three items of `s` (all of them when there are fewer).
pub open spec fn first_three(s: Seq<Seq<char>>) -> Seq<Seq<char>> {
    if s.len() <= 3 {
        s
    } else {
        s.take(3)
    }
}

/// The detail of a group of commits: its first three messages, one per line;
/// none when no commit has a message.
pub open spec fn commit_detail(g: Seq<TimelineEvent>) -> Option<Seq<char>> {
    let j = joined(first_three(commit_messages(g)), "\n"@);
    if j.len() == 0 {
        None
    } else {
        Some(j)
    }
}

/// The kind a review is summarised as, from its state compared without ASCII case.
pub open spec fn review_kind(state: Option<String>) -> Seq<char> {
    match state {
        Some(s) => if ascii_uppercase(s@) == "APPROVED"@ {
            "review_approved"@
        } else if ascii_uppercase(s@) == "CHANGES_REQUESTED"@ {
            "review_changes_requested"@
        } else {
            "reviewed"@
        },
        None => "reviewed"@,
    }
}

/// The name of a label, or `unknown`.
pub open spec fn label_name_or_unknown(l: Option<Label>) -> Seq<char> {
    match l {
        Some(x) => x.name@,
        None => "unknown"@,
    }
}

/// Whom a review request asks: the requested account, else the team, else `someone`.
pub open spec fn requested_target(e: TimelineEvent) -> Seq<char> {
    match e.requested_reviewer {
        Some(u) => u.login@,
        None => match e.requested_team {
            Some(t) => t.slug@,
            None => "someone"@,
        },
    }
}

/// The summary of the newest event `last` of the time-ordered `events`.
pub open spec fn activity_of(last: TimelineEvent, events: Seq<TimelineEvent>) -> ActivityView {
    let actor = actor_name(last);
    let bot = actor_is_bot(last);
    let kind = last.event->0@;
    if kind == "reviewed"@ {
        ActivityView { kind: review_kind(last.state), actor, actor_is_bot: bot, detail: detail_text(last), commit_count: None }
    } else if kind == "committed"@ {
        let g = committed_run(events, actor);
        ActivityView { kind, actor, actor_is_bot: bot, detail: commit_detail(g), commit_count: Some(g.len()) }
    } else if kind == "assigned"@ {
        ActivityView { kind, actor, actor_is_bot: bot, detail: Some("Assigned to @"@ + login_or_someone(last.assignee)), commit_count: None }
    } else if kind == "unassigned"@ {
        ActivityView { kind, actor, actor_is_bot: bot, detail: Some("Unassigned from @"@ + login_or_someone(last.assignee)), commit_count: None }
    } else if kind == "labeled"@ {
        ActivityView { kind, actor, actor_is_bot: bot, detail: Some("Added label: "@ + label_name_or_unknown(last.label)), commit_count: None }
    } else if kind == "unlabeled"@ {
        ActivityView { kind, actor, actor_is_bot: bot, detail: Some("Removed label: "@ + label_name_or_unknown(last.label)), commit_count: None }
    } else if kind == "review_requested"@ || kind == "review_request_removed"@ {
        let requester_bot = match last.review_requester {
            Some(u) => user_is_bot(u),
            None => false,
        };
        let prefix = if kind == "review_requested"@ { "Requested from @"@ } else { "Removed for @"@ };
        ActivityView {
            kind,
            actor: match last.review_requester {
                Some(u) => u.login@,
                None => actor,
            },
            actor_is_bot: requester_bot || bot,
            detail: Some(prefix + requested_target(last)),
            commit_count: None,
        }
    } else {
        ActivityView { kind, actor, actor_is_bot: bot, detail: detail_text(last), commit_count: None }
    }
}

/// The summary of a timeline: that of its newest tracked event, if any.
pub open spec fn timeline_activity(t: Seq<TimelineEvent>) -> Option<ActivityView> {
    let events = ordered_events(t);
    if events.len() == 0 {
        None
    } else {
        Some(activity_of(events.last(), events))
    }
}

/// The view of an optional activity.
pub open spec fn opt_activity_view(a: Option<TimelineActivity>) -> Option<ActivityView> {
    match a {
        Some(x) => Some(x@),
        None => None,
    }
}

pub proof fn lemma_insert_by_time_len(s: Seq<TimelineEvent>, e: TimelineEvent)
    ensures
        insert_by_time(s, e).len() == s.len() + 1,
    decreases s.len(),
{
    if s.len() > 0 {
        lemma_insert_by_time_len(s.drop_last(), e);
    }
}

proof fn lemma_insert_by_time_keeps(s: Seq<TimelineEvent>, e: TimelineEvent, p: spec_fn(TimelineEvent) -> bool)
    requires
        forall|i: int| 0 <= i < s.len() ==> p(#[trigger] s[i]),
        p(e),
    ensures
        forall|i: int| 0 <= i < insert_by_time(s, e).len() ==> p(#[trigger] insert_by_time(s, e)[i]),
    decreases s.len(),
{
    lemma_insert_by_time_len(s, e);
    if s.len() > 0 {
        lemma_insert_by_time_keeps(s.drop_last(), e, p);
        lemma_insert_by_time_len(s.drop_last(), e);
        if chars_lt(event_time(e), event_time(s.last())) {
            let r = insert_by_time(s.drop_last(), e);
            assert forall|i: int| 0 <= i < r.push(s.last()).len() implies p(#[trigger] r.push(s.last())[i]) by {
                if i < r.len() {
                    assert(r.push(s.last())[i] == r[i]);
                } else {
                    assert(r.push(s.last())[i] == s[s.len() - 1]);
                }
            }
        } else {
            assert forall|i: int| 0 <= i < s.push(e).len() implies p(#[trigger] s.push(e)[i]) by {
                if i < s.len() {
                    assert(s.push(e)[i] == s[i]);
                }
            }
        }
    }
}

/// Every event of `ordered_events(t)` is tracked.
pub proof fn lemma_ordered_events_tracked(t: Seq<TimelineEvent>)
    ensures
        forall|i: int| 0 <= i < ordered_events(t).len() ==> is_tracked(#[trigger] ordered_events(t)[i]),
    decreases t.len(),
{
    if t.len() > 0 {
        lemma_ordered_events_tracked(t.drop_last());
        if is_tracked(t.last()) {
            let p = |x: TimelineEvent| is_tracked(x);
            lemma_insert_by_time_keeps(ordered_events(t.drop_last()), t.last(), p);
        }
    }
}

proof fn lemma_insert_split(s: Seq<TimelineEvent>, e: TimelineEvent, j: int)
    requires
        0 <= j <= s.len(),
        forall|m: int| j <= m < s.len() ==> chars_lt(event_time(e), event_time(#[trigger] s[m])),
    ensures
        insert_by_time(s, e) == insert_by_time(s.take(j), e) + s.skip(j),
    decreases s.len() - j,
{
    if j < s.len() {
        assert(chars_lt(event_time(e), event_time(s[s.len() - 1])));
        lemma_insert_split(s.drop_last(), e, j);
        assert(s.drop_last().take(j) =~= s.take(j));
        assert(s.drop_last().skip(j).push(s.last()) =~= s.skip(j));
        assert(insert_by_time(s.take(j), e) + s.drop_last().skip(j).push(s.last()) =~= (
        insert_by_time(s.take(j), e) + s.drop_last().skip(j)).push(s.last()));
    } else {
        assert(s.skip(j) =~= Seq::<TimelineEvent>::empty());
        assert(s.take(j) =~= s);
        assert(insert_by_time(s, e) + s.skip(j) =~= insert_by_time(s, e));
    }
}

/// The events of `t` at the positions `order`.
pub open spec fn events_at(t: Seq<TimelineEvent>, order: Seq<usize>) -> Seq<TimelineEvent> {
    order.map_values(|i: usize| t[i as int])
}

impl User {
    /// An account is a bot when GitHub types it `Bot` or its login ends in `[bot]`.
    pub fn is_bot(&self) -> (r: bool)
        ensures
            r == user_is_bot(*self),
    {
        opt_str_eq(&self.kind, "Bot") || ends_with(self.login.as_str(), "[bot]")
    }
}

fn login_or_someone_exec(u: &Option<User>) -> (r: String)
    ensures
        r@ == login_or_someone(*u),
{
    match u {
        Some(x) => x.login.clone(),
        None => String::from_str("someone"),
    }
}

impl TimelineEvent {
    /// The time the event is ordered by.
    pub fn event_time(&self) -> (r: &str)
        ensures
            r@ == event_time(*self),
    {
        proof {
            reveal_strlit("");
        }
        match &self.submitted_at {
            Some(t) => t.as_str(),
            None => match &self.updated_at {
                Some(t) => t.as_str(),
                None => match &self.created_at {
                    Some(t) => t.as_str(),
                    None => "",
                },
            },
        }
    }

    fn acting_user(&self) -> (r: &Option<User>)
        ensures
            *r == acting_user(*self),
    {
        if self.user.is_some() {
            &self.user
        } else if self.actor.is_some() {
            &self.actor
        } else if self.author.is_some() {
            &self.author
        } else {
            &self.committer
        }
    }

    /// The login the event is attributed to, or `someone`.
    pub fn actor_name(&self) -> (r: String)
        ensures
            r@ == actor_name(*self),
    {
        login_or_someone_exec(self.acting_user())
    }

    /// Whether the account the event is attributed to is a bot.
    pub fn actor_is_bot(&self) -> (r: bool)
        ensures
            r == actor_is_bot(*self),
    {
        match self.acting_user() {
            Some(u) => u.is_bot(),
            None => false,
        }
    }

    /// The body of the event, else its review dismissal message.
    pub fn detail_text(&self) -> (r: Option<String>)
        ensures
            opt_view(r) == detail_text(*self),
    {
        match &self.body {
            Some(b) => Some(b.clone()),
            None => match &self.dismissed_review {
                Some(review) => copy_opt(&review.dismissal_message),
                None => None,
            },
        }
    }

    /// The first non-blank line of the commit message, trimmed.
    pub fn cleaned_commit_message(&self) -> (r: Option<String>)
        ensures
            opt_view(r) == cleaned_commit_message(*self),
    {
        let source: &str = match &self.message {
            Some(m) => m.as_str(),
            None => match &self.commit {
                Some(c) => match &c.message {
                    Some(m) => m.as_str(),
                    None => {
                        return None;
                    },
                },
                None => {
                    return None;
                },
            },
        };
        let lines = split_on(source, '\n');
        let ghost all = views(lines@);
        let mut i: usize = 0;
        proof {
            assert(all.skip(0) =~= all);
        }
        while i < lines.len()
            invariant
                all == views(lines@),
                all == split_char(commit_message_source(*self)->0, '\n'),
                commit_message_source(*self) is Some,
                i <= lines@.len(),
                first_nonblank_line(all) == first_nonblank_line(all.skip(i as int)),
            decreases lines.len() - i,
        {
            let t = trim(lines[i].as_str());
            proof {
                assert(all.skip(i as int)[0] == lines@[i as int]@);
            }
            if !t.is_empty() {
                return Some(copy_str(t));
            }
            proof {
                assert(all.skip(i as int).drop_first() =~= all.skip(i + 1));
            }
            i += 1;
        }
        None
    }
}

fn is_tracked_kind_exec(k: &str) -> (r: bool)
    ensures
        r == is_tracked_kind(k@),
{
    str_eq(k, "reviewed") || str_eq(k, "commented") || str_eq(k, "committed") || str_eq(k, "merged")
        || str_eq(k, "assigned") || str_eq(k, "unassigned") || str_eq(k, "labeled") || str_eq(
        k,
        "unlabeled",
    ) || str_eq(k, "review_requested") || str_eq(k, "review_request_removed") || str_eq(
        k,
        "review_dismissed",
    ) || str_eq(k, "closed") || str_eq(k, "reopened") || str_eq(k, "ready_for_review") || str_eq(
        k,
        "convert_to_draft",
    )
}

fn is_tracked_exec(e: &TimelineEvent) -> (r: bool)
    ensures
        r == is_tracked(*e),
{
    match &e.event {
        Some(k) => is_tracked_kind_exec(k.as_str()),
        None => false,
    }
}

/// The positions of the tracked events of `t`, stably sorted by event time.
fn time_order(t: &[TimelineEvent]) -> (order: Vec<usize>)
    ensures
        forall|i: int| 0 <= i < order@.len() ==> order@[i] < t@.len(),
        events_at(t@, order@) == ordered_events(t@),
{
    let mut times: Vec<Vec<char>> = Vec::new();
    let mut k: usize = 0;
    while k < t.len()
        invariant
            k <= t@.len(),
            times@.len() == k,
            forall|i: int| 0 <= i < k ==> (#[trigger] times@[i])@ == event_time(t@[i]),
        decreases t.len() - k,
    {
        times.push(chars_of(t[k].event_time()));
        k += 1;
    }
    let mut order: Vec<usize> = Vec::new();
    k = 0;
    proof {
        assert(t@.take(0) =~= Seq::<TimelineEvent>::empty());
        assert(events_at(t@, order@) =~= Seq::<TimelineEvent>::empty());
    }
    while k < t.len()
        invariant
            k <= t@.len(),
            times@.len() == t@.len(),
            forall|i: int| 0 <= i < t@.len() ==> (#[trigger] times@[i])@ == event_time(t@[i]),
            forall|i: int| 0 <= i < order@.len() ==> order@[i] < k,
            events_at(t@, order@) == ordered_events(t@.take(k as int)),
        decreases t.len() - k,
    {
        proof {
            assert(t@.take(k + 1).drop_last() =~= t@.take(k as int));
            assert(t@.take(k + 1).last() == t@[k as int]);
        }
        if is_tracked_exec(&t[k]) {
            let ghost s = events_at(t@, order@);
            let mut j = order.len();
            while j > 0 && chars_lt_exec(&times[k], &times[order[j - 1]])
                invariant
                    j <= order@.len(),
                    k < t@.len(),
                    times@.len() == t@.len(),
                    forall|i: int| 0 <= i < t@.len() ==> (#[trigger] times@[i])@ == event_time(t@[i]),
                    forall|i: int| 0 <= i < order@.len() ==> order@[i] < k,
                    s == events_at(t@, order@),
                    forall|m: int| j <= m < s.len() ==> chars_lt(event_time(t@[k as int]), event_time(#[trigger] s[m])),
                decreases j,
            {
                j -= 1;
            }
            proof {
                lemma_insert_split(s, t@[k as int], j as int);
                if j > 0 {
                    assert(s.take(j as int).last() == s[j - 1]);
                }
                assert(insert_by_time(s.take(j as int), t@[k as int]) =~= s.take(j as int).push(t@[k as int]));
            }
            order.insert(j, k);
            proof {
                assert(events_at(t@, order@) =~= s.take(j as int).push(t@[k as int]) + s.skip(j as int));
            }
        }
        k += 1;
    }
    proof {
        assert(t@.take(t@.len() as int) =~= t@);
    }
    order
}


proof fn lemma_committed_run_suffix(events: Seq<TimelineEvent>, actor: Seq<char>, s: int)
    requires
        0 <= s <= events.len(),
        forall|m: int| s <= m < events.len() ==> is_commit_by(#[trigger] events[m], actor),
        s == 0 || !is_commit_by(events[s - 1], actor),
    ensures
        committed_run(events, actor) == events.subrange(s, events.len() as int),
    decreases events.len(),
{
    if s == events.len() {
        assert(events.subrange(s, events.len() as int) =~= Seq::<TimelineEvent>::empty());
    } else {
        assert(is_commit_by(events[events.len() - 1], actor));
        lemma_committed_run_suffix(events.drop_last(), actor, s);
        assert(events.drop_last().subrange(s, events.len() - 1).push(events.last()) =~= events.subrange(
            s,
            events.len() as int,
        ));
    }
}

fn is_commit_by_exec(e: &TimelineEvent, actor: &str) -> (r: bool)
    ensures
        r == is_commit_by(*e, actor@),
{
    opt_str_eq(&e.event, "committed") && str_eq(e.actor_name().as_str(), actor)
}

/// The size and the detail of the run of commits by `actor` that ends the
/// time-ordered events.
fn commit_group(t: &[TimelineEvent], order: &Vec<usize>, actor: &str) -> (r: (usize, Option<String>))
    requires
        forall|i: int| 0 <= i < order@.len() ==> order@[i] < t@.len(),
    ensures
        r.0 == committed_run(events_at(t@, order@), actor@).len(),
        opt_view(r.1) == commit_detail(committed_run(events_at(t@, order@), actor@)),
{
    let ghost events = events_at(t@, order@);
    let mut s = order.len();
    while s > 0 && is_commit_by_exec(&t[order[s - 1]], actor)
        invariant
            s <= order@.len(),
            events == events_at(t@, order@),
            forall|i: int| 0 <= i < order@.len() ==> order@[i] < t@.len(),
            forall|m: int| s <= m < events.len() ==> is_commit_by(#[trigger] events[m], actor@),
        decreases s,
    {
        s -= 1;
    }
    proof {
        lemma_committed_run_suffix(events, actor@, s as int);
    }
    let mut msgs: Vec<String> = Vec::new();
    let mut m = s;
    proof {
        assert(events.subrange(s as int, s as int) =~= Seq::<TimelineEvent>::empty());
        assert(views(msgs@) =~= Seq::<Seq<char>>::empty());
    }
    while m < order.len()
        invariant
            s <= m <= order@.len(),
            events == events_at(t@, order@),
            forall|i: int| 0 <= i < order@.len() ==> order@[i] < t@.len(),
            views(msgs@) == commit_messages(events.subrange(s as int, m as int)),
        decreases order.len() - m,
    {
        proof {
            assert(events.subrange(s as int, m + 1).drop_last() =~= events.subrange(s as int, m as int));
            assert(events.subrange(s as int, m + 1).last() == t@[order@[m as int] as int]);
        }
        match t[order[m]].cleaned_commit_message() {
            Some(msg) => {
                msgs.push(msg);
                proof {
                    assert(views(msgs@) =~= commit_messages(events.subrange(s as int, m as int)).push(msg@));
                }
            },
            None => {},
        }
        m += 1;
    }
    let ghost all = views(msgs@);
    msgs.truncate(3);
    proof {
        assert(views(msgs@) =~= first_three(all));
    }
    let detail = join(&msgs, "\n");
    let count = order.len() - s;
    if detail.as_str().is_empty() {
        (count, None)
    } else {
        (count, Some(detail))
    }
}

fn review_kind_exec(state: &Option<String>) -> (r: String)
    ensures
        r@ == review_kind(*state),
{
    match state {
        Some(s) => {
            let upper = to_ascii_uppercase(s.as_str());
            if str_eq(upper.as_str(), "APPROVED") {
                String::from_str("review_approved")
            } else if str_eq(upper.as_str(), "CHANGES_REQUESTED") {
                String::from_str("review_changes_requested")
            } else {
                String::from_str("reviewed")
            }
        },
        None => String::from_str("reviewed"),
    }
}

fn label_name_or_unknown_exec(l: &Option<Label>) -> (r: String)
    ensures
        r@ == label_name_or_unknown(*l),
{
    match l {
        Some(x) => x.name.clone(),
        None => String::from_str("unknown"),
    }
}

fn requested_target_exec(e: &TimelineEvent) -> (r: String)
    ensures
        r@ == requested_target(*e),
{
    match &e.requested_reviewer {
        Some(u) => u.login.clone(),
        None => match &e.requested_team {
            Some(team) => team.slug.clone(),
            None => String::from_str("someone"),
        },
    }
}

fn prefixed(prefix: &str, rest: &str) -> (r: String)
    ensures
        r@ == prefix@ + rest@,
{
    let mut d = String::from_str(prefix);
    d.append(rest);
    d
}

impl TimelineActivity {
    /// Summarises a timeline by its newest tracked event (stably ordered by
    /// event time); none when no event is tracked.
    pub fn from_timeline(timeline: &[TimelineEvent]) -> (r: Option<TimelineActivity>)
        ensures
            opt_activity_view(r) == timeline_activity(timeline@),
    {
        let order = time_order(timeline);
        if order.len() == 0 {
            return None;
        }
        let ghost events = ordered_events(timeline@);
        proof {
            lemma_ordered_events_tracked(timeline@);
            assert(is_tracked(events[events.len() - 1]));
        }
        let last = &timeline[order[order.len() - 1]];
        proof {
            assert(events.last() == *last);
        }
        let kind: &str = match &last.event {
            Some(k) => k.as_str(),
            None => {
                return None;
            },
        };
        let actor = last.actor_name();
        let actor_is_bot = last.actor_is_bot();
        if str_eq(kind, "reviewed") {
            Some(TimelineActivity {
                kind: review_kind_exec(&last.state),
                actor,
                actor_is_bot,
                detail: last.detail_text(),
                commit_count: None,
            })
        } else if str_eq(kind, "committed") {
            let (count, detail) = commit_group(timeline, &order, actor.as_str());
            Some(TimelineActivity {
                kind: copy_str(kind),
                actor,
                actor_is_bot,
                detail,
                commit_count: Some(count),
            })
        } else if str_eq(kind, "assigned") {
            let who = login_or_someone_exec(&last.assignee);
            Some(TimelineActivity {
                kind: copy_str(kind),
                actor,
                actor_is_bot,
                detail: Some(prefixed("Assigned to @", who.as_str())),
                commit_count: None,
            })
        } else if str_eq(kind, "unassigned") {
            let who = login_or_someone_exec(&last.assignee);
            Some(TimelineActivity {
                kind: copy_str(kind),
                actor,
                actor_is_bot,
                detail: Some(prefixed("Unassigned from @", who.as_str())),
                commit_count: None,
            })
        } else if str_eq(kind, "labeled") {
            let name = label_name_or_unknown_exec(&last.label);
            Some(TimelineActivity {
                kind: copy_str(kind),
                actor,
                actor_is_bot,
                detail: Some(prefixed("Added label: ", name.as_str())),
                commit_count: None,
            })
        } else if str_eq(kind, "unlabeled") {
            let name = label_name_or_unknown_exec(&last.label);
            Some(TimelineActivity {
                kind: copy_str(kind),
                actor,
                actor_is_bot,
                detail: Some(prefixed("Removed label: ", name.as_str())),
                commit_count: None,
            })
        } else if str_eq(kind, "review_requested") || str_eq(kind, "review_request_removed") {
            let target = requested_target_exec(last);
            let detail = if str_eq(kind, "review_requested") {
                prefixed("Requested from @", target.as_str())
            } else {
                prefixed("Removed for @", target.as_str())
            };
            let (who, requester_bot) = match &last.review_requester {
                Some(u) => (u.login.clone(), u.is_bot()),
                None => (actor, false),
            };
            Some(TimelineActivity {
                kind: copy_str(kind),
                actor: who,
                actor_is_bot: requester_bot || actor_is_bot,
                detail: Some(detail),
                commit_count: None,
            })
        } else {
            Some(TimelineActivity {
                kind: copy_str(kind),
                actor,
                actor_is_bot,
                detail: last.detail_text(),
                commit_count: None,
            })
        }
    }
}


/// The timeline address of an issue or pull request subject: `/pulls/` is
/// rewritten to `/issues/` and `/timeline?per_page=100` appended; any other
/// address is refused with a message naming it.
pub open spec fn timeline_url_of(subject_url: Seq<char>) -> Result<Seq<char>, Seq<char>> {
    if contains_seq(subject_url, "/pulls/"@) {
        Ok(replaced(subject_url, "/pulls/"@, "/issues/"@) + "/timeline?per_page=100"@)
    } else if contains_seq(subject_url, "/issues/"@) {
        Ok(subject_url + "/timeline?per_page=100"@)
    } else {
        Err("unsupported subject URL for timeline: "@ + subject_url)
    }
}

/// The timeline address of a subject address (see [`timeline_url_of`]).
pub fn timeline_url(subject_url: &str) -> (r: Result<String, String>)
    ensures
        match r {
            Ok(u) => timeline_url_of(subject_url@) == Ok::<Seq<char>, Seq<char>>(u@),
            Err(m) => timeline_url_of(subject_url@) == Err::<Seq<char>, Seq<char>>(m@),
        },
{
    if contains(subject_url, "/pulls/") {
        proof {
            reveal_strlit("/pulls/");
        }
        let mut u = replace(subject_url, "/pulls/", "/issues/");
        u.append("/timeline?per_page=100");
        return Ok(u);
    }
    if contains(subject_url, "/issues/") {
        let mut u = copy_str(subject_url);
        u.append("/timeline?per_page=100");
        return Ok(u);
    }
    let mut m = String::from_str("unsupported subject URL for timeline: ");
    m.append(subject_url);
    Err(m)
}


/// Events in this order never have a later event before an earlier one.
pub open spec fn is_time_sorted(s: Seq<TimelineEvent>) -> bool {
    forall|i: int, j: int| 0 <= i < j < s.len() ==> !chars_lt(event_time(#[trigger] s[j]), event_time(#[trigger] s[i]))
}

proof fn lemma_not_lt_transitive(a: Seq<char>, b: Seq<char>, c: Seq<char>)
    requires
        !chars_lt(b, a),
        !chars_lt(c, b),
    ensures
        !chars_lt(c, a),
{
    if chars_lt(c, a) {
        if b == c {
        } else if chars_lt(b, c) {
            crate::text::lemma_chars_lt_transitive(b, c, a);
        } else {
            crate::text::lemma_chars_lt_total(b, c);
        }
    }
}

proof fn lemma_insert_by_time_sorted(s: Seq<TimelineEvent>, e: TimelineEvent)
    requires
        is_time_sorted(s),
    ensures
        is_time_sorted(insert_by_time(s, e)),
        insert_by_time(s, e).len() == s.len() + 1,
        insert_by_time(s, e).last() == e || (s.len() > 0 && insert_by_time(s, e).last() == s.last()),
    decreases s.len(),
{
    lemma_insert_by_time_len(s, e);
    if s.len() == 0 {
    } else if !chars_lt(event_time(e), event_time(s.last())) {
        let r = s.push(e);
        assert forall|i: int, j: int| 0 <= i < j < r.len() implies !chars_lt(event_time(#[trigger] r[j]), event_time(
            #[trigger] r[i],
        )) by {
            if j == s.len() {
                if i < s.len() - 1 {
                    assert(!chars_lt(event_time(s[s.len() - 1]), event_time(s[i])));
                    lemma_not_lt_transitive(event_time(s[i]), event_time(s[s.len() - 1]), event_time(e));
                } else {
                    assert(r[i] == s.last());
                }
            } else {
                assert(r[i] == s[i]);
                assert(r[j] == s[j]);
            }
        }
    } else {
        let d = s.drop_last();
        assert(is_time_sorted(d)) by {
            assert forall|i: int, j: int| 0 <= i < j < d.len() implies !chars_lt(event_time(#[trigger] d[j]), event_time(
                #[trigger] d[i],
            )) by {
                assert(d[i] == s[i]);
                assert(d[j] == s[j]);
            }
        }
        lemma_insert_by_time_sorted(d, e);
        let m = insert_by_time(d, e);
        let r = m.push(s.last());
        let p = |x: TimelineEvent| !chars_lt(event_time(s.last()), event_time(x));
        assert(p(e)) by {
            if chars_lt(event_time(s.last()), event_time(e)) {
                crate::text::lemma_chars_lt_transitive(event_time(e), event_time(s.last()), event_time(e));
                crate::text::lemma_chars_lt_irreflexive(event_time(e));
            }
        }
        assert forall|k: int| 0 <= k < d.len() implies p(#[trigger] d[k]) by {
            assert(d[k] == s[k]);
            assert(!chars_lt(event_time(s[s.len() - 1]), event_time(s[k])));
        }
        lemma_insert_by_time_keeps(d, e, p);
        lemma_insert_by_time_len(d, e);
        assert forall|i: int, j: int| 0 <= i < j < r.len() implies !chars_lt(event_time(#[trigger] r[j]), event_time(
            #[trigger] r[i],
        )) by {
            if j == m.len() {
                assert(r[i] == m[i]);
                assert(p(m[i]));
            } else {
                assert(r[i] == m[i]);
                assert(r[j] == m[j]);
            }
        }
    }
}

/// The tracked events are ordered by time: no event comes after a later one.
pub proof fn law_ordered_events_are_time_sorted(t: Seq<TimelineEvent>)
    ensures
        is_time_sorted(ordered_events(t)),
    decreases t.len(),
{
    if t.len() > 0 {
        law_ordered_events_are_time_sorted(t.drop_last());
        if is_tracked(t.last()) {
            lemma_insert_by_time_sorted(ordered_events(t.drop_last()), t.last());
        }
    }
}

/// The activity of a timeline comes from an event no tracked event is later
/// than: the newest.
pub proof fn law_activity_comes_from_newest_event(t: Seq<TimelineEvent>)
    requires
        ordered_events(t).len() > 0,
    ensures
        forall|i: int|
            0 <= i < ordered_events(t).len() ==> !chars_lt(
                event_time(ordered_events(t).last()),
                event_time(#[trigger] ordered_events(t)[i]),
            ),
{
    law_ordered_events_are_time_sorted(t);
    let o = ordered_events(t);
    assert forall|i: int| 0 <= i < o.len() implies !chars_lt(event_time(o.last()), event_time(#[trigger] o[i])) by {
        if i < o.len() - 1 {
            assert(!chars_lt(event_time(o[o.len() - 1]), event_time(o[i])));
        } else {
            crate::text::lemma_chars_lt_irreflexive(event_time(o[i]));
        }
    }
}

/// The tracked events of `t`, in their order in `t`.
pub open spec fn tracked_events(t: Seq<TimelineEvent>) -> Seq<TimelineEvent>
    decreases t.len(),
{
    if t.len() == 0 {
        Seq::empty()
    } else if is_tracked(t.last()) {
        tracked_events(t.drop_last()).push(t.last())
    } else {
        tracked_events(t.drop_last())
    }
}

/// Events of `s` with the same time are the same event.
pub open spec fn times_identify(s: Seq<TimelineEvent>) -> bool {
    forall|x: TimelineEvent, y: TimelineEvent|
        #[trigger] s.contains(x) && #[trigger] s.contains(y) && event_time(x) == event_time(y) ==> x == y
}

proof fn lemma_insert_by_time_multiset(s: Seq<TimelineEvent>, e: TimelineEvent)
    ensures
        insert_by_time(s, e).to_multiset() == s.to_multiset().insert(e),
    decreases s.len(),
{
    broadcast use vstd::seq_lib::group_to_multiset_ensures;

    if s.len() > 0 && chars_lt(event_time(e), event_time(s.last())) {
        let d = s.drop_last();
        lemma_insert_by_time_multiset(d, e);
        assert(s =~= d.push(s.last()));
        assert(insert_by_time(s, e).to_multiset() =~= d.to_multiset().insert(e).insert(s.last()));
        assert(s.to_multiset() =~= d.to_multiset().insert(s.last()));
    } else if s.len() == 0 {
        assert(seq![e] =~= Seq::<TimelineEvent>::empty().push(e));
    }
}

proof fn lemma_ordered_events_multiset(t: Seq<TimelineEvent>)
    ensures
        ordered_events(t).to_multiset() == tracked_events(t).to_multiset(),
    decreases t.len(),
{
    broadcast use vstd::seq_lib::group_to_multiset_ensures;

    if t.len() > 0 {
        lemma_ordered_events_multiset(t.drop_last());
        if is_tracked(t.last()) {
            lemma_insert_by_time_multiset(ordered_events(t.drop_last()), t.last());
        }
    }
}

proof fn lemma_times_identify_drop_last(s: Seq<TimelineEvent>)
    requires
        times_identify(s),
        s.len() > 0,
    ensures
        times_identify(s.drop_last()),
{
    assert forall|x: TimelineEvent, y: TimelineEvent|
        #[trigger] s.drop_last().contains(x) && #[trigger] s.drop_last().contains(y) && event_time(x)
            == event_time(y) implies x == y by {
        let i = choose|i: int| 0 <= i < s.drop_last().len() && s.drop_last()[i] == x;
        let j = choose|j: int| 0 <= j < s.drop_last().len() && s.drop_last()[j] == y;
        assert(s[i] == x && s[j] == y);
        assert(s.contains(x) && s.contains(y));
    }
}

proof fn lemma_time_sorted_drop_last(s: Seq<TimelineEvent>)
    requires
        is_time_sorted(s),
        s.len() > 0,
    ensures
        is_time_sorted(s.drop_last()),
{
    let d = s.drop_last();
    assert forall|i: int, j: int| 0 <= i < j < d.len() implies !chars_lt(event_time(#[trigger] d[j]), event_time(
        #[trigger] d[i],
    )) by {
        assert(d[i] == s[i] && d[j] == s[j]);
    }
}

/// Two time-ordered sequences of the same events, in which events with the
/// same time are the same event, are equal.
proof fn lemma_sorted_events_unique(a: Seq<TimelineEvent>, b: Seq<TimelineEvent>)
    requires
        is_time_sorted(a),
        is_time_sorted(b),
        times_identify(a),
        a.to_multiset() == b.to_multiset(),
    ensures
        a == b,
    decreases a.len(),
{
    broadcast use vstd::seq_lib::group_to_multiset_ensures;

    assert(a.len() == a.to_multiset().len());
    assert(b.len() == b.to_multiset().len());
    if a.len() == 0 {
        assert(a =~= b);
    } else {
        let n = a.len() - 1;
        let x = a.last();
        let y = b.last();
        assert(a.contains(x)) by {
            assert(a[n] == x);
        }
        assert(b.contains(y)) by {
            assert(b[n] == y);
        }
        assert(a.to_multiset().count(x) > 0);
        assert(b.contains(x));
        assert(b.to_multiset().count(y) > 0);
        assert(a.contains(y));
        if x != y {
            let m = choose|m: int| 0 <= m < b.len() && b[m] == x;
            let k = choose|k: int| 0 <= k < a.len() && a[k] == y;
            assert(m != n);
            assert(k != n);
            assert(!chars_lt(event_time(b[n]), event_time(b[m])));
            assert(!chars_lt(event_time(a[n]), event_time(a[k])));
            assert(event_time(x) != event_time(y));
            crate::text::lemma_chars_lt_total(event_time(x), event_time(y));
            assert(false);
        }
        let da = a.drop_last();
        let db = b.drop_last();
        assert(a.remove(n) =~= da);
        assert(b.remove(n) =~= db);
        assert(da.to_multiset() =~= a.to_multiset().remove(x));
        assert(db.to_multiset() =~= b.to_multiset().remove(y));
        lemma_time_sorted_drop_last(a);
        lemma_time_sorted_drop_last(b);
        lemma_times_identify_drop_last(a);
        lemma_sorted_events_unique(da, db);
        assert(a =~= da.push(x));
        assert(b =~= db.push(y));
    }
}

/// The order in which a timeline lists its events does not matter when no
/// two different tracked events share a time: timelines with the same tracked
/// events (any untracked ones aside) order them alike and have the same
/// summary.
pub proof fn law_activity_ignores_event_order(t1: Seq<TimelineEvent>, t2: Seq<TimelineEvent>)
    requires
        tracked_events(t1).to_multiset() == tracked_events(t2).to_multiset(),
        times_identify(tracked_events(t1)),
    ensures
        ordered_events(t1) == ordered_events(t2),
        timeline_activity(t1) == timeline_activity(t2),
{
    broadcast use vstd::seq_lib::group_to_multiset_ensures;

    lemma_ordered_events_multiset(t1);
    lemma_ordered_events_multiset(t2);
    law_ordered_events_are_time_sorted(t1);
    law_ordered_events_are_time_sorted(t2);
    let a = ordered_events(t1);
    let tr = tracked_events(t1);
    assert forall|x: TimelineEvent| a.contains(x) <==> tr.contains(x) by {
        assert(a.contains(x) <==> a.to_multiset().count(x) > 0);
        assert(tr.contains(x) <==> tr.to_multiset().count(x) > 0);
    }
    assert(times_identify(a)) by {
        assert forall|x: TimelineEvent, y: TimelineEvent|
            #[trigger] a.contains(x) && #[trigger] a.contains(y) && event_time(x) == event_time(y) implies x
                == y by {
            assert(tr.contains(x) && tr.contains(y));
        }
    }
    lemma_sorted_events_unique(a, ordered_events(t2));
}

proof fn lemma_ordered_events_from(t: Seq<TimelineEvent>)
    ensures
        forall|x: TimelineEvent| #[trigger] ordered_events(t).contains(x) ==> t.contains(x),
    decreases t.len(),
{
    if t.len() > 0 {
        let d = t.drop_last();
        lemma_ordered_events_from(d);
        let p = |x: TimelineEvent| t.contains(x);
        let o = ordered_events(d);
        assert forall|i: int| 0 <= i < o.len() implies p(#[trigger] o[i]) by {
            assert(o.contains(o[i]));
            let j = choose|j: int| 0 <= j < d.len() && d[j] == o[i];
            assert(t[j] == o[i]);
        }
        assert(p(t.last())) by {
            assert(t[t.len() - 1] == t.last());
        }
        if is_tracked(t.last()) {
            lemma_insert_by_time_keeps(o, t.last(), p);
            let r = insert_by_time(o, t.last());
            assert forall|x: TimelineEvent| #[trigger] r.contains(x) implies t.contains(x) by {
                let i = choose|i: int| 0 <= i < r.len() && r[i] == x;
                assert(p(r[i]));
            }
        } else {
            assert forall|x: TimelineEvent| #[trigger] o.contains(x) implies t.contains(x) by {
                let i = choose|i: int| 0 <= i < o.len() && o[i] == x;
                assert(p(o[i]));
            }
        }
    }
}

/// An event of one of GitHub's fifteen summarised kinds (`reviewed`,
/// `commented`, `committed`, `merged`, `assigned`, `unassigned`, `labeled`,
/// `unlabeled`, `review_requested`, `review_request_removed`,
/// `review_dismissed`, `closed`, `reopened`, `ready_for_review`,
/// `convert_to_draft`) that is not older than any event before it becomes
/// the activity: its kind (a review's kind says how it ended) and, except for
/// review requests, which name who asked, its actor.
pub proof fn law_newest_tracked_event_is_the_activity(t: Seq<TimelineEvent>, e: TimelineEvent)
    requires
        e.event is Some,
        ({
            let k = e.event->0@;
            ||| k == "reviewed"@
            ||| k == "commented"@
            ||| k == "committed"@
            ||| k == "merged"@
            ||| k == "assigned"@
            ||| k == "unassigned"@
            ||| k == "labeled"@
            ||| k == "unlabeled"@
            ||| k == "review_requested"@
            ||| k == "review_request_removed"@
            ||| k == "review_dismissed"@
            ||| k == "closed"@
            ||| k == "reopened"@
            ||| k == "ready_for_review"@
            ||| k == "convert_to_draft"@
        }),
        forall|i: int| 0 <= i < t.len() ==> !chars_lt(event_time(e), event_time(#[trigger] t[i])),
    ensures
        timeline_activity(t.push(e)) is Some,
        e.event->0@ != "reviewed"@ ==> timeline_activity(t.push(e))->0.kind == e.event->0@,
        e.event->0@ == "reviewed"@ ==> ({
            let kind = timeline_activity(t.push(e))->0.kind;
            kind == "reviewed"@ || kind == "review_approved"@ || kind == "review_changes_requested"@
        }),
        e.event->0@ != "review_requested"@ && e.event->0@ != "review_request_removed"@ ==> (timeline_activity(
            t.push(e),
        )->0.actor == actor_name(e) && timeline_activity(t.push(e))->0.actor_is_bot == actor_is_bot(e)),
{
    let tp = t.push(e);
    assert(tp.drop_last() =~= t);
    assert(tp.last() == e);
    assert(is_tracked(e));
    let o = ordered_events(t);
    assert(ordered_events(tp) == insert_by_time(o, e));
    if o.len() > 0 {
        lemma_ordered_events_from(t);
        assert(o.contains(o.last())) by {
            assert(o[o.len() - 1] == o.last());
        }
        let i = choose|i: int| 0 <= i < t.len() && t[i] == o.last();
        assert(!chars_lt(event_time(e), event_time(t[i])));
        assert(ordered_events(tp) == o.push(e));
    } else {
        assert(ordered_events(tp) == seq![e]);
    }
    assert(ordered_events(tp).last() == e);
}

/// An event of any other kind, or of none, changes nothing in the summary.
pub proof fn law_untracked_event_is_ignored(t: Seq<TimelineEvent>, e: TimelineEvent)
    requires
        e.event is Some ==> !({
            let k = e.event->0@;
            ||| k == "reviewed"@
            ||| k == "commented"@
            ||| k == "committed"@
            ||| k == "merged"@
            ||| k == "assigned"@
            ||| k == "unassigned"@
            ||| k == "labeled"@
            ||| k == "unlabeled"@
            ||| k == "review_requested"@
            ||| k == "review_request_removed"@
            ||| k == "review_dismissed"@
            ||| k == "closed"@
            ||| k == "reopened"@
            ||| k == "ready_for_review"@
            ||| k == "convert_to_draft"@
        }),
    ensures
        timeline_activity(t.push(e)) == timeline_activity(t),
{
    let tp = t.push(e);
    assert(tp.drop_last() =~= t);
    assert(!is_tracked(e));
    assert(ordered_events(tp) == ordered_events(t));
}

} // verus!
