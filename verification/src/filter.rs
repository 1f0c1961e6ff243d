//! The facts of a notification that block rules test, and the rules themselves.

use vstd::prelude::*;

use crate::config::{BlockRule, FiltersConfig};
use crate::github::model::{opt_view, ActivityView, PullRequestDetails, Thread, TimelineActivity, TimelineEvent, User};
use crate::github::timeline::{opt_activity_view, timeline_activity, user_is_bot};
use crate::text::{
    ascii_lowercase, copy_str, eq_ignore_ascii_case, first_char_index, split_once_char, str_eq,
};
use crate::text::lemma_first_char_index;
use crate::wildcard::{glob_match, law_pattern_matches_itself, wildcard_matches};

verus! {

/// What block rules are tested against.
#[derive(Debug, Clone, PartialEq, Eq)]
pub struct NotificationFacts {
    pub repo_full_name: String,
    pub owner: String,
    pub subject_type: String,
    pub reason: String,
    pub title: Option<String>,
    pub activity: Option<String>,
    pub actor: Option<String>,
    pub actor_is_bot: bool,
}

/// The owner part of `owner/name`: what comes before the first `/`, or
/// nothing when there is no `/`.
pub open spec fn owner_of(full_name: Seq<char>) -> Seq<char> {
    if first_char_index(full_name, '/') < full_name.len() {
        full_name.take(first_char_index(full_name, '/'))
    } else {
        Seq::empty()
    }
}

/// A thread's reason, or `notification`.
pub open spec fn reason_or_default(t: Thread) -> Seq<char> {
    match t.reason {
        Some(r) => r@,
        None => "notification"@,
    }
}

/// A thread's subject type, or `Notification`.
pub open spec fn subject_type_or_default(t: Thread) -> Seq<char> {
    match t.subject.kind {
        Some(k) => k@,
        None => "Notification"@,
    }
}

/// The activity of an optional timeline.
pub open spec fn activity_for(timeline: Option<Seq<TimelineEvent>>) -> Option<ActivityView> {
    match timeline {
        Some(t) => timeline_activity(t),
        None => None,
    }
}

/// The activity ended a pull request by merging it: it is a merge, or a
/// close of a pull request that is merged.
pub open spec fn is_merge_activity(pr: Option<PullRequestDetails>, a: ActivityView) -> bool {
    pr is Some && (a.kind == "merged"@ || (a.kind == "closed"@ && pr->0.merged))
}

/// Who a notification is attributed to: for a merge, whoever the pull
/// request says merged it (else the activity's actor); otherwise the
/// activity's actor; nobody without an activity.
pub open spec fn facts_actor(pr: Option<PullRequestDetails>, a: Option<ActivityView>) -> Option<Seq<char>> {
    match a {
        Some(act) => if is_merge_activity(pr, act) {
            match pr->0.merged_by {
                Some(u) => Some(u.login@),
                None => Some(act.actor),
            }
        } else {
            Some(act.actor)
        },
        None => None,
    }
}

/// Whether a notification is attributed to a bot: for a merge, when the
/// merger or the activity's actor is one; otherwise when the activity's
/// actor is one.
pub open spec fn facts_actor_is_bot(pr: Option<PullRequestDetails>, a: Option<ActivityView>) -> bool {
    match a {
        Some(act) => if is_merge_activity(pr, act) {
            (pr->0.merged_by is Some && user_is_bot(pr->0.merged_by->0)) || act.actor_is_bot
        } else {
            act.actor_is_bot
        },
        None => false,
    }
}

/// The slice view of an optional timeline.
pub open spec fn opt_timeline(t: Option<&[TimelineEvent]>) -> Option<Seq<TimelineEvent>> {
    match t {
        Some(s) => Some(s@),
        None => None,
    }
}

/// The facts of a thread, given what enrichment found.
pub open spec fn facts_match(
    f: NotificationFacts,
    thread: Thread,
    pull_request: Option<PullRequestDetails>,
    timeline: Option<Seq<TimelineEvent>>,
) -> bool {
    let a = activity_for(timeline);
    &&& f.repo_full_name@ == thread.repository.full_name@
    &&& f.owner@ == owner_of(thread.repository.full_name@)
    &&& f.reason@ == reason_or_default(thread)
    &&& f.subject_type@ == subject_type_or_default(thread)
    &&& opt_view(f.title) == opt_view(thread.subject.title)
    &&& opt_view(f.activity) == match a {
        Some(act) => Some(act.kind),
        None => None::<Seq<char>>,
    }
    &&& opt_view(f.actor) == facts_actor(pull_request, a)
    &&& f.actor_is_bot == facts_actor_is_bot(pull_request, a)
}

/// Gathers the facts that block rules test for a thread.
pub fn build_notification_facts(
    thread: &Thread,
    pull_request: Option<&PullRequestDetails>,
    timeline: Option<&[TimelineEvent]>,
) -> (r: NotificationFacts)
    ensures
        facts_match(
            r,
            *thread,
            match pull_request {
                Some(p) => Some(*p),
                None => None,
            },
            opt_timeline(timeline),
        ),
{
    let activity = match timeline {
        Some(t) => TimelineActivity::from_timeline(t),
        None => None,
    };
    let ghost a = opt_activity_view(activity);
    let owner = match split_once_char(thread.repository.full_name.as_str(), '/') {
        Some((o, _)) => o,
        None => String::new(),
    };
    let reason = match &thread.reason {
        Some(r) => r.clone(),
        None => String::from_str("notification"),
    };
    let subject_type = match &thread.subject.kind {
        Some(k) => k.clone(),
        None => String::from_str("Notification"),
    };
    let (actor, actor_is_bot) = match &activity {
        Some(act) => {
            let merged_like = match pull_request {
                Some(p) => str_eq(act.kind.as_str(), "merged") || (str_eq(act.kind.as_str(), "closed") && p.merged),
                None => false,
            };
            if merged_like {
                let p = pull_request.unwrap();
                match &p.merged_by {
                    Some(u) => (Some(u.login.clone()), u.is_bot() || act.actor_is_bot),
                    None => (Some(act.actor.clone()), act.actor_is_bot),
                }
            } else {
                (Some(act.actor.clone()), act.actor_is_bot)
            }
        },
        None => (None, false),
    };
    let kind = match &activity {
        Some(act) => Some(act.kind.clone()),
        None => None,
    };
    NotificationFacts {
        repo_full_name: thread.repository.full_name.clone(),
        title: thread.subject.title.clone(),
        owner,
        subject_type,
        reason,
        activity: kind,
        actor,
        actor_is_bot,
    }
}

/// A rule that sets no field; such rules never block.
pub open spec fn is_empty_rule_spec(rule: BlockRule) -> bool {
    rule.repo is None && rule.owner is None && rule.title is None && rule.actor is None && rule.actor_is_bot is None
        && rule.reason is None && rule.subject_type is None && rule.activity is None
}

/// Two texts are equal when ASCII letters are compared without case.
pub open spec fn same_ignoring_ascii_case(a: Seq<char>, b: Seq<char>) -> bool {
    ascii_lowercase(a) == ascii_lowercase(b)
}

/// Every field a rule sets matches the facts: `repo`, `owner`, `title` and
/// `actor` as wildcard patterns (a title or actor pattern needs a title or an
/// actor); `actor_is_bot` needs
/// an actor and equal botness; `reason`, `subject_type` and `activity`
/// compared without ASCII case (an activity rule needs an activity).
pub open spec fn rule_matches(rule: BlockRule, f: NotificationFacts) -> bool {
    &&& rule.repo matches Some(p) ==> glob_match(p@, f.repo_full_name@)
    &&& rule.owner matches Some(p) ==> glob_match(p@, f.owner@)
    &&& rule.title matches Some(p) ==> (f.title matches Some(t) && glob_match(p@, t@))
    &&& rule.actor matches Some(p) ==> (f.actor matches Some(a) && glob_match(p@, a@))
    &&& rule.actor_is_bot matches Some(expected) ==> (f.actor is Some && expected == f.actor_is_bot)
    &&& rule.reason matches Some(r) ==> same_ignoring_ascii_case(r@, f.reason@)
    &&& rule.subject_type matches Some(s) ==> same_ignoring_ascii_case(s@, f.subject_type@)
    &&& rule.activity matches Some(a) ==> (f.activity matches Some(c) && same_ignoring_ascii_case(a@, c@))
}

/// A rule blocks the facts: it sets some field and all it sets match.
pub open spec fn blocks(rule: BlockRule, f: NotificationFacts) -> bool {
    !is_empty_rule_spec(rule) && rule_matches(rule, f)
}

/// Position of the first rule that blocks the facts, or the number of rules.
pub open spec fn first_blocking(rules: Seq<BlockRule>, f: NotificationFacts) -> int
    decreases rules.len(),
{
    if rules.len() == 0 || blocks(rules[0], f) {
        0
    } else {
        1 + first_blocking(rules.drop_first(), f)
    }
}

proof fn lemma_first_blocking(rules: Seq<BlockRule>, f: NotificationFacts, i: int)
    requires
        0 <= i <= rules.len(),
        forall|j: int| 0 <= j < i ==> !blocks(#[trigger] rules[j], f),
        i == rules.len() || blocks(rules[i], f),
    ensures
        first_blocking(rules, f) == i,
    decreases rules.len(),
{
    if rules.len() > 0 && !blocks(rules[0], f) {
        assert forall|j: int| 0 <= j < i - 1 implies !blocks(#[trigger] rules.drop_first()[j], f) by {
            assert(rules.drop_first()[j] == rules[j + 1]);
        }
        lemma_first_blocking(rules.drop_first(), f, i - 1);
    }
}

/// The first rule that blocks the facts, if any.
pub fn matching_block_rule<'a>(filters: &'a FiltersConfig, facts: &NotificationFacts) -> (r: Option<&'a BlockRule>)
    ensures
        r is None <==> forall|i: int| 0 <= i < filters.block@.len() ==> !blocks(#[trigger] filters.block@[i], *facts),
        r matches Some(rule) ==> exists|i: int|
            0 <= i < filters.block@.len() && *rule == filters.block@[i] && blocks(filters.block@[i], *facts)
                && forall|j: int| 0 <= j < i ==> !blocks(#[trigger] filters.block@[j], *facts),
        r is Some == (first_blocking(filters.block@, *facts) < filters.block@.len()),
        r matches Some(rule) ==> *rule == filters.block@[first_blocking(filters.block@, *facts)],
{
    let mut i: usize = 0;
    while i < filters.block.len()
        invariant
            i <= filters.block@.len(),
            forall|j: int| 0 <= j < i ==> !blocks(#[trigger] filters.block@[j], *facts),
        decreases filters.block.len() - i,
    {
        let rule = &filters.block[i];
        if !is_empty_rule(rule) && matches_rule(rule, facts) {
            proof {
                lemma_first_blocking(filters.block@, *facts, i as int);
            }
            return Some(rule);
        }
        i += 1;
    }
    proof {
        lemma_first_blocking(filters.block@, *facts, i as int);
    }
    None
}

fn is_empty_rule(rule: &BlockRule) -> (r: bool)
    ensures
        r == is_empty_rule_spec(*rule),
{
    rule.repo.is_none() && rule.owner.is_none() && rule.title.is_none() && rule.actor.is_none() && rule.actor_is_bot.is_none()
        && rule.reason.is_none() && rule.subject_type.is_none() && rule.activity.is_none()
}

fn pattern_matches(pattern: &Option<String>, text: &str) -> (r: bool)
    ensures
        r == (pattern matches Some(p) ==> glob_match(p@, text@)),
{
    match pattern {
        Some(p) => wildcard_matches(p.as_str(), text),
        None => true,
    }
}

fn same_ignoring_case(expected: &Option<String>, text: &str) -> (r: bool)
    ensures
        r == (expected matches Some(e) ==> same_ignoring_ascii_case(e@, text@)),
{
    match expected {
        Some(e) => eq_ignore_ascii_case(e.as_str(), text),
        None => true,
    }
}

fn matches_rule(rule: &BlockRule, facts: &NotificationFacts) -> (r: bool)
    ensures
        r == rule_matches(*rule, *facts),
{
    let repo_ok = pattern_matches(&rule.repo, facts.repo_full_name.as_str());
    let owner_ok = pattern_matches(&rule.owner, facts.owner.as_str());
    let title_ok = match &rule.title {
        Some(p) => match &facts.title {
            Some(t) => wildcard_matches(p.as_str(), t.as_str()),
            None => false,
        },
        None => true,
    };
    let actor_ok = match &rule.actor {
        Some(p) => match &facts.actor {
            Some(a) => wildcard_matches(p.as_str(), a.as_str()),
            None => false,
        },
        None => true,
    };
    let bot_ok = match rule.actor_is_bot {
        Some(expected) => facts.actor.is_some() && expected == facts.actor_is_bot,
        None => true,
    };
    let reason_ok = same_ignoring_case(&rule.reason, facts.reason.as_str());
    let subject_ok = same_ignoring_case(&rule.subject_type, facts.subject_type.as_str());
    let activity_ok = match &rule.activity {
        Some(a) => match &facts.activity {
            Some(c) => eq_ignore_ascii_case(a.as_str(), c.as_str()),
            None => false,
        },
        None => true,
    };
    repo_ok && owner_ok && title_ok && actor_ok && bot_ok && reason_ok && subject_ok && activity_ok
}

/// A rule that sets no field blocks nothing.
pub proof fn law_empty_rule_blocks_nothing(rule: BlockRule, f: NotificationFacts)
    requires
        is_empty_rule_spec(rule),
    ensures
        !blocks(rule, f),
{
}

/// Rules are tried in order: rules added after the list change nothing for a
/// notification that the list already blocks, and for one it does not block
/// the first of the added rules that blocks it decides.
pub proof fn law_rules_apply_in_order(a: Seq<BlockRule>, b: Seq<BlockRule>, f: NotificationFacts)
    ensures
        first_blocking(a, f) < a.len() ==> first_blocking(a + b, f) == first_blocking(a, f),
        first_blocking(a, f) >= a.len() ==> first_blocking(a + b, f) == a.len() + first_blocking(b, f),
    decreases a.len(),
{
    if a.len() == 0 {
        assert(a + b =~= b);
    } else {
        assert((a + b).drop_first() =~= a.drop_first() + b);
        assert((a + b)[0] == a[0]);
        law_rules_apply_in_order(a.drop_first(), b, f);
    }
}

/// The rule sets no field but the one named `keep` (its `name` aside).
pub open spec fn sets_only(rule: BlockRule, keep: Seq<char>) -> bool {
    &&& (keep == "repo"@ || rule.repo is None)
    &&& (keep == "owner"@ || rule.owner is None)
    &&& (keep == "title"@ || rule.title is None)
    &&& (keep == "actor"@ || rule.actor is None)
    &&& (keep == "actor_is_bot"@ || rule.actor_is_bot is None)
    &&& (keep == "reason"@ || rule.reason is None)
    &&& (keep == "subject_type"@ || rule.subject_type is None)
    &&& (keep == "activity"@ || rule.activity is None)
}

/// A rule that sets one field tests exactly that field of the facts: `repo`
/// the full name, `owner` the owner, `title` the title and `actor` the actor
/// as wildcard patterns (title and actor only when there is one);
/// `actor_is_bot` the actor's botness (only when there is an actor);
/// `reason`, `subject_type` and `activity` their fields, ASCII letters
/// compared without case (activity only when there is one).
pub proof fn law_single_field_rules(rule: BlockRule, f: NotificationFacts)
    ensures
        rule.repo is Some && sets_only(rule, "repo"@) ==> (blocks(rule, f) <==> glob_match(
            rule.repo->0@,
            f.repo_full_name@,
        )),
        rule.owner is Some && sets_only(rule, "owner"@) ==> (blocks(rule, f) <==> glob_match(rule.owner->0@, f.owner@)),
        rule.title is Some && sets_only(rule, "title"@) ==> (blocks(rule, f) <==> (f.title is Some
            && glob_match(rule.title->0@, f.title->0@))),
        rule.actor is Some && sets_only(rule, "actor"@) ==> (blocks(rule, f) <==> (f.actor is Some
            && glob_match(rule.actor->0@, f.actor->0@))),
        rule.actor_is_bot is Some && sets_only(rule, "actor_is_bot"@) ==> (blocks(rule, f) <==> (
        f.actor is Some && f.actor_is_bot == rule.actor_is_bot->0)),
        rule.reason is Some && sets_only(rule, "reason"@) ==> (blocks(rule, f) <==> ascii_lowercase(rule.reason->0@)
            == ascii_lowercase(f.reason@)),
        rule.subject_type is Some && sets_only(rule, "subject_type"@) ==> (blocks(rule, f) <==> ascii_lowercase(
            rule.subject_type->0@,
        ) == ascii_lowercase(f.subject_type@)),
        rule.activity is Some && sets_only(rule, "activity"@) ==> (blocks(rule, f) <==> (f.activity is Some
            && ascii_lowercase(rule.activity->0@) == ascii_lowercase(f.activity->0@))),
{
    reveal_strlit("repo");
    reveal_strlit("owner");
    reveal_strlit("title");
    reveal_strlit("actor");
    reveal_strlit("actor_is_bot");
    reveal_strlit("reason");
    reveal_strlit("subject_type");
    reveal_strlit("activity");
    let names = seq!["repo"@, "owner"@, "title"@, "actor"@, "actor_is_bot"@, "reason"@, "subject_type"@, "activity"@];
    assert forall|a: int, b: int| 0 <= a < b < names.len() implies names[a] != names[b] by {
        if names[a] == names[b] {
            assert(names[a].len() == names[b].len());
            assert(names[a][0] == names[b][0]);
            assert(names[a][1] == names[b][1]);
            assert(names[a][5] == names[b][5]);
        }
    }
    assert(names[0] == "repo"@ && names[1] == "owner"@ && names[2] == "title"@ && names[3] == "actor"@);
    assert(names[4] == "actor_is_bot"@ && names[5] == "reason"@ && names[6] == "subject_type"@ && names[7]
        == "activity"@);
}

/// A rule whose owner pattern is a repository's owner, and that sets nothing
/// else, blocks every thread of that owner's repositories.
pub proof fn law_owner_rule_blocks_its_repositories(
    rule: BlockRule,
    f: NotificationFacts,
    thread: Thread,
    pull_request: Option<PullRequestDetails>,
    timeline: Option<Seq<TimelineEvent>>,
)
    requires
        facts_match(f, thread, pull_request, timeline),
        rule.owner is Some && rule.owner->0@ == owner_of(thread.repository.full_name@),
        sets_only(rule, "owner"@),
    ensures
        blocks(rule, f),
{
    law_single_field_rules(rule, f);
    law_pattern_matches_itself(f.owner@);
}

/// The owner of `owner/name` is `owner` (the part before the first `/`);
/// a name without `/` has no owner.
pub proof fn law_owner_is_before_the_first_slash(o: Seq<char>, n: Seq<char>)
    ensures
        !o.contains('/') ==> owner_of(o + "/"@ + n) == o,
        !o.contains('/') ==> owner_of(o) == Seq::<char>::empty(),
{
    reveal_strlit("/");
    if !o.contains('/') {
        let s = o + "/"@ + n;
        assert forall|j: int| 0 <= j < o.len() implies s[j] != '/' by {
            assert(s[j] == o[j]);
            if o[j] == '/' {
                assert(o.contains('/'));
            }
        }
        assert(s[o.len() as int] == '/');
        lemma_first_char_index(s, '/', o.len() as int);
        assert(s.take(o.len() as int) =~= o);
        assert forall|j: int| 0 <= j < o.len() implies o[j] != '/' by {
            if o[j] == '/' {
                assert(o.contains('/'));
            }
        }
        lemma_first_char_index(o, '/', o.len() as int);
    }
}

} // verus!
