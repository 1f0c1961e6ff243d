//! Rendering a thread into the title, body, link, icon, tags and priority of
//! an `ntfy` notification.

use vstd::prelude::*;

use crate::github::model::{opt_view, ActivityView, PullRequestDetails, Thread, TimelineActivity, TimelineEvent};
use crate::github::timeline::{opt_activity_view, timeline_activity};
use crate::text::{
    ascii_lowercase, chars_lt, chars_lt_exec, chars_of, copy_str, decimal, has_suffix, is_blank,
    join, joined, opt_str_eq, replace, replaced, split_char, split_on, str_eq, strip_suffix,
    to_ascii_lowercase, to_decimal, trim, trimmed, views, lemma_not_blank_when_starting_with_nonspace,
};

verus! {

/// The icon shown when the repository owner has no avatar.
pub const DEFAULT_ICON_URL: &'static str = "https://github.githubassets.com/images/modules/logos_page/GitHub-Mark.png";

/// A notification ready to publish.
#[derive(Debug, Clone)]
pub struct RenderedNotification {
    pub dedupe_key: String,
    pub sequence_id: String,
    pub title: String,
    pub message: String,
    pub actions: Option<String>,
    pub click_url: String,
    pub icon_url: String,
    pub tags: String,
    pub priority: u8,
}

/// The subject type of a thread is `kind`.
pub open spec fn kind_is(thread: Thread, kind: Seq<char>) -> bool {
    thread.subject.kind is Some && thread.subject.kind->0@ == kind
}

/// The reason of a thread is `reason`.
pub open spec fn reason_is(thread: Thread, reason: Seq<char>) -> bool {
    thread.reason is Some && thread.reason->0@ == reason
}

/// The subject title, else the repository's full name.
pub open spec fn base_title(thread: Thread) -> Seq<char> {
    match thread.subject.title {
        Some(t) => t@,
        None => thread.repository.full_name@,
    }
}

/// The word for a subject type.
pub open spec fn subject_label_of(kind: Option<String>) -> Seq<char> {
    if kind is Some && kind->0@ == "PullRequest"@ {
        "Pull request"@
    } else if kind is Some && kind->0@ == "Issue"@ {
        "Issue"@
    } else if kind is Some && kind->0@ == "Commit"@ {
        "Commit"@
    } else if kind is Some && kind->0@ == "Discussion"@ {
        "Discussion"@
    } else if kind is Some && kind->0@ == "Release"@ {
        "Release"@
    } else {
        "Notification"@
    }
}

/// The line that says why a notification arrived, from the thread's reason.
pub open spec fn base_message_of(thread: Thread) -> Seq<char> {
    let repo = thread.repository.full_name@;
    let subject = subject_label_of(thread.subject.kind);
    let lower = ascii_lowercase(subject);
    match thread.reason {
        Some(r) => if r@ == "assign"@ {
            subject + " assigned to you in "@ + repo
        } else if r@ == "author"@ {
            "Activity on your "@ + lower + " in "@ + repo
        } else if r@ == "comment"@ {
            "New comment on "@ + lower + " in "@ + repo
        } else if r@ == "ci_activity"@ {
            "CI activity on "@ + lower + " in "@ + repo
        } else if r@ == "invitation"@ {
            "Invitation for "@ + lower + " in "@ + repo
        } else if r@ == "manual"@ {
            "Manual notification for "@ + lower + " in "@ + repo
        } else if r@ == "mention"@ {
            "Mentioned you in "@ + lower + " in "@ + repo
        } else if r@ == "review_requested"@ {
            "Review requested on "@ + lower + " in "@ + repo
        } else if r@ == "security_alert"@ {
            "Security alert in "@ + repo
        } else if r@ == "state_change"@ {
            subject + " state changed in "@ + repo
        } else if r@ == "subscribed"@ {
            subject + " update in "@ + repo
        } else if r@ == "team_mention"@ {
            "Mentioned your team in "@ + lower + " in "@ + repo
        } else {
            subject + " notification ("@ + r@ + ") in "@ + repo
        },
        None => subject + " notification in "@ + repo,
    }
}

/// `@actor`, a verb phrase and a title.
pub open spec fn summary_line(actor: Seq<char>, verb: Seq<char>, title: Seq<char>) -> Seq<char> {
    "@"@ + actor + verb + title
}

/// `commit` for one, `commits` otherwise.
pub open spec fn commit_word(n: nat) -> Seq<char> {
    if n == 1 {
        "commit"@
    } else {
        "commits"@
    }
}

/// The reason names a mention of the user or of their team.
pub open spec fn is_mention(reason: Seq<char>) -> bool {
    reason == "mention"@ || reason == "team_mention"@
}

/// The summary line of a pull request activity.
pub open spec fn pull_request_summary(
    kind: Seq<char>,
    actor: Seq<char>,
    title: Seq<char>,
    reason: Seq<char>,
    commit_count: Option<nat>,
    is_merged: bool,
) -> Seq<char> {
    if kind == "review_approved"@ {
        summary_line(actor, " approved "@, title)
    } else if kind == "review_changes_requested"@ {
        summary_line(actor, " requested changes on "@, title)
    } else if kind == "reviewed"@ {
        summary_line(actor, " reviewed "@, title)
    } else if kind == "commented"@ && is_mention(reason) {
        summary_line(actor, " mentioned you in "@, title)
    } else if kind == "commented"@ {
        summary_line(actor, " commented on "@, title)
    } else if kind == "committed"@ {
        let n: nat = match commit_count {
            Some(c) => c,
            None => 1,
        };
        "@"@ + actor + " pushed "@ + decimal(n) + " "@ + commit_word(n) + " to "@ + title
    } else if kind == "merged"@ {
        summary_line(actor, " merged "@, title)
    } else if kind == "review_requested"@ {
        summary_line(actor, " requested review on "@, title)
    } else if kind == "review_request_removed"@ {
        summary_line(actor, " removed review request on "@, title)
    } else if kind == "review_dismissed"@ {
        summary_line(actor, " dismissed review on "@, title)
    } else if kind == "closed"@ && is_merged {
        summary_line(actor, " merged "@, title)
    } else if kind == "closed"@ {
        summary_line(actor, " closed "@, title)
    } else if kind == "reopened"@ {
        summary_line(actor, " reopened "@, title)
    } else if kind == "ready_for_review"@ {
        "@"@ + actor + " marked "@ + title + " ready for review"@
    } else if kind == "convert_to_draft"@ {
        "@"@ + actor + " converted "@ + title + " to draft"@
    } else {
        title
    }
}

/// The summary line of an issue activity.
pub open spec fn issue_summary(kind: Seq<char>, actor: Seq<char>, title: Seq<char>, reason: Seq<char>) -> Seq<char> {
    if kind == "commented"@ && is_mention(reason) {
        summary_line(actor, " mentioned you in "@, title)
    } else if kind == "commented"@ {
        summary_line(actor, " commented on "@, title)
    } else if kind == "closed"@ {
        summary_line(actor, " closed "@, title)
    } else if kind == "reopened"@ {
        summary_line(actor, " reopened "@, title)
    } else if kind == "assigned"@ {
        summary_line(actor, " assigned "@, title)
    } else if kind == "unassigned"@ {
        summary_line(actor, " unassigned "@, title)
    } else if kind == "labeled"@ {
        summary_line(actor, " labeled "@, title)
    } else if kind == "unlabeled"@ {
        summary_line(actor, " unlabeled "@, title)
    } else {
        title
    }
}

/// The non-blank lines of `lines`, trimmed, in order.
pub open spec fn nonblank_trimmed(lines: Seq<Seq<char>>) -> Seq<Seq<char>>
    decreases lines.len(),
{
    if lines.len() == 0 {
        Seq::empty()
    } else {
        let r = nonblank_trimmed(lines.drop_last());
        if is_blank(lines.last()) {
            r
        } else {
            r.push(trimmed(lines.last()))
        }
    }
}

/// A multi-line text with each line trimmed and blank lines left out.
pub open spec fn trimmed_multiline(s: Seq<char>) -> Seq<char> {
    joined(nonblank_trimmed(split_char(s, '\n')), "\n"@)
}

/// The message with the activity's detail on the line before it, when the
/// detail is not blank.
pub open spec fn with_detail(message: Seq<char>, detail: Option<Seq<char>>) -> Seq<char> {
    match detail {
        Some(d) => if !is_blank(d) {
            trimmed_multiline(d) + "\n"@ + message
        } else {
            message
        },
        None => message,
    }
}

/// The message with the summary on the line before it, when the summary is
/// not blank.
pub open spec fn with_summary(summary: Seq<char>, message: Seq<char>) -> Seq<char> {
    if is_blank(summary) {
        message
    } else {
        summary + "\n"@ + message
    }
}

/// The activity of an optional timeline.
pub open spec fn activity_of_timeline(timeline: Option<Seq<TimelineEvent>>) -> Option<ActivityView> {
    match timeline {
        Some(t) => timeline_activity(t),
        None => None,
    }
}

/// The body of a pull request notification: the base message, preceded by
/// the activity's detail and summary when the timeline has an activity.  A
/// pull request that names who merged it attributes the activity to them.
pub open spec fn pull_request_message(
    base_title: Seq<char>,
    base_message: Seq<char>,
    reason: Seq<char>,
    pull_request: Option<PullRequestDetails>,
    timeline: Option<Seq<TimelineEvent>>,
) -> Seq<char> {
    match activity_of_timeline(timeline) {
        None => base_message,
        Some(a) => {
            let actor = match pull_request {
                Some(p) => match p.merged_by {
                    Some(u) => u.login@,
                    None => a.actor,
                },
                None => a.actor,
            };
            let is_merged = pull_request is Some && pull_request->0.merged;
            with_summary(
                pull_request_summary(a.kind, actor, base_title, reason, a.commit_count, is_merged),
                with_detail(base_message, a.detail),
            )
        },
    }
}

/// The body of an issue notification: the base message, preceded by the
/// activity's detail and summary when the timeline has an activity.
pub open spec fn issue_message(
    base_title: Seq<char>,
    base_message: Seq<char>,
    reason: Seq<char>,
    timeline: Option<Seq<TimelineEvent>>,
) -> Seq<char> {
    match activity_of_timeline(timeline) {
        None => base_message,
        Some(a) => with_summary(
            issue_summary(a.kind, a.actor, base_title, reason),
            with_detail(base_message, a.detail),
        ),
    }
}

/// A thread's reason, or `notification`.
pub open spec fn reason_text(thread: Thread) -> Seq<char> {
    match thread.reason {
        Some(r) => r@,
        None => "notification"@,
    }
}

/// The body of a notification.
pub open spec fn rendered_message(
    thread: Thread,
    pull_request: Option<PullRequestDetails>,
    timeline: Option<Seq<TimelineEvent>>,
) -> Seq<char> {
    if kind_is(thread, "PullRequest"@) {
        pull_request_message(base_title(thread), base_message_of(thread), reason_text(thread), pull_request, timeline)
    } else if kind_is(thread, "Issue"@) {
        issue_message(base_title(thread), base_message_of(thread), reason_text(thread), timeline)
    } else {
        base_message_of(thread)
    }
}

/// The subject types whose API address has a github.com page.
pub open spec fn has_subject_page(thread: Thread) -> bool {
    kind_is(thread, "PullRequest"@) || kind_is(thread, "Issue"@) || kind_is(thread, "Commit"@)
        || kind_is(thread, "Discussion"@) || kind_is(thread, "Release"@)
}

/// The web page a notification opens: for pull requests, issues, commits,
/// discussions and releases, the subject's API address turned into its
/// github.com page (pull, commit and release addresses adjusted); for other
/// types, and without a subject address, the repository page.
pub open spec fn click_url_of(thread: Thread) -> Seq<char> {
    match thread.subject.url {
        None => thread.repository.html_url@,
        Some(u) => {
            let base = replaced(u@, "https://api.github.com/repos/"@, "https://github.com/"@);
            if !has_subject_page(thread) {
                thread.repository.html_url@
            } else if kind_is(thread, "PullRequest"@) {
                replaced(replaced(base, "/pulls/"@, "/pull/"@), "/issues/"@, "/pull/"@)
            } else if kind_is(thread, "Commit"@) {
                replaced(base, "/commits/"@, "/commit/"@)
            } else if kind_is(thread, "Release"@) && has_suffix(base, "/"@) {
                base.take(base.len() - 1)
            } else {
                base
            }
        },
    }
}

/// The owner's avatar, else the GitHub logo.
pub open spec fn icon_url_of(thread: Thread) -> Seq<char> {
    match thread.repository.owner {
        Some(o) => match o.avatar_url {
            Some(a) => a@,
            None => DEFAULT_ICON_URL@,
        },
        None => DEFAULT_ICON_URL@,
    }
}

/// The tag for a subject type.
pub open spec fn type_tag_of(kind: Option<String>) -> Seq<char> {
    if kind is Some && kind->0@ == "PullRequest"@ {
        "pr"@
    } else if kind is Some && kind->0@ == "Issue"@ {
        "issue"@
    } else if kind is Some && kind->0@ == "Commit"@ {
        "commit"@
    } else if kind is Some && kind->0@ == "Discussion"@ {
        "discussion"@
    } else if kind is Some && kind->0@ == "Release"@ {
        "release"@
    } else {
        "notification"@
    }
}

/// `x` placed into the sorted, repetition-free `sorted`, unless already there.
pub open spec fn insert_tag(sorted: Seq<Seq<char>>, x: Seq<char>) -> Seq<Seq<char>>
    decreases sorted.len(),
{
    if sorted.len() == 0 {
        seq![x]
    } else if sorted.last() == x {
        sorted
    } else if chars_lt(sorted.last(), x) {
        sorted.push(x)
    } else {
        insert_tag(sorted.drop_last(), x).push(sorted.last())
    }
}

/// The tags of a notification: `github`, the subject type's tag and the
/// reason, sorted and without repeats.
pub open spec fn tag_list_of(thread: Thread) -> Seq<Seq<char>> {
    let base = insert_tag(seq!["github"@], type_tag_of(thread.subject.kind));
    match thread.reason {
        Some(r) => insert_tag(base, r@),
        None => base,
    }
}

/// The tags of a notification, comma separated.
pub open spec fn tags_of(thread: Thread) -> Seq<char> {
    joined(tag_list_of(thread), ","@)
}

/// Security alerts are urgent, mentions and review requests high, the rest normal.
pub open spec fn priority_of(thread: Thread) -> u8 {
    if reason_is(thread, "security_alert"@) {
        5
    } else if reason_is(thread, "mention"@) || reason_is(thread, "team_mention"@) || reason_is(
        thread,
        "review_requested"@,
    ) {
        4
    } else {
        3
    }
}

/// The slice view of an optional timeline.
pub open spec fn timeline_seq(t: Option<&[TimelineEvent]>) -> Option<Seq<TimelineEvent>> {
    match t {
        Some(s) => Some(s@),
        None => None,
    }
}

/// The optional pull request, as a value.
pub open spec fn pr_value(p: Option<&PullRequestDetails>) -> Option<PullRequestDetails> {
    match p {
        Some(x) => Some(*x),
        None => None,
    }
}

/// `n` is the rendering of the thread with its body `message`, before any
/// action buttons are attached.
pub open spec fn rendered_with_message(n: RenderedNotification, thread: Thread, message: Seq<char>) -> bool {
    &&& n.dedupe_key@ == thread.id@ + "|"@ + thread.updated_at@
    &&& n.sequence_id@ == "github-thread-"@ + thread.id@
    &&& n.title@ == base_title(thread)
    &&& n.message@ == message
    &&& n.actions is None
    &&& n.click_url@ == click_url_of(thread)
    &&& n.icon_url@ == icon_url_of(thread)
    &&& n.tags@ == tags_of(thread)
    &&& n.priority == priority_of(thread)
}

/// The activity kinds and reasons the summaries tell apart are different texts.
proof fn lemma_activity_kinds_distinct()
    ensures
        "review_approved"@ != "review_changes_requested"@,
        "review_approved"@ != "reviewed"@,
        "review_approved"@ != "commented"@,
        "review_approved"@ != "committed"@,
        "review_approved"@ != "merged"@,
        "review_approved"@ != "review_requested"@,
        "review_approved"@ != "review_request_removed"@,
        "review_approved"@ != "review_dismissed"@,
        "review_approved"@ != "closed"@,
        "review_approved"@ != "reopened"@,
        "review_approved"@ != "ready_for_review"@,
        "review_approved"@ != "convert_to_draft"@,
        "review_approved"@ != "assigned"@,
        "review_approved"@ != "unassigned"@,
        "review_approved"@ != "labeled"@,
        "review_approved"@ != "unlabeled"@,
        "review_approved"@ != "mention"@,
        "review_approved"@ != "team_mention"@,
        "review_changes_requested"@ != "reviewed"@,
        "review_changes_requested"@ != "commented"@,
        "review_changes_requested"@ != "committed"@,
        "review_changes_requested"@ != "merged"@,
        "review_changes_requested"@ != "review_requested"@,
        "review_changes_requested"@ != "review_request_removed"@,
        "review_changes_requested"@ != "review_dismissed"@,
        "review_changes_requested"@ != "closed"@,
        "review_changes_requested"@ != "reopened"@,
        "review_changes_requested"@ != "ready_for_review"@,
        "review_changes_requested"@ != "convert_to_draft"@,
        "review_changes_requested"@ != "assigned"@,
        "review_changes_requested"@ != "unassigned"@,
        "review_changes_requested"@ != "labeled"@,
        "review_changes_requested"@ != "unlabeled"@,
        "review_changes_requested"@ != "mention"@,
        "review_changes_requested"@ != "team_mention"@,
        "reviewed"@ != "commented"@,
        "reviewed"@ != "committed"@,
        "reviewed"@ != "merged"@,
        "reviewed"@ != "review_requested"@,
        "reviewed"@ != "review_request_removed"@,
        "reviewed"@ != "review_dismissed"@,
        "reviewed"@ != "closed"@,
        "reviewed"@ != "reopened"@,
        "reviewed"@ != "ready_for_review"@,
        "reviewed"@ != "convert_to_draft"@,
        "reviewed"@ != "assigned"@,
        "reviewed"@ != "unassigned"@,
        "reviewed"@ != "labeled"@,
        "reviewed"@ != "unlabeled"@,
        "reviewed"@ != "mention"@,
        "reviewed"@ != "team_mention"@,
        "commented"@ != "committed"@,
        "commented"@ != "merged"@,
        "commented"@ != "review_requested"@,
        "commented"@ != "review_request_removed"@,
        "commented"@ != "review_dismissed"@,
        "commented"@ != "closed"@,
        "commented"@ != "reopened"@,
        "commented"@ != "ready_for_review"@,
        "commented"@ != "convert_to_draft"@,
        "commented"@ != "assigned"@,
        "commented"@ != "unassigned"@,
        "commented"@ != "labeled"@,
        "commented"@ != "unlabeled"@,
        "commented"@ != "mention"@,
        "commented"@ != "team_mention"@,
        "committed"@ != "merged"@,
        "committed"@ != "review_requested"@,
        "committed"@ != "review_request_removed"@,
        "committed"@ != "review_dismissed"@,
        "committed"@ != "closed"@,
        "committed"@ != "reopened"@,
        "committed"@ != "ready_for_review"@,
        "committed"@ != "convert_to_draft"@,
        "committed"@ != "assigned"@,
        "committed"@ != "unassigned"@,
        "committed"@ != "labeled"@,
        "committed"@ != "unlabeled"@,
        "committed"@ != "mention"@,
        "committed"@ != "team_mention"@,
        "merged"@ != "review_requested"@,
        "merged"@ != "review_request_removed"@,
        "merged"@ != "review_dismissed"@,
        "merged"@ != "closed"@,
        "merged"@ != "reopened"@,
        "merged"@ != "ready_for_review"@,
        "merged"@ != "convert_to_draft"@,
        "merged"@ != "assigned"@,
        "merged"@ != "unassigned"@,
        "merged"@ != "labeled"@,
        "merged"@ != "unlabeled"@,
        "merged"@ != "mention"@,
        "merged"@ != "team_mention"@,
        "review_requested"@ != "review_request_removed"@,
        "review_requested"@ != "review_dismissed"@,
        "review_requested"@ != "closed"@,
        "review_requested"@ != "reopened"@,
        "review_requested"@ != "ready_for_review"@,
        "review_requested"@ != "convert_to_draft"@,
        "review_requested"@ != "assigned"@,
        "review_requested"@ != "unassigned"@,
        "review_requested"@ != "labeled"@,
        "review_requested"@ != "unlabeled"@,
        "review_requested"@ != "mention"@,
        "review_requested"@ != "team_mention"@,
        "review_request_removed"@ != "review_dismissed"@,
        "review_request_removed"@ != "closed"@,
        "review_request_removed"@ != "reopened"@,
        "review_request_removed"@ != "ready_for_review"@,
        "review_request_removed"@ != "convert_to_draft"@,
        "review_request_removed"@ != "assigned"@,
        "review_request_removed"@ != "unassigned"@,
        "review_request_removed"@ != "labeled"@,
        "review_request_removed"@ != "unlabeled"@,
        "review_request_removed"@ != "mention"@,
        "review_request_removed"@ != "team_mention"@,
        "review_dismissed"@ != "closed"@,
        "review_dismissed"@ != "reopened"@,
        "review_dismissed"@ != "ready_for_review"@,
        "review_dismissed"@ != "convert_to_draft"@,
        "review_dismissed"@ != "assigned"@,
        "review_dismissed"@ != "unassigned"@,
        "review_dismissed"@ != "labeled"@,
        "review_dismissed"@ != "unlabeled"@,
        "review_dismissed"@ != "mention"@,
        "review_dismissed"@ != "team_mention"@,
        "closed"@ != "reopened"@,
        "closed"@ != "ready_for_review"@,
        "closed"@ != "convert_to_draft"@,
        "closed"@ != "assigned"@,
        "closed"@ != "unassigned"@,
        "closed"@ != "labeled"@,
        "closed"@ != "unlabeled"@,
        "closed"@ != "mention"@,
        "closed"@ != "team_mention"@,
        "reopened"@ != "ready_for_review"@,
        "reopened"@ != "convert_to_draft"@,
        "reopened"@ != "assigned"@,
        "reopened"@ != "unassigned"@,
        "reopened"@ != "labeled"@,
        "reopened"@ != "unlabeled"@,
        "reopened"@ != "mention"@,
        "reopened"@ != "team_mention"@,
        "ready_for_review"@ != "convert_to_draft"@,
        "ready_for_review"@ != "assigned"@,
        "ready_for_review"@ != "unassigned"@,
        "ready_for_review"@ != "labeled"@,
        "ready_for_review"@ != "unlabeled"@,
        "ready_for_review"@ != "mention"@,
        "ready_for_review"@ != "team_mention"@,
        "convert_to_draft"@ != "assigned"@,
        "convert_to_draft"@ != "unassigned"@,
        "convert_to_draft"@ != "labeled"@,
        "convert_to_draft"@ != "unlabeled"@,
        "convert_to_draft"@ != "mention"@,
        "convert_to_draft"@ != "team_mention"@,
        "assigned"@ != "unassigned"@,
        "assigned"@ != "labeled"@,
        "assigned"@ != "unlabeled"@,
        "assigned"@ != "mention"@,
        "assigned"@ != "team_mention"@,
        "unassigned"@ != "labeled"@,
        "unassigned"@ != "unlabeled"@,
        "unassigned"@ != "mention"@,
        "unassigned"@ != "team_mention"@,
        "labeled"@ != "unlabeled"@,
        "labeled"@ != "mention"@,
        "labeled"@ != "team_mention"@,
        "unlabeled"@ != "mention"@,
        "unlabeled"@ != "team_mention"@,
        "mention"@ != "team_mention"@,
{
    reveal_strlit("review_approved");
    assert("review_approved"@.len() == 15);
    reveal_strlit("review_changes_requested");
    assert("review_changes_requested"@.len() == 24);
    reveal_strlit("reviewed");
    assert("reviewed"@.len() == 8);
    reveal_strlit("commented");
    assert("commented"@.len() == 9);
    reveal_strlit("committed");
    assert("committed"@.len() == 9);
    reveal_strlit("merged");
    assert("merged"@.len() == 6);
    reveal_strlit("review_requested");
    assert("review_requested"@.len() == 16);
    reveal_strlit("review_request_removed");
    assert("review_request_removed"@.len() == 22);
    reveal_strlit("review_dismissed");
    assert("review_dismissed"@.len() == 16);
    reveal_strlit("closed");
    assert("closed"@.len() == 6);
    reveal_strlit("reopened");
    assert("reopened"@.len() == 8);
    reveal_strlit("ready_for_review");
    assert("ready_for_review"@.len() == 16);
    reveal_strlit("convert_to_draft");
    assert("convert_to_draft"@.len() == 16);
    reveal_strlit("assigned");
    assert("assigned"@.len() == 8);
    reveal_strlit("unassigned");
    assert("unassigned"@.len() == 10);
    reveal_strlit("labeled");
    assert("labeled"@.len() == 7);
    reveal_strlit("unlabeled");
    assert("unlabeled"@.len() == 9);
    reveal_strlit("mention");
    assert("mention"@.len() == 7);
    reveal_strlit("team_mention");
    assert("team_mention"@.len() == 12);
    assert("reviewed"@[2] != "reopened"@[2]);
    assert("reviewed"@[0] != "assigned"@[0]);
    assert("commented"@[4] != "committed"@[4]);
    assert("commented"@[0] != "unlabeled"@[0]);
    assert("committed"@[0] != "unlabeled"@[0]);
    assert("merged"@[0] != "closed"@[0]);
    assert("review_requested"@[7] != "review_dismissed"@[7]);
    assert("review_requested"@[2] != "ready_for_review"@[2]);
    assert("review_requested"@[0] != "convert_to_draft"@[0]);
    assert("review_dismissed"@[2] != "ready_for_review"@[2]);
    assert("review_dismissed"@[0] != "convert_to_draft"@[0]);
    assert("reopened"@[0] != "assigned"@[0]);
    assert("ready_for_review"@[0] != "convert_to_draft"@[0]);
    assert("labeled"@[0] != "mention"@[0]);
}

/// The summary line names the activity: `@actor approved title` for an
/// approving review, `@actor requested changes on title` for one asking for
/// changes, and so on for each activity kind of a pull request or an issue;
/// a closed pull request that is merged reads as merged, a comment on a
/// mention as a mention, and pushed commits are counted.
pub proof fn law_summaries_name_the_activity(
    a: Seq<char>,
    t: Seq<char>,
    reason: Seq<char>,
    n: Option<nat>,
    merged: bool,
)
    ensures
        pull_request_summary("review_approved"@, a, t, reason, n, merged) == "@"@ + a + " approved "@ + t,
        pull_request_summary("review_changes_requested"@, a, t, reason, n, merged) == "@"@ + a + " requested changes on "@ + t,
        pull_request_summary("reviewed"@, a, t, reason, n, merged) == "@"@ + a + " reviewed "@ + t,
        pull_request_summary("merged"@, a, t, reason, n, merged) == "@"@ + a + " merged "@ + t,
        pull_request_summary("review_requested"@, a, t, reason, n, merged) == "@"@ + a + " requested review on "@ + t,
        pull_request_summary("review_request_removed"@, a, t, reason, n, merged) == "@"@ + a + " removed review request on "@ + t,
        pull_request_summary("review_dismissed"@, a, t, reason, n, merged) == "@"@ + a + " dismissed review on "@ + t,
        pull_request_summary("reopened"@, a, t, reason, n, merged) == "@"@ + a + " reopened "@ + t,
        pull_request_summary("ready_for_review"@, a, t, reason, n, merged) == "@"@ + a + " marked "@ + t + " ready for review"@,
        pull_request_summary("convert_to_draft"@, a, t, reason, n, merged) == "@"@ + a + " converted "@ + t + " to draft"@,
        pull_request_summary("closed"@, a, t, reason, n, merged) == "@"@ + a + (if merged { " merged "@ } else { " closed "@ }) + t,
        pull_request_summary("commented"@, a, t, reason, n, merged) == "@"@ + a + (if reason == "mention"@ || reason == "team_mention"@ { " mentioned you in "@ } else { " commented on "@ }) + t,
        pull_request_summary("committed"@, a, t, reason, Some(1), merged) == "@"@ + a + " pushed 1 commit to "@ + t,
        pull_request_summary("committed"@, a, t, reason, Some(3), merged) == "@"@ + a + " pushed 3 commits to "@ + t,
        issue_summary("closed"@, a, t, reason) == "@"@ + a + " closed "@ + t,
        issue_summary("reopened"@, a, t, reason) == "@"@ + a + " reopened "@ + t,
        issue_summary("assigned"@, a, t, reason) == "@"@ + a + " assigned "@ + t,
        issue_summary("unassigned"@, a, t, reason) == "@"@ + a + " unassigned "@ + t,
        issue_summary("labeled"@, a, t, reason) == "@"@ + a + " labeled "@ + t,
        issue_summary("unlabeled"@, a, t, reason) == "@"@ + a + " unlabeled "@ + t,
        issue_summary("commented"@, a, t, reason) == "@"@ + a + (if reason == "mention"@ || reason == "team_mention"@ { " mentioned you in "@ } else { " commented on "@ }) + t,
{
    lemma_activity_kinds_distinct();
    reveal_strlit("1");
    reveal_strlit("3");
    reveal_strlit(" pushed ");
    reveal_strlit(" ");
    reveal_strlit("commit");
    reveal_strlit("commits");
    reveal_strlit(" to ");
    reveal_strlit(" pushed 1 commit to ");
    reveal_strlit(" pushed 3 commits to ");
    reveal_strlit("@");
    assert(decimal(1) == "1"@);
    assert(decimal(3) == "3"@);
    assert(pull_request_summary("committed"@, a, t, reason, Some(1), merged) =~= "@"@ + a + " pushed 1 commit to "@
        + t);
    assert(pull_request_summary("committed"@, a, t, reason, Some(3), merged) =~= "@"@ + a + " pushed 3 commits to "@
        + t);
}

/// A pull request whose newest activity is an approving review opens its
/// message with `@actor approved title`, followed by the rest of the body
/// (when no details name who merged it).
pub proof fn law_approval_message(thread: Thread, timeline: Seq<TimelineEvent>)
    requires
        kind_is(thread, "PullRequest"@),
        timeline_activity(timeline) matches Some(act) && act.kind == "review_approved"@,
    ensures
        rendered_message(thread, None, Some(timeline)) == "@"@ + timeline_activity(timeline)->0.actor + " approved "@
            + base_title(thread) + "\n"@ + with_detail(base_message_of(thread), timeline_activity(timeline)->0.detail),
{
    let act = timeline_activity(timeline)->0;
    let line = "@"@ + act.actor + " approved "@ + base_title(thread);
    reveal_strlit("@");
    assert(line[0] == '@');
    lemma_not_blank_when_starting_with_nonspace(line);
}

/// Security alerts are sent at priority 5; mentions of the user or the team
/// and review requests at 4; every other reason, and none, at 3.
pub proof fn law_priority_follows_the_reason(thread: Thread)
    ensures
        thread.reason is None ==> priority_of(thread) == 3,
        thread.reason matches Some(r) ==> (r@ == "security_alert"@ ==> priority_of(thread) == 5),
        thread.reason matches Some(r) ==> (r@ == "mention"@ || r@ == "team_mention"@ || r@ == "review_requested"@
            ==> priority_of(thread) == 4),
        thread.reason matches Some(r) ==> (r@ != "security_alert"@ && r@ != "mention"@ && r@ != "team_mention"@
            && r@ != "review_requested"@ ==> priority_of(thread) == 3),
{
    reveal_strlit("security_alert");
    reveal_strlit("mention");
    reveal_strlit("team_mention");
    reveal_strlit("review_requested");
    assert("security_alert"@.len() == 14 && "review_requested"@.len() == 16);
    assert("mention"@.len() == 7 && "team_mention"@.len() == 12);
}

/// Subject types are named as GitHub's web pages name them, and tagged
/// with a short lowercase tag: pull requests `Pull request`/`pr`, issues
/// `Issue`/`issue`, commits `Commit`/`commit`, discussions
/// `Discussion`/`discussion`, releases `Release`/`release`; anything else
/// is a `Notification`/`notification`.
pub proof fn law_subject_names_and_tags(kind: Option<String>)
    ensures
        kind matches Some(k) ==> (k@ == "PullRequest"@ ==> subject_label_of(kind) == "Pull request"@
            && type_tag_of(kind) == "pr"@),
        kind matches Some(k) ==> (k@ == "Issue"@ ==> subject_label_of(kind) == "Issue"@ && type_tag_of(kind)
            == "issue"@),
        kind matches Some(k) ==> (k@ == "Commit"@ ==> subject_label_of(kind) == "Commit"@ && type_tag_of(kind)
            == "commit"@),
        kind matches Some(k) ==> (k@ == "Discussion"@ ==> subject_label_of(kind) == "Discussion"@ && type_tag_of(
            kind,
        ) == "discussion"@),
        kind matches Some(k) ==> (k@ == "Release"@ ==> subject_label_of(kind) == "Release"@ && type_tag_of(kind)
            == "release"@),
        kind is None ==> subject_label_of(kind) == "Notification"@ && type_tag_of(kind) == "notification"@,
        kind matches Some(k) ==> (k@ != "PullRequest"@ && k@ != "Issue"@ && k@ != "Commit"@ && k@ != "Discussion"@
            && k@ != "Release"@ ==> subject_label_of(kind) == "Notification"@ && type_tag_of(kind)
            == "notification"@),
{
    reveal_strlit("PullRequest");
    reveal_strlit("Issue");
    reveal_strlit("Commit");
    reveal_strlit("Discussion");
    reveal_strlit("Release");
    assert("PullRequest"@.len() == 11 && "Issue"@.len() == 5 && "Commit"@.len() == 6);
    assert("Discussion"@.len() == 10 && "Release"@.len() == 7);
}

/// The base message says why the notification arrived, from the thread's
/// reason, naming the subject type and the repository: `subscribed` gives
/// `<Subject> update in <repo>`, `mention` gives `Mentioned you in <subject>
/// in <repo>`, and so on for each reason GitHub sends.
pub proof fn law_base_message_follows_the_reason(thread: Thread)
    ensures
        thread.reason matches Some(r) ==> (r@ == "assign"@ ==> base_message_of(thread) == subject_label_of(thread.subject.kind) + " assigned to you in "@ + thread.repository.full_name@),
        thread.reason matches Some(r) ==> (r@ == "author"@ ==> base_message_of(thread) == "Activity on your "@ + ascii_lowercase(subject_label_of(thread.subject.kind)) + " in "@ + thread.repository.full_name@),
        thread.reason matches Some(r) ==> (r@ == "comment"@ ==> base_message_of(thread) == "New comment on "@ + ascii_lowercase(subject_label_of(thread.subject.kind)) + " in "@ + thread.repository.full_name@),
        thread.reason matches Some(r) ==> (r@ == "ci_activity"@ ==> base_message_of(thread) == "CI activity on "@ + ascii_lowercase(subject_label_of(thread.subject.kind)) + " in "@ + thread.repository.full_name@),
        thread.reason matches Some(r) ==> (r@ == "invitation"@ ==> base_message_of(thread) == "Invitation for "@ + ascii_lowercase(subject_label_of(thread.subject.kind)) + " in "@ + thread.repository.full_name@),
        thread.reason matches Some(r) ==> (r@ == "manual"@ ==> base_message_of(thread) == "Manual notification for "@ + ascii_lowercase(subject_label_of(thread.subject.kind)) + " in "@ + thread.repository.full_name@),
        thread.reason matches Some(r) ==> (r@ == "mention"@ ==> base_message_of(thread) == "Mentioned you in "@ + ascii_lowercase(subject_label_of(thread.subject.kind)) + " in "@ + thread.repository.full_name@),
        thread.reason matches Some(r) ==> (r@ == "review_requested"@ ==> base_message_of(thread) == "Review requested on "@ + ascii_lowercase(subject_label_of(thread.subject.kind)) + " in "@ + thread.repository.full_name@),
        thread.reason matches Some(r) ==> (r@ == "security_alert"@ ==> base_message_of(thread) == "Security alert in "@ + thread.repository.full_name@),
        thread.reason matches Some(r) ==> (r@ == "state_change"@ ==> base_message_of(thread) == subject_label_of(thread.subject.kind) + " state changed in "@ + thread.repository.full_name@),
        thread.reason matches Some(r) ==> (r@ == "subscribed"@ ==> base_message_of(thread) == subject_label_of(thread.subject.kind) + " update in "@ + thread.repository.full_name@),
        thread.reason matches Some(r) ==> (r@ == "team_mention"@ ==> base_message_of(thread) == "Mentioned your team in "@ + ascii_lowercase(subject_label_of(thread.subject.kind)) + " in "@ + thread.repository.full_name@),
{
    let subject = subject_label_of(thread.subject.kind);
    let lower = ascii_lowercase(subject);
    let repo = thread.repository.full_name@;
    reveal_strlit("assign");
    assert("assign"@.len() == 6);
    reveal_strlit("author");
    assert("author"@.len() == 6);
    reveal_strlit("comment");
    assert("comment"@.len() == 7);
    reveal_strlit("ci_activity");
    assert("ci_activity"@.len() == 11);
    reveal_strlit("invitation");
    assert("invitation"@.len() == 10);
    reveal_strlit("manual");
    assert("manual"@.len() == 6);
    reveal_strlit("mention");
    assert("mention"@.len() == 7);
    reveal_strlit("review_requested");
    assert("review_requested"@.len() == 16);
    reveal_strlit("security_alert");
    assert("security_alert"@.len() == 14);
    reveal_strlit("state_change");
    assert("state_change"@.len() == 12);
    reveal_strlit("subscribed");
    assert("subscribed"@.len() == 10);
    reveal_strlit("team_mention");
    assert("team_mention"@.len() == 12);
    assert("assign"@[1] != "author"@[1]);
    assert("assign"@[0] != "manual"@[0]);
    assert("author"@[0] != "manual"@[0]);
    assert("comment"@[0] != "mention"@[0]);
    assert("invitation"@[0] != "subscribed"@[0]);
    assert("state_change"@[0] != "team_mention"@[0]);
}

/// A notification without a subject address, or about a subject type other
/// than pull requests, issues, commits, discussions and releases, opens the
/// repository page.
pub proof fn law_other_subjects_open_the_repository(thread: Thread)
    ensures
        thread.subject.url is None ==> click_url_of(thread) == thread.repository.html_url@,
        thread.subject.kind is None ==> click_url_of(thread) == thread.repository.html_url@,
        thread.subject.kind matches Some(k) ==> (k@ != "PullRequest"@ && k@ != "Issue"@ && k@ != "Commit"@ && k@
            != "Discussion"@ && k@ != "Release"@ ==> click_url_of(thread) == thread.repository.html_url@),
{
}

/// Updates of one thread share a sequence id, so each replaces the
/// notification before it; updates of different threads never share one.
pub proof fn law_sequence_id_names_the_thread(
    n1: RenderedNotification,
    t1: Thread,
    m1: Seq<char>,
    n2: RenderedNotification,
    t2: Thread,
    m2: Seq<char>,
)
    requires
        rendered_with_message(n1, t1, m1),
        rendered_with_message(n2, t2, m2),
    ensures
        n1.sequence_id@ == n2.sequence_id@ <==> t1.id@ == t2.id@,
{
    let p = "github-thread-"@;
    if n1.sequence_id@ == n2.sequence_id@ {
        assert((p + t1.id@).skip(p.len() as int) =~= t1.id@);
        assert((p + t2.id@).skip(p.len() as int) =~= t2.id@);
    }
}

/// The body of a notification about the subject itself: the subject's body
/// (each line trimmed, blank lines left out) over the base message.
pub open spec fn initial_subject_message(thread: Thread, body: Option<Seq<char>>) -> Seq<char> {
    with_detail(base_message_of(thread), body)
}

/// Renders a notification about a thread's subject itself rather than its
/// latest activity, showing the subject's body when there is one.
pub fn render_initial_subject_notification(thread: &Thread, body: Option<&str>) -> (r: Result<RenderedNotification, String>)
    ensures
        r matches Ok(n) && rendered_with_message(
            n,
            *thread,
            initial_subject_message(
                *thread,
                match body {
                    Some(b) => Some(b@),
                    None => None,
                },
            ),
        ),
{
    Ok(render_initial_subject(thread, body))
}

/// Renders a notification about a thread's subject itself.
pub fn render_initial_subject(thread: &Thread, body: Option<&str>) -> (n: RenderedNotification)
    ensures
        rendered_with_message(
            n,
            *thread,
            initial_subject_message(
                *thread,
                match body {
                    Some(b) => Some(b@),
                    None => None,
                },
            ),
        ),
{
    let mut n = render_thread(thread, None, None);
    let base = base_message(thread);
    let body_text: Option<String> = match body {
        Some(b) => Some(copy_str(b)),
        None => None,
    };
    n.message = detail_message(base.as_str(), &body_text);
    n
}

/// Renders a thread into a notification; it never fails.
pub fn render_notification(
    thread: &Thread,
    pull_request: Option<&PullRequestDetails>,
    timeline: Option<&[TimelineEvent]>,
) -> (r: Result<RenderedNotification, String>)
    ensures
        r matches Ok(n) && rendered_with_message(
            n,
            *thread,
            rendered_message(*thread, pr_value(pull_request), timeline_seq(timeline)),
        ),
{
    Ok(render_thread(thread, pull_request, timeline))
}

/// Renders a thread into a notification.
pub fn render_thread(
    thread: &Thread,
    pull_request: Option<&PullRequestDetails>,
    timeline: Option<&[TimelineEvent]>,
) -> (n: RenderedNotification)
    ensures
        rendered_with_message(
            n,
            *thread,
            rendered_message(*thread, pr_value(pull_request), timeline_seq(timeline)),
        ),
{
    let title = match &thread.subject.title {
        Some(t) => t.clone(),
        None => thread.repository.full_name.clone(),
    };
    let base = base_message(thread);
    let reason: &str = match &thread.reason {
        Some(r) => r.as_str(),
        None => "notification",
    };
    let message = if opt_str_eq(&thread.subject.kind, "PullRequest") {
        enrich_pull_request(title.as_str(), base.as_str(), reason, pull_request, timeline)
    } else if opt_str_eq(&thread.subject.kind, "Issue") {
        enrich_issue(title.as_str(), base.as_str(), reason, timeline)
    } else {
        base
    };
    let icon_url = match &thread.repository.owner {
        Some(o) => match &o.avatar_url {
            Some(a) => a.clone(),
            None => String::from_str(DEFAULT_ICON_URL),
        },
        None => String::from_str(DEFAULT_ICON_URL),
    };
    let mut dedupe_key = thread.id.clone();
    dedupe_key.append("|");
    dedupe_key.append(thread.updated_at.as_str());
    let mut sequence_id = String::from_str("github-thread-");
    sequence_id.append(thread.id.as_str());
    RenderedNotification {
        dedupe_key,
        sequence_id,
        title,
        message,
        actions: None,
        click_url: click_url(thread),
        icon_url,
        tags: build_tags(thread),
        priority: priority(thread),
    }
}

fn pr_summary(
    kind: &str,
    actor: &str,
    title: &str,
    reason: &str,
    commit_count: Option<usize>,
    is_merged: bool,
) -> (r: String)
    ensures
        r@ == pull_request_summary(
            kind@,
            actor@,
            title@,
            reason@,
            match commit_count {
                Some(c) => Some(c as nat),
                None => None,
            },
            is_merged,
        ),
{
    let mention = str_eq(reason, "mention") || str_eq(reason, "team_mention");
    let mut s = String::from_str("@");
    s.append(actor);
    if str_eq(kind, "review_approved") {
        s.append(" approved ");
    } else if str_eq(kind, "review_changes_requested") {
        s.append(" requested changes on ");
    } else if str_eq(kind, "reviewed") {
        s.append(" reviewed ");
    } else if str_eq(kind, "commented") && mention {
        s.append(" mentioned you in ");
    } else if str_eq(kind, "commented") {
        s.append(" commented on ");
    } else if str_eq(kind, "committed") {
        let n: usize = match commit_count {
            Some(c) => c,
            None => 1,
        };
        s.append(" pushed ");
        s.append(to_decimal(n as u64).as_str());
        s.append(" ");
        s.append(pluralize_commit(n));
        s.append(" to ");
    } else if str_eq(kind, "merged") {
        s.append(" merged ");
    } else if str_eq(kind, "review_requested") {
        s.append(" requested review on ");
    } else if str_eq(kind, "review_request_removed") {
        s.append(" removed review request on ");
    } else if str_eq(kind, "review_dismissed") {
        s.append(" dismissed review on ");
    } else if str_eq(kind, "closed") && is_merged {
        s.append(" merged ");
    } else if str_eq(kind, "closed") {
        s.append(" closed ");
    } else if str_eq(kind, "reopened") {
        s.append(" reopened ");
    } else if str_eq(kind, "ready_for_review") {
        s.append(" marked ");
        s.append(title);
        s.append(" ready for review");
        return s;
    } else if str_eq(kind, "convert_to_draft") {
        s.append(" converted ");
        s.append(title);
        s.append(" to draft");
        return s;
    } else {
        return copy_str(title);
    }
    s.append(title);
    s
}

fn issue_summary_exec(kind: &str, actor: &str, title: &str, reason: &str) -> (r: String)
    ensures
        r@ == issue_summary(kind@, actor@, title@, reason@),
{
    let mention = str_eq(reason, "mention") || str_eq(reason, "team_mention");
    let mut s = String::from_str("@");
    s.append(actor);
    if str_eq(kind, "commented") && mention {
        s.append(" mentioned you in ");
    } else if str_eq(kind, "commented") {
        s.append(" commented on ");
    } else if str_eq(kind, "closed") {
        s.append(" closed ");
    } else if str_eq(kind, "reopened") {
        s.append(" reopened ");
    } else if str_eq(kind, "assigned") {
        s.append(" assigned ");
    } else if str_eq(kind, "unassigned") {
        s.append(" unassigned ");
    } else if str_eq(kind, "labeled") {
        s.append(" labeled ");
    } else if str_eq(kind, "unlabeled") {
        s.append(" unlabeled ");
    } else {
        return copy_str(title);
    }
    s.append(title);
    s
}

fn activity_for_timeline(timeline: Option<&[TimelineEvent]>) -> (r: Option<TimelineActivity>)
    ensures
        opt_activity_view(r) == activity_of_timeline(timeline_seq(timeline)),
{
    match timeline {
        Some(t) => TimelineActivity::from_timeline(t),
        None => None,
    }
}

fn enrich_pull_request(
    base_title: &str,
    base_message: &str,
    reason: &str,
    pull_request: Option<&PullRequestDetails>,
    timeline: Option<&[TimelineEvent]>,
) -> (r: String)
    ensures
        r@ == pull_request_message(base_title@, base_message@, reason@, pr_value(pull_request), timeline_seq(timeline)),
{
    let activity = match activity_for_timeline(timeline) {
        Some(a) => a,
        None => {
            return copy_str(base_message);
        },
    };
    let actor: &str = match pull_request {
        Some(p) => match &p.merged_by {
            Some(u) => u.login.as_str(),
            None => activity.actor.as_str(),
        },
        None => activity.actor.as_str(),
    };
    let is_merged = match pull_request {
        Some(p) => p.merged,
        None => false,
    };
    let summary = pr_summary(activity.kind.as_str(), actor, base_title, reason, activity.commit_count, is_merged);
    let detailed = detail_message(base_message, &activity.detail);
    prepend_summary(summary.as_str(), detailed.as_str())
}

fn enrich_issue(base_title: &str, base_message: &str, reason: &str, timeline: Option<&[TimelineEvent]>) -> (r: String)
    ensures
        r@ == issue_message(base_title@, base_message@, reason@, timeline_seq(timeline)),
{
    let activity = match activity_for_timeline(timeline) {
        Some(a) => a,
        None => {
            return copy_str(base_message);
        },
    };
    let summary = issue_summary_exec(activity.kind.as_str(), activity.actor.as_str(), base_title, reason);
    let detailed = detail_message(base_message, &activity.detail);
    prepend_summary(summary.as_str(), detailed.as_str())
}

fn prepend_summary(summary: &str, message: &str) -> (r: String)
    ensures
        r@ == with_summary(summary@, message@),
{
    if trim(summary).is_empty() {
        return copy_str(message);
    }
    let mut s = copy_str(summary);
    s.append("\n");
    s.append(message);
    s
}

fn detail_message(base_message: &str, detail: &Option<String>) -> (r: String)
    ensures
        r@ == with_detail(base_message@, opt_view(*detail)),
{
    match detail {
        Some(d) => {
            if !trim(d.as_str()).is_empty() {
                let mut s = trim_multiline_text(d.as_str());
                s.append("\n");
                s.append(base_message);
                s
            } else {
                copy_str(base_message)
            }
        },
        None => copy_str(base_message),
    }
}

fn base_message(thread: &Thread) -> (r: String)
    ensures
        r@ == base_message_of(*thread),
{
    let repo = thread.repository.full_name.as_str();
    let subject = subject_label(&thread.subject.kind);
    let lower = to_ascii_lowercase(subject);
    let mut s = String::new();
    match &thread.reason {
        Some(reason) => {
            let r = reason.as_str();
            if str_eq(r, "assign") {
                s.append(subject);
                s.append(" assigned to you in ");
            } else if str_eq(r, "author") {
                s.append("Activity on your ");
                s.append(lower.as_str());
                s.append(" in ");
            } else if str_eq(r, "comment") {
                s.append("New comment on ");
                s.append(lower.as_str());
                s.append(" in ");
            } else if str_eq(r, "ci_activity") {
                s.append("CI activity on ");
                s.append(lower.as_str());
                s.append(" in ");
            } else if str_eq(r, "invitation") {
                s.append("Invitation for ");
                s.append(lower.as_str());
                s.append(" in ");
            } else if str_eq(r, "manual") {
                s.append("Manual notification for ");
                s.append(lower.as_str());
                s.append(" in ");
            } else if str_eq(r, "mention") {
                s.append("Mentioned you in ");
                s.append(lower.as_str());
                s.append(" in ");
            } else if str_eq(r, "review_requested") {
                s.append("Review requested on ");
                s.append(lower.as_str());
                s.append(" in ");
            } else if str_eq(r, "security_alert") {
                s.append("Security alert in ");
            } else if str_eq(r, "state_change") {
                s.append(subject);
                s.append(" state changed in ");
            } else if str_eq(r, "subscribed") {
                s.append(subject);
                s.append(" update in ");
            } else if str_eq(r, "team_mention") {
                s.append("Mentioned your team in ");
                s.append(lower.as_str());
                s.append(" in ");
            } else {
                s.append(subject);
                s.append(" notification (");
                s.append(r);
                s.append(") in ");
            }
        },
        None => {
            s.append(subject);
            s.append(" notification in ");
        },
    }
    proof {
        reveal_strlit("");
    }
    s.append(repo);
    s
}

fn subject_label(kind: &Option<String>) -> (r: &'static str)
    ensures
        r@ == subject_label_of(*kind),
{
    if opt_str_eq(kind, "PullRequest") {
        "Pull request"
    } else if opt_str_eq(kind, "Issue") {
        "Issue"
    } else if opt_str_eq(kind, "Commit") {
        "Commit"
    } else if opt_str_eq(kind, "Discussion") {
        "Discussion"
    } else if opt_str_eq(kind, "Release") {
        "Release"
    } else {
        "Notification"
    }
}

/// Each line of `input` trimmed, blank lines left out, joined by newlines.
pub fn trim_multiline_text(input: &str) -> (r: String)
    ensures
        r@ == trimmed_multiline(input@),
{
    let lines = split_on(input, '\n');
    let mut kept: Vec<String> = Vec::new();
    let mut i: usize = 0;
    proof {
        assert(views(lines@).take(0) =~= Seq::<Seq<char>>::empty());
        assert(views(kept@) =~= Seq::<Seq<char>>::empty());
    }
    while i < lines.len()
        invariant
            i <= lines@.len(),
            views(lines@) == split_char(input@, '\n'),
            views(kept@) == nonblank_trimmed(views(lines@).take(i as int)),
        decreases lines.len() - i,
    {
        proof {
            assert(views(lines@).take(i + 1).drop_last() =~= views(lines@).take(i as int));
            assert(views(lines@).take(i + 1).last() == lines@[i as int]@);
        }
        let t = trim(lines[i].as_str());
        if !t.is_empty() {
            let ghost before = kept@;
            kept.push(copy_str(t));
            proof {
                assert(views(kept@) =~= views(before).push(t@));
            }
        }
        i += 1;
    }
    proof {
        assert(views(lines@).take(lines@.len() as int) =~= views(lines@));
    }
    join(&kept, "\n")
}

/// `commit` for one, `commits` otherwise.
fn pluralize_commit(count: usize) -> (r: &'static str)
    ensures
        r@ == commit_word(count as nat),
{
    if count == 1 {
        "commit"
    } else {
        "commits"
    }
}

fn click_url(thread: &Thread) -> (r: String)
    ensures
        r@ == click_url_of(*thread),
{
    let subject_url = match &thread.subject.url {
        Some(u) => u.as_str(),
        None => {
            return thread.repository.html_url.clone();
        },
    };
    if !(opt_str_eq(&thread.subject.kind, "PullRequest") || opt_str_eq(&thread.subject.kind, "Issue")
        || opt_str_eq(&thread.subject.kind, "Commit") || opt_str_eq(&thread.subject.kind, "Discussion")
        || opt_str_eq(&thread.subject.kind, "Release")) {
        return thread.repository.html_url.clone();
    }
    proof {
        reveal_strlit("https://api.github.com/repos/");
        reveal_strlit("/pulls/");
        reveal_strlit("/issues/");
        reveal_strlit("/commits/");
        reveal_strlit("/");
    }
    let base = replace(subject_url, "https://api.github.com/repos/", "https://github.com/");
    if opt_str_eq(&thread.subject.kind, "PullRequest") {
        let pulled = replace(base.as_str(), "/pulls/", "/pull/");
        replace(pulled.as_str(), "/issues/", "/pull/")
    } else if opt_str_eq(&thread.subject.kind, "Commit") {
        replace(base.as_str(), "/commits/", "/commit/")
    } else if opt_str_eq(&thread.subject.kind, "Release") {
        match strip_suffix(base.as_str(), "/") {
            Some(stripped) => stripped,
            None => base,
        }
    } else {
        base
    }
}

fn type_tag(kind: &Option<String>) -> (r: &'static str)
    ensures
        r@ == type_tag_of(*kind),
{
    if opt_str_eq(kind, "PullRequest") {
        "pr"
    } else if opt_str_eq(kind, "Issue") {
        "issue"
    } else if opt_str_eq(kind, "Commit") {
        "commit"
    } else if opt_str_eq(kind, "Discussion") {
        "discussion"
    } else if opt_str_eq(kind, "Release") {
        "release"
    } else {
        "notification"
    }
}

proof fn lemma_insert_tag_split(s: Seq<Seq<char>>, x: Seq<char>, j: int)
    requires
        0 <= j <= s.len(),
        forall|m: int| j <= m < s.len() ==> (#[trigger] s[m]) != x && !chars_lt(s[m], x),
    ensures
        insert_tag(s, x) == insert_tag(s.take(j), x) + s.skip(j),
    decreases s.len() - j,
{
    if j < s.len() {
        assert(s[s.len() - 1] != x && !chars_lt(s[s.len() - 1], x));
        lemma_insert_tag_split(s.drop_last(), x, j);
        assert(s.drop_last().take(j) =~= s.take(j));
        assert(s.drop_last().skip(j).push(s.last()) =~= s.skip(j));
        assert(insert_tag(s.take(j), x) + s.drop_last().skip(j).push(s.last()) =~= (insert_tag(s.take(j), x)
            + s.drop_last().skip(j)).push(s.last()));
    } else {
        assert(s.skip(j) =~= Seq::<Seq<char>>::empty());
        assert(s.take(j) =~= s);
        assert(insert_tag(s, x) + s.skip(j) =~= insert_tag(s, x));
    }
}

fn insert_tag_exec(tags: &mut Vec<String>, x: &str)
    ensures
        views(final(tags)@) == insert_tag(views(old(tags)@), x@),
{
    let ghost s = views(tags@);
    let xc = chars_of(x);
    let mut j = tags.len();
    while j > 0 && !str_eq(tags[j - 1].as_str(), x) && !chars_lt_exec(&chars_of(tags[j - 1].as_str()), &xc)
        invariant
            j <= tags@.len(),
            s == views(tags@),
            xc@ == x@,
            forall|m: int| j <= m < s.len() ==> (#[trigger] s[m]) != x@ && !chars_lt(s[m], x@),
        decreases j,
    {
        proof {
            assert(s[j - 1] == tags@[j - 1]@);
        }
        j -= 1;
    }
    proof {
        lemma_insert_tag_split(s, x@, j as int);
        if j > 0 {
            assert(s.take(j as int).last() == tags@[j - 1]@);
            assert(s.take(j as int).drop_last() =~= s.take(j - 1));
        }
    }
    if j > 0 && str_eq(tags[j - 1].as_str(), x) {
        proof {
            assert(s.take(j as int) + s.skip(j as int) =~= s);
        }
        return;
    }
    tags.insert(j, copy_str(x));
    proof {
        assert(insert_tag(s.take(j as int), x@) =~= s.take(j as int).push(x@));
        assert(views(tags@) =~= s.take(j as int).push(x@) + s.skip(j as int));
    }
}

fn build_tags(thread: &Thread) -> (r: String)
    ensures
        r@ == tags_of(*thread),
{
    let mut tags: Vec<String> = Vec::new();
    tags.push(String::from_str("github"));
    proof {
        assert(views(tags@) =~= seq!["github"@]);
    }
    insert_tag_exec(&mut tags, type_tag(&thread.subject.kind));
    match &thread.reason {
        Some(r) => insert_tag_exec(&mut tags, r.as_str()),
        None => {},
    }
    join(&tags, ",")
}

fn priority(thread: &Thread) -> (r: u8)
    ensures
        r == priority_of(*thread),
{
    if opt_str_eq(&thread.reason, "security_alert") {
        5
    } else if opt_str_eq(&thread.reason, "mention") || opt_str_eq(&thread.reason, "team_mention") || opt_str_eq(
        &thread.reason,
        "review_requested",
    ) {
        4
    } else {
        3
    }
}

} // verus!
