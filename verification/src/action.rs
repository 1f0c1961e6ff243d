//! The `Done`, `Read` and `Mute` action buttons and the check of their callbacks.

use vstd::prelude::*;

use crate::config::ActionsConfig;
use crate::text::{copy_str, str_eq, trim_end_char, trim_end_matches};

verus! {

/// One `ntfy` HTTP action: a labelled button that POSTs to the agent's
/// callback path for the thread, with the shared token, and clears the
/// notification.
pub open spec fn action_text(label: Seq<char>, path: Seq<char>, base: Seq<char>, thread_id: Seq<char>, token: Seq<char>) -> Seq<char> {
    "http, "@ + label + ", "@ + base + "/api/actions/"@ + path + "/"@ + thread_id
        + ", method=POST, headers.Authorization=\"Bearer "@ + token + "\", clear=true"@
}

/// The `Actions` value of a thread's notification: `Done`, `Read` and `Mute`
/// buttons, separated by `; `, against the public base address without its
/// trailing slashes; none when actions are disabled.
pub open spec fn actions_of(config: ActionsConfig, thread_id: Seq<char>) -> Option<Seq<char>> {
    if !config.enabled {
        None
    } else {
        let base = trim_end_char(config.public_base_url@, '/');
        let token = config.token@;
        Some(
            action_text("Done"@, "done"@, base, thread_id, token) + "; "@ + action_text(
                "Read"@,
                "read"@,
                base,
                thread_id,
                token,
            ) + "; "@ + action_text("Mute"@, "mute"@, base, thread_id, token),
        )
    }
}

fn push_action(s: &mut String, label: &str, path: &str, base: &str, thread_id: &str, token: &str)
    ensures
        final(s)@ == old(s)@ + action_text(label@, path@, base@, thread_id@, token@),
{
    s.append("http, ");
    s.append(label);
    s.append(", ");
    s.append(base);
    s.append("/api/actions/");
    s.append(path);
    s.append("/");
    s.append(thread_id);
    s.append(", method=POST, headers.Authorization=\"Bearer ");
    s.append(token);
    s.append("\", clear=true");
}

/// The action buttons for a thread's notification (see [`actions_of`]).
pub fn notification_actions(config: &ActionsConfig, thread_id: &str) -> (r: Option<String>)
    ensures
        match r {
            Some(a) => actions_of(*config, thread_id@) == Some(a@),
            None => actions_of(*config, thread_id@) is None,
        },
{
    if !config.enabled {
        return None;
    }
    let base = trim_end_matches(config.public_base_url.as_str(), '/');
    let token = config.token.as_str();
    let mut s = String::new();
    proof {
        reveal_strlit("");
    }
    push_action(&mut s, "Done", "done", base.as_str(), thread_id, token);
    s.append("; ");
    push_action(&mut s, "Read", "read", base.as_str(), thread_id, token);
    s.append("; ");
    push_action(&mut s, "Mute", "mute", base.as_str(), thread_id, token);
    Some(s)
}

/// A callback is authorised when its `Authorization` header is exactly
/// `Bearer ` followed by the shared token.
pub open spec fn is_authorized(header: Option<Seq<char>>, token: Seq<char>) -> bool {
    header == Some("Bearer "@ + token)
}

/// Whether a callback's `Authorization` header (absent, or not valid text,
/// when `None`) carries the shared token.
pub fn authorized(header: Option<&str>, token: &str) -> (r: bool)
    ensures
        r == is_authorized(
            match header {
                Some(h) => Some(h@),
                None => None,
            },
            token@,
        ),
{
    let mut expected = String::from_str("Bearer ");
    expected.append(token);
    match header {
        Some(h) => str_eq(h, expected.as_str()),
        None => false,
    }
}

} // verus!
