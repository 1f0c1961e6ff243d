//! The headers an `ntfy` publish request carries.

use vstd::prelude::*;

use crate::render::RenderedNotification;
use crate::text::{copy_str, decimal, to_decimal};

verus! {

/// One header: a lowercase name and its value.
pub type HeaderPair = (Seq<char>, Seq<char>);

/// The headers of a publish request: title, click address, icon, tags,
/// priority and the sequence id (so that a later update of the same thread
/// replaces the notification), then the action buttons when there are any,
/// and the bearer token when there is one.
pub open spec fn ntfy_headers_of(n: RenderedNotification, token: Option<Seq<char>>) -> Seq<HeaderPair> {
    let base = seq![
        ("title"@, n.title@),
        ("click"@, n.click_url@),
        ("icon"@, n.icon_url@),
        ("tags"@, n.tags@),
        ("priority"@, decimal(n.priority as nat)),
        ("x-sequence-id"@, n.sequence_id@),
    ];
    let with_actions = match n.actions {
        Some(a) => base.push(("actions"@, a@)),
        None => base,
    };
    match token {
        Some(t) => with_actions.push(("authorization"@, "Bearer "@ + t)),
        None => with_actions,
    }
}

/// The view of a list of headers.
pub open spec fn header_views(h: Seq<(String, String)>) -> Seq<HeaderPair> {
    h.map_values(|p: (String, String)| (p.0@, p.1@))
}

/// The headers of a publish request (see [`ntfy_headers_of`]).
pub fn build_headers(notification: &RenderedNotification, token: Option<&str>) -> (r: Vec<(String, String)>)
    ensures
        header_views(r@) == ntfy_headers_of(
            *notification,
            match token {
                Some(t) => Some(t@),
                None => None,
            },
        ),
{
    let mut h: Vec<(String, String)> = Vec::new();
    h.push((String::from_str("title"), notification.title.clone()));
    h.push((String::from_str("click"), notification.click_url.clone()));
    h.push((String::from_str("icon"), notification.icon_url.clone()));
    h.push((String::from_str("tags"), notification.tags.clone()));
    h.push((String::from_str("priority"), to_decimal(notification.priority as u64)));
    h.push((String::from_str("x-sequence-id"), notification.sequence_id.clone()));
    let ghost base = header_views(h@);
    proof {
        assert(base =~= seq![
            ("title"@, notification.title@),
            ("click"@, notification.click_url@),
            ("icon"@, notification.icon_url@),
            ("tags"@, notification.tags@),
            ("priority"@, decimal(notification.priority as nat)),
            ("x-sequence-id"@, notification.sequence_id@),
        ]);
    }
    match &notification.actions {
        Some(a) => {
            h.push((String::from_str("actions"), a.clone()));
            proof {
                assert(header_views(h@) =~= base.push(("actions"@, a@)));
            }
        },
        None => {},
    }
    let ghost with_actions = header_views(h@);
    match token {
        Some(t) => {
            let mut v = String::from_str("Bearer ");
            v.append(t);
            h.push((String::from_str("authorization"), v));
            proof {
                assert(header_views(h@) =~= with_actions.push(("authorization"@, "Bearer "@ + t@)));
            }
        },
        None => {},
    }
    h
}

/// The value of the first header called `name`, if any.
pub open spec fn header_named(h: Seq<HeaderPair>, name: Seq<char>) -> Option<Seq<char>>
    decreases h.len(),
{
    if h.len() == 0 {
        None
    } else if h[0].0 == name {
        Some(h[0].1)
    } else {
        header_named(h.drop_first(), name)
    }
}

/// Each publish header carries the field it is named after: `title` the
/// title, `click` the click address, `icon` the icon address, `tags` the
/// tags, `priority` the priority in decimal, `x-sequence-id` the sequence id,
/// `actions` the action buttons (only when there are some) and
/// `authorization` the bearer token (only when there is one); no other
/// header is sent, and no name occurs twice.
pub proof fn law_headers_carry_their_fields(n: RenderedNotification, token: Option<Seq<char>>)
    ensures
        header_named(ntfy_headers_of(n, token), "title"@) == Some(n.title@),
        header_named(ntfy_headers_of(n, token), "click"@) == Some(n.click_url@),
        header_named(ntfy_headers_of(n, token), "icon"@) == Some(n.icon_url@),
        header_named(ntfy_headers_of(n, token), "tags"@) == Some(n.tags@),
        header_named(ntfy_headers_of(n, token), "priority"@) == Some(decimal(n.priority as nat)),
        header_named(ntfy_headers_of(n, token), "x-sequence-id"@) == Some(n.sequence_id@),
        header_named(ntfy_headers_of(n, token), "actions"@) == match n.actions {
            Some(a) => Some(a@),
            None => None::<Seq<char>>,
        },
        header_named(ntfy_headers_of(n, token), "authorization"@) == match token {
            Some(t) => Some("Bearer "@ + t),
            None => None::<Seq<char>>,
        },
        ntfy_headers_of(n, token).len() == 6 + (if n.actions is Some { 1int } else { 0int }) + (if token is Some {
            1int
        } else {
            0int
        }),
        forall|i: int, j: int|
            0 <= i < j < ntfy_headers_of(n, token).len() ==> (#[trigger] ntfy_headers_of(n, token)[i]).0
                != (#[trigger] ntfy_headers_of(n, token)[j]).0,
{
    reveal_strlit("title");
    reveal_strlit("click");
    reveal_strlit("icon");
    reveal_strlit("tags");
    reveal_strlit("priority");
    reveal_strlit("x-sequence-id");
    reveal_strlit("actions");
    reveal_strlit("authorization");
    let h = ntfy_headers_of(n, token);
    let names = seq!["title"@, "click"@, "icon"@, "tags"@, "priority"@, "x-sequence-id"@, "actions"@, "authorization"@];
    assert forall|a: int, b: int| 0 <= a < b < names.len() implies names[a] != names[b] by {
        if names[a] == names[b] {
            assert(names[a].len() == names[b].len());
            assert(names[a][0] == names[b][0]);
            assert(names[a][1] == names[b][1]);
        }
    }
    assert(h[0].0 == names[0] && h[1].0 == names[1] && h[2].0 == names[2] && h[3].0 == names[3]);
    assert(h[4].0 == names[4] && h[5].0 == names[5]);
    if n.actions is Some {
        assert(h[6].0 == names[6]);
        if token is Some {
            assert(h[7].0 == names[7]);
        }
    } else if token is Some {
        assert(h[6].0 == names[7]);
    }
    assert forall|i: int| 0 <= i < h.len() implies exists|k: int| 0 <= k < names.len() && (#[trigger] h[i]).0 == names[k]
        && (k < 6 ==> i == k) && (k == 6 ==> i == 6 && n.actions is Some) && (k == 7 ==> i == h.len() - 1
        && token is Some) by {
        if i < 6 {
            assert(h[i].0 == names[i]);
        } else if i == 6 && n.actions is Some {
            assert(h[i].0 == names[6]);
        } else {
            assert(h[i].0 == names[7]);
        }
    }
    assert forall|i: int, j: int| 0 <= i < j < h.len() implies (#[trigger] h[i]).0 != (#[trigger] h[j]).0 by {
        let ki = choose|k: int| 0 <= k < names.len() && h[i].0 == names[k] && (k < 6 ==> i == k) && (k == 6 ==> i
            == 6 && n.actions is Some) && (k == 7 ==> i == h.len() - 1 && token is Some);
        let kj = choose|k: int| 0 <= k < names.len() && h[j].0 == names[k] && (k < 6 ==> j == k) && (k == 6 ==> j
            == 6 && n.actions is Some) && (k == 7 ==> j == h.len() - 1 && token is Some);
        assert(ki != kj);
    }
    lemma_header_named_at(h, 0);
    lemma_header_named_at(h, 1);
    lemma_header_named_at(h, 2);
    lemma_header_named_at(h, 3);
    lemma_header_named_at(h, 4);
    lemma_header_named_at(h, 5);
    lemma_header_named_absent(h, names[6]);
    lemma_header_named_absent(h, names[7]);
    if h.len() > 6 {
        lemma_header_named_at(h, 6);
    }
    if h.len() > 7 {
        lemma_header_named_at(h, 7);
    }
}

proof fn lemma_header_named_at(h: Seq<HeaderPair>, i: int)
    requires
        0 <= i < h.len(),
        forall|a: int, b: int| 0 <= a < b < h.len() ==> (#[trigger] h[a]).0 != (#[trigger] h[b]).0,
    ensures
        header_named(h, h[i].0) == Some(h[i].1),
    decreases i,
{
    if i > 0 {
        let d = h.drop_first();
        assert(h[0].0 != h[i].0);
        assert(d[i - 1] == h[i]);
        assert forall|a: int, b: int| 0 <= a < b < d.len() implies (#[trigger] d[a]).0 != (#[trigger] d[b]).0 by {
            assert(d[a] == h[a + 1] && d[b] == h[b + 1]);
        }
        lemma_header_named_at(d, i - 1);
    }
}

proof fn lemma_header_named_absent(h: Seq<HeaderPair>, name: Seq<char>)
    ensures
        (forall|i: int| 0 <= i < h.len() ==> (#[trigger] h[i]).0 != name) ==> header_named(h, name) is None,
    decreases h.len(),
{
    if h.len() > 0 {
        let d = h.drop_first();
        if forall|i: int| 0 <= i < h.len() ==> (#[trigger] h[i]).0 != name {
            assert(h[0].0 != name);
            assert forall|i: int| 0 <= i < d.len() implies (#[trigger] d[i]).0 != name by {
                assert(d[i] == h[i + 1]);
            }
        }
        lemma_header_named_absent(d, name);
    }
}

} // verus!
