//! Which repositories auto-watch subscribes to.

use vstd::prelude::*;

use crate::config::AutoWatchConfig;
use crate::github::model::AutoWatchRepository;
use crate::text::{copy_str, occurs_at, str_eq, strip_prefix, views};
use crate::wildcard::{glob_match, lemma_prefix_matches, law_star_matches_everything, wildcard_matches};

verus! {

/// A pattern with `@me` standing for the current login: `@me` alone is the
/// login, a leading `@me/` is the login and a slash; other patterns are kept.
pub open spec fn expand_me_spec(pattern: Seq<char>, current_user: Seq<char>) -> Seq<char> {
    if pattern == "@me"@ {
        current_user
    } else if occurs_at(pattern, "@me/"@, 0) {
        current_user + "/"@ + pattern.skip("@me/"@.len() as int)
    } else {
        pattern
    }
}

/// Some pattern of `patterns`, with `@me` expanded, matches `full_name`.
pub open spec fn matches_any_spec(patterns: Seq<Seq<char>>, full_name: Seq<char>, current_user: Seq<char>) -> bool {
    exists|i: int|
        0 <= i < patterns.len() && #[trigger] glob_match(
            expand_me_spec(patterns[i], current_user),
            full_name,
        )
}

/// A repository is watched when an included pattern matches its full name and
/// no excluded pattern does, `@me` standing for the current login in both.
pub open spec fn watches(config: AutoWatchConfig, full_name: Seq<char>, current_user: Seq<char>) -> bool {
    matches_any_spec(views(config.included@), full_name, current_user) && !matches_any_spec(
        views(config.exclude@),
        full_name,
        current_user,
    )
}

/// Whether auto-watch subscribes to `repository` for `current_user`.
pub fn should_watch_repository(
    config: &AutoWatchConfig,
    repository: &AutoWatchRepository,
    current_user: &str,
) -> (r: bool)
    ensures
        r == watches(*config, repository.full_name@, current_user@),
{
    matches_any(&config.included, repository.full_name.as_str(), current_user) && !matches_any(
        &config.exclude,
        repository.full_name.as_str(),
        current_user,
    )
}

fn matches_any(patterns: &Vec<String>, full_name: &str, current_user: &str) -> (r: bool)
    ensures
        r == matches_any_spec(views(patterns@), full_name@, current_user@),
{
    let mut i: usize = 0;
    while i < patterns.len()
        invariant
            i <= patterns@.len(),
            forall|j: int|
                0 <= j < i ==> !glob_match(
                    expand_me_spec(#[trigger] views(patterns@)[j], current_user@),
                    full_name@,
                ),
        decreases patterns.len() - i,
    {
        let pattern = expand_me(patterns[i].as_str(), current_user);
        if wildcard_matches(pattern.as_str(), full_name) {
            proof {
                assert(views(patterns@)[i as int] == patterns@[i as int]@);
                assert(glob_match(expand_me_spec(views(patterns@)[i as int], current_user@), full_name@));
            }
            return true;
        }
        proof {
            assert(views(patterns@)[i as int] == patterns@[i as int]@);
        }
        i += 1;
    }
    false
}

/// Expands `@me` in a pattern to the current login.
pub fn expand_me(pattern: &str, current_user: &str) -> (r: String)
    ensures
        r@ == expand_me_spec(pattern@, current_user@),
{
    if str_eq(pattern, "@me") {
        return copy_str(current_user);
    }
    match strip_prefix(pattern, "@me/") {
        Some(rest) => {
            let mut r = copy_str(current_user);
            r.append("/");
            r.append(rest.as_str());
            r
        },
        None => copy_str(pattern),
    }
}

/// With `@me/*` among the included patterns, every repository of the current
/// user that no excluded pattern matches is watched.
pub proof fn law_me_star_watches_own_repositories(config: AutoWatchConfig, user: Seq<char>, name: Seq<char>)
    requires
        views(config.included@).contains("@me/*"@),
        !matches_any_spec(views(config.exclude@), user + "/"@ + name, user),
    ensures
        watches(config, user + "/"@ + name, user),
{
    reveal_strlit("@me/*");
    reveal_strlit("@me/");
    reveal_strlit("@me");
    reveal_strlit("*");
    reveal_strlit("/");
    let pat = "@me/*"@;
    assert(pat != "@me"@) by {
        assert(pat.len() != "@me"@.len());
    }
    assert(occurs_at(pat, "@me/"@, 0)) by {
        assert(pat.subrange(0, 4) =~= "@me/"@);
    }
    assert(pat.skip(4) =~= "*"@);
    assert(expand_me_spec(pat, user) == user + "/"@ + "*"@);
    law_star_matches_everything(name);
    lemma_prefix_matches(user + "/"@, "*"@, name);
    let i = choose|i: int| 0 <= i < views(config.included@).len() && views(config.included@)[i] == pat;
    assert(glob_match(expand_me_spec(views(config.included@)[i], user), user + "/"@ + name));
}

} // verus!
