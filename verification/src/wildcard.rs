//! Wildcard patterns, as `wildmatch` matches them.

use vstd::prelude::*;

verus! {

/// `p` matches the whole of `s`, where `?` in `p` stands for exactly one
/// character, `*` for any run of characters (the empty one too), and every
/// other character for itself.  There is no escape character.
pub open spec fn glob_match(p: Seq<char>, s: Seq<char>) -> bool
    decreases p.len() + s.len(),
{
    if p.len() == 0 {
        s.len() == 0
    } else if p[0] == '*' {
        glob_match(p.drop_first(), s) || (s.len() > 0 && glob_match(p, s.drop_first()))
    } else {
        s.len() > 0 && (p[0] == '?' || p[0] == s[0]) && glob_match(p.drop_first(), s.drop_first())
    }
}

/// `wildmatch::WildMatch::new(pattern).matches(text)`.  The crate documents
/// that the pattern must match the entire text, that `?` matches exactly one
/// character, that `*` matches any number of characters including none, and
/// that there are no escape characters; the contract states exactly that.
#[verifier::external_body]
pub(crate) fn wildcard_matches(pattern: &str, text: &str) -> (r: bool)
    ensures
        r == glob_match(pattern@, text@),
{
    wildmatch::WildMatch::new(pattern).matches(text)
}

/// `p` holds no wildcard character.
pub open spec fn is_plain_pattern(p: Seq<char>) -> bool {
    forall|i: int| 0 <= i < p.len() ==> #[trigger] p[i] != '*' && p[i] != '?'
}

/// A lone `*` matches every text.
pub proof fn law_star_matches_everything(s: Seq<char>)
    ensures
        glob_match("*"@, s),
    decreases s.len(),
{
    reveal_strlit("*");
    let star = "*"@;
    assert(star.len() == 1 && star[0] == '*');
    assert(star.drop_first() =~= Seq::<char>::empty());
    if s.len() > 0 {
        law_star_matches_everything(s.drop_first());
        assert(glob_match(star, s.drop_first()));
    } else {
        assert(glob_match(star.drop_first(), s));
    }
    assert(glob_match(star, s));
}

/// A pattern without wildcards matches exactly the text equal to it.
pub proof fn law_plain_pattern_matches_only_itself(p: Seq<char>, s: Seq<char>)
    requires
        is_plain_pattern(p),
    ensures
        glob_match(p, s) <==> p == s,
    decreases p.len(),
{
    if p.len() > 0 {
        assert(is_plain_pattern(p.drop_first())) by {
            assert forall|i: int| 0 <= i < p.drop_first().len() implies #[trigger] p.drop_first()[i] != '*'
                && p.drop_first()[i] != '?' by {
                assert(p.drop_first()[i] == p[i + 1]);
            }
        }
        assert(p[0] != '*' && p[0] != '?');
        if s.len() > 0 {
            law_plain_pattern_matches_only_itself(p.drop_first(), s.drop_first());
            assert(p =~= seq![p[0]] + p.drop_first());
            assert(s =~= seq![s[0]] + s.drop_first());
            if p == s {
                assert(p.drop_first() =~= s.drop_first());
            }
        }
    } else {
        if s.len() == 0 {
            assert(p =~= s);
        }
    }
}

/// Text before a pattern matches the same text before anything the pattern
/// matches (each character matches itself, wildcards too).
pub proof fn lemma_prefix_matches(prefix: Seq<char>, p: Seq<char>, s: Seq<char>)
    requires
        glob_match(p, s),
    ensures
        glob_match(prefix + p, prefix + s),
    decreases prefix.len(),
{
    if prefix.len() > 0 {
        let rest = prefix.drop_first();
        lemma_prefix_matches(rest, p, s);
        assert((prefix + p).drop_first() =~= rest + p);
        assert((prefix + s).drop_first() =~= rest + s);
        assert((prefix + p)[0] == prefix[0]);
        assert((prefix + s)[0] == prefix[0]);
        if prefix[0] == '*' {
            let pp = prefix + p;
            assert(glob_match(pp.drop_first(), rest + s));
            assert(glob_match(pp, rest + s));
        }
    } else {
        assert(prefix + p =~= p);
        assert(prefix + s =~= s);
    }
}

/// Every pattern matches its own text: each character, `*` and `?` too,
/// matches itself.
pub proof fn law_pattern_matches_itself(p: Seq<char>)
    ensures
        glob_match(p, p),
    decreases p.len(),
{
    if p.len() > 0 {
        law_pattern_matches_itself(p.drop_first());
        if p[0] == '*' {
            assert(glob_match(p.drop_first(), p.drop_first()));
            assert(glob_match(p, p.drop_first()));
        }
    }
}

} // verus!
