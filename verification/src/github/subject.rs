//! Reading the answers of the GitHub REST API: pull request addresses,
//! poll intervals, repository pages, subscription failures and tokens.

use vstd::prelude::*;

use crate::github::model::RepositorySubscriptionResult;
use crate::text::{contains, contains_seq, copy_str, is_blank, parse_i64, parse_u64, parsed_i64, parsed_u64, str_eq, trim, trimmed, views};

verus! {

/// The repository and number a pull request address names.
#[derive(Debug, Clone)]
pub struct PullRequestSubject {
    pub owner: String,
    pub repo: String,
    pub number: i64,
}

/// What two outside calls in sequence give for an address: `Url::parse`,
/// then `Url::path_segments` of the parsed URL.  Nothing when it is not a
/// URL; else its path segments, when it has a path.
pub uninterp spec fn url_path_segments_of(url: Seq<char>) -> Option<Option<Seq<Seq<char>>>>;

/// The view of the path segments of a parsed address.
pub open spec fn segments_view(s: Option<Option<Vec<String>>>) -> Option<Option<Seq<Seq<char>>>> {
    match s {
        Some(Some(v)) => Some(Some(views(v@))),
        Some(None) => Some(None),
        None => None,
    }
}

/// `reqwest::Url::parse` followed by `Url::path_segments`: `None` when the
/// address does not parse, `Some(None)` when it has no path, else its
/// percent-encoded path segments.  The result is named
/// `url_path_segments_of` of the address; nothing more is stated of it.
#[verifier::external_body]
fn url_path_segments(url: &str) -> (r: Option<Option<Vec<String>>>)
    ensures
        segments_view(r) == url_path_segments_of(url@),
{
    match reqwest::Url::parse(url) {
        Ok(parsed) => match parsed.path_segments() {
            Some(segments) => Some(Some(segments.map(String::from).collect())),
            None => Some(None),
        },
        Err(_) => None,
    }
}

/// The pull request an address names, from its parsed path: exactly
/// `repos/<owner>/<repo>/pulls/<number>`, the number an `i64`.
pub open spec fn subject_from_segments(url: Seq<char>, segments: Option<Option<Seq<Seq<char>>>>) -> Result<(Seq<char>, Seq<char>, i64), Seq<char>> {
    match segments {
        None => Err("failed to parse pull request subject URL: "@ + url),
        Some(None) => Err("pull request subject URL has no path segments"@),
        Some(Some(segs)) => if segs.len() == 5 && segs[0] == "repos"@ && segs[3] == "pulls"@ {
            match parsed_i64(segs[4]) {
                Some(n) => Ok((segs[1], segs[2], n)),
                None => Err("invalid pull request number in "@ + url),
            }
        } else {
            Err("unsupported pull request subject URL: "@ + url)
        },
    }
}

/// The view of a parsed pull request subject.
pub open spec fn subject_view(r: Result<PullRequestSubject, String>) -> Result<(Seq<char>, Seq<char>, i64), Seq<char>> {
    match r {
        Ok(s) => Ok((s.owner@, s.repo@, s.number)),
        Err(m) => Err(m@),
    }
}

/// The pull request an address names, given how the address parses (see
/// [`subject_from_segments`]).
pub fn pull_request_subject_from_segments(subject_url: &str, segments: Option<Option<Vec<String>>>) -> (r: Result<
    PullRequestSubject,
    String,
>)
    ensures
        subject_view(r) == subject_from_segments(subject_url@, segments_view(segments)),
{
    match segments {
        None => {
            let mut m = String::from_str("failed to parse pull request subject URL: ");
            m.append(subject_url);
            Err(m)
        },
        Some(None) => Err(String::from_str("pull request subject URL has no path segments")),
        Some(Some(segs)) => {
            proof {
                if segs@.len() == 5 {
                    assert(views(segs@)[0] == segs@[0]@);
                    assert(views(segs@)[1] == segs@[1]@);
                    assert(views(segs@)[2] == segs@[2]@);
                    assert(views(segs@)[3] == segs@[3]@);
                    assert(views(segs@)[4] == segs@[4]@);
                }
            }
            if segs.len() == 5 && str_eq(segs[0].as_str(), "repos") && str_eq(segs[3].as_str(), "pulls") {
                match parse_i64(segs[4].as_str()) {
                    Some(number) => Ok(
                        PullRequestSubject { owner: segs[1].clone(), repo: segs[2].clone(), number },
                    ),
                    None => {
                        let mut m = String::from_str("invalid pull request number in ");
                        m.append(subject_url);
                        Err(m)
                    },
                }
            } else {
                let mut m = String::from_str("unsupported pull request subject URL: ");
                m.append(subject_url);
                Err(m)
            }
        },
    }
}

/// The pull request an API address names (see [`subject_from_segments`]).
pub fn parse_pull_request_subject(subject_url: &str) -> (r: Result<PullRequestSubject, String>)
    ensures
        subject_view(r) == subject_from_segments(subject_url@, url_path_segments_of(subject_url@)),
{
    pull_request_subject_from_segments(subject_url, url_path_segments(subject_url))
}

/// The poll interval GitHub asks for in its `X-Poll-Interval` header, when
/// the header is present, is text, and is a `u64`.
pub fn parse_poll_interval(header: Option<&str>) -> (r: Option<u64>)
    ensures
        r == match header {
            Some(h) => parsed_u64(h@),
            None => None,
        },
{
    match header {
        Some(h) => parse_u64(h),
        None => None,
    }
}

/// The outcome of a refused subscription request: a skip when GitHub says
/// access to the repository is blocked (403 with that text), else a failure
/// naming the repository, the status and the body.
pub open spec fn subscription_failure(full_name: Seq<char>, status: u16, status_text: Seq<char>, body: Seq<char>) -> Result<Seq<char>, Seq<char>> {
    if status == 403 && contains_seq(body, "Repository access blocked"@) {
        Ok(status_text + ": "@ + body)
    } else {
        Err("repository subscription request failed for "@ + full_name + ": "@ + status_text + ": "@ + body)
    }
}

/// Sorts a refused subscription request into a skip or a failure (see
/// [`subscription_failure`]); `status_text` is how the status prints, such
/// as `403 Forbidden`.
pub fn skipped_or_error(full_name: &str, status: u16, status_text: &str, body: String) -> (r: Result<
    RepositorySubscriptionResult,
    String,
>)
    ensures
        match r {
            Ok(RepositorySubscriptionResult::Skipped { reason }) => subscription_failure(
                full_name@,
                status,
                status_text@,
                body@,
            ) == Ok::<Seq<char>, Seq<char>>(reason@),
            Ok(RepositorySubscriptionResult::Subscribed) => false,
            Err(m) => subscription_failure(full_name@, status, status_text@, body@) == Err::<
                Seq<char>,
                Seq<char>,
            >(m@),
        },
{
    if status == 403 && contains(body.as_str(), "Repository access blocked") {
        let mut reason = copy_str(status_text);
        reason.append(": ");
        reason.append(body.as_str());
        return Ok(RepositorySubscriptionResult::Skipped { reason });
    }
    let mut m = String::from_str("repository subscription request failed for ");
    m.append(full_name);
    m.append(": ");
    m.append(status_text);
    m.append(": ");
    m.append(body.as_str());
    Err(m)
}

/// The page size for listing repositories: the configured page size kept
/// between 1 and 100.
pub fn repository_page_size(per_page: u32) -> (r: u32)
    ensures
        r == if per_page < 1 { 1 } else if per_page > 100 { 100 } else { per_page },
{
    if per_page < 1 {
        1
    } else if per_page > 100 {
        100
    } else {
        per_page
    }
}

/// A page with fewer repositories than the page size is the last one.
pub fn is_last_repository_page(batch_len: usize, per_page: u32) -> (r: bool)
    ensures
        r == (batch_len < per_page),
{
    batch_len < per_page as usize
}

/// The configured token, unless it is missing or blank.
pub fn configured_token(token: Option<&str>) -> (r: Option<String>)
    ensures
        match r {
            Some(t) => token matches Some(x) && !is_blank(x@) && t@ == x@,
            None => token is None || is_blank(token->0@),
        },
{
    match token {
        Some(t) => if trim(t).is_empty() {
            None
        } else {
            Some(copy_str(t))
        },
        None => None,
    }
}

/// The token printed by `gh auth token`, trimmed; refused when blank.
pub fn token_from_gh_output(output: &str) -> (r: Result<String, String>)
    ensures
        match r {
            Ok(t) => !is_blank(output@) && t@ == trimmed(output@),
            Err(m) => is_blank(output@) && m@
                == "`gh auth token` returned an empty token; set github.token in config or login with `gh auth login`"@,
        },
{
    let t = trim(output);
    if t.is_empty() {
        return Err(
            String::from_str(
                "`gh auth token` returned an empty token; set github.token in config or login with `gh auth login`",
            ),
        );
    }
    Ok(copy_str(t))
}

} // verus!
