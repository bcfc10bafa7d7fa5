use vstd::prelude::*;

use crate::config::CrawlConfig;
use crate::text::text_eq;
use crate::web_url::{host_of, path_of, url_host, url_path};

verus! {

/// Whether the regular expression `pattern` matches somewhere in `text`;
/// `None` when `pattern` is not a valid expression.
pub uninterp spec fn pattern_match(pattern: Seq<char>, text: Seq<char>) -> Option<bool>;

/// Relies on `regex::Regex::new` and `Regex::is_match`.
#[verifier::external_body]
fn regex_match(pattern: &str, text: &str) -> (r: Option<bool>)
    ensures
        r == pattern_match(pattern@, text@),
{
    match regex::Regex::new(pattern) {
        Ok(re) => Some(re.is_match(text)),
        Err(_) => None,
    }
}

/// The policy configured for `host`, if the host is configured.
pub open spec fn host_entry(hosts: Seq<(String, Option<bool>)>, host: Seq<char>) -> Option<
    Option<bool>,
>
    decreases hosts.len(),
{
    if hosts.len() == 0 {
        None
    } else if hosts.last().0@ == host {
        Some(hosts.last().1)
    } else {
        host_entry(hosts.drop_last(), host)
    }
}

/// First explicit allow wins: a path is allowed exactly when some pattern
/// whose policy is allow matches it. Deny and unset never revoke an allow;
/// an invalid pattern matches nothing.
pub open spec fn path_allowed(rules: Seq<(String, Option<bool>)>, path: Seq<char>) -> bool {
    exists|i: int|
        0 <= i < rules.len() && rules[i].1 == Some(true) && #[trigger] pattern_match(
            rules[i].0@,
            path,
        ) == Some(true)
}

/// The permission decision for the URL `link`: a configured host policy
/// decides alone; otherwise the path patterns decide. A URL that does not
/// parse is never permitted.
pub open spec fn permitted_url(link: Seq<char>, config: CrawlConfig) -> bool {
    match url_host(link) {
        None => false,
        Some(host) => {
            let entry = match host {
                Some(h) => host_entry(config.hosts@, h),
                None => None,
            };
            match entry {
                Some(Some(b)) => b,
                _ => match url_path(link) {
                    Some(p) => path_allowed(config.path_patterns@, p),
                    None => false,
                },
            }
        },
    }
}

/// Looks `host` up in the host policy map.
pub fn host_policy(hosts: &Vec<(String, Option<bool>)>, host: &str) -> (r: Option<Option<bool>>)
    ensures
        r == host_entry(hosts@, host@),
{
    let mut i: usize = hosts.len();
    assert(hosts@.subrange(0, i as int) =~= hosts@);
    while i > 0
        invariant
            i <= hosts@.len(),
            host_entry(hosts@, host@) == host_entry(hosts@.subrange(0, i as int), host@),
        decreases i,
    {
        assert(hosts@.subrange(0, i as int).drop_last() =~= hosts@.subrange(0, i - 1));
        if text_eq(hosts[i - 1].0.as_str(), host) {
            return Some(hosts[i - 1].1);
        }
        i = i - 1;
    }
    None
}

/// Evaluates the ordered path patterns on `path`.
pub fn permitted_path(path: &str, config: &CrawlConfig) -> (r: bool)
    ensures
        r == path_allowed(config.path_patterns@, path@),
{
    let rules = &config.path_patterns;
    let mut permit = false;
    let mut i: usize = 0;
    while i < rules.len()
        invariant
            i <= rules@.len(),
            permit == exists|j: int|
                0 <= j < i && rules@[j].1 == Some(true) && #[trigger] pattern_match(
                    rules@[j].0@,
                    path@,
                ) == Some(true),
        decreases rules@.len() - i,
    {
        let matched = regex_match(rules[i].0.as_str(), path);
        if matched == Some(true) {
            permit = match rules[i].1 {
                Some(true) => true,
                _ => permit,
            };
        }
        i = i + 1;
    }
    permit
}

/// Whether the URL `link` may be queued.
pub fn permitted(link: &str, config: &CrawlConfig) -> (r: bool)
    ensures
        r == permitted_url(link@, *config),
{
    match host_of(link) {
        None => false,
        Some(host) => {
            let entry = match host {
                Some(h) => host_policy(&config.hosts, h.as_str()),
                None => None,
            };
            match entry {
                Some(Some(b)) => b,
                _ => match path_of(link) {
                    Some(p) => permitted_path(p.as_str(), config),
                    None => false,
                },
            }
        },
    }
}

} // verus!
