use vstd::prelude::*;

verus! {

/// A query as a sequence of decoded (key, value) pairs.
pub type QueryModel = Seq<(Seq<char>, Seq<char>)>;

pub open spec fn pairs_view(v: Seq<(String, String)>) -> QueryModel {
    v.map_values(|p: (String, String)| (p.0@, p.1@))
}

pub open spec fn opt_view(o: Option<String>) -> Option<Seq<char>> {
    match o {
        Some(s) => Some(s@),
        None => None,
    }
}

/// The host of the URL `u`; `None` when `u` does not parse.
pub uninterp spec fn url_host(u: Seq<char>) -> Option<Option<Seq<char>>>;

/// The path of the URL `u`; `None` when `u` does not parse.
pub uninterp spec fn url_path(u: Seq<char>) -> Option<Seq<char>>;

/// The raw query string of the URL `u`; `None` when `u` does not parse.
pub uninterp spec fn url_query(u: Seq<char>) -> Option<Option<Seq<char>>>;

/// The decoded query pairs of the URL `u`; `None` when `u` does not parse.
pub uninterp spec fn url_query_pairs(u: Seq<char>) -> Option<QueryModel>;

/// `href` resolved against the URL `base`; `None` when either fails.
pub uninterp spec fn url_join(base: Seq<char>, href: Seq<char>) -> Option<Seq<char>>;

/// The URL `u` without fragment and with its query replaced by the
/// form-encoded `pairs`; `None` when `u` does not parse.
pub uninterp spec fn url_with_pairs(u: Seq<char>, pairs: QueryModel) -> Option<Seq<char>>;

/// Relies on `Url::parse` and `Url::host_str`: the host as the URL
/// serialises it.
#[verifier::external_body]
pub(crate) fn host_of(u: &str) -> (r: Option<Option<String>>)
    ensures
        r matches Some(h) ==> url_host(u@) == Some(opt_view(h)),
        r is None <==> url_host(u@) is None,
{
    reqwest::Url::parse(u).ok().map(|p| p.host_str().map(|h| h.to_string()))
}

/// Relies on `Url::parse` and `Url::path`.
#[verifier::external_body]
pub(crate) fn path_of(u: &str) -> (r: Option<String>)
    ensures
        r matches Some(p) ==> url_path(u@) == Some(p@),
        r is None <==> url_path(u@) is None,
{
    reqwest::Url::parse(u).ok().map(|p| p.path().to_string())
}

/// Relies on `Url::parse` and `Url::query`: the raw text after `?`.
#[verifier::external_body]
pub(crate) fn query_of(u: &str) -> (r: Option<Option<String>>)
    ensures
        r matches Some(q) ==> url_query(u@) == Some(opt_view(q)),
        r is None <==> url_query(u@) is None,
{
    reqwest::Url::parse(u).ok().map(|p| p.query().map(|q| q.to_string()))
}

/// Relies on `Url::parse` and `Url::query_pairs`: the query decoded as
/// `application/x-www-form-urlencoded`, pairs in their order.
#[verifier::external_body]
pub(crate) fn query_pairs_of(u: &str) -> (r: Option<Vec<(String, String)>>)
    ensures
        r matches Some(q) ==> url_query_pairs(u@) == Some(pairs_view(q@)),
        r is None <==> url_query_pairs(u@) is None,
{
    reqwest::Url::parse(u).ok().map(
        |p| p.query_pairs().map(|(k, v)| (k.into_owned(), v.into_owned())).collect(),
    )
}

/// Relies on `Url::parse` and `Url::join`: `href` resolved against `base`.
#[verifier::external_body]
pub(crate) fn join(base: &str, href: &str) -> (r: Option<String>)
    ensures
        r matches Some(j) ==> url_join(base@, href@) == Some(j@),
        r is None <==> url_join(base@, href@) is None,
{
    reqwest::Url::parse(base).ok().and_then(|b| b.join(href).ok()).map(|j| j.to_string())
}

/// Relies on `Url::set_fragment`, `Url::set_query` and
/// `Url::query_pairs_mut`: drops fragment and query, then appends each
/// pair form-encoded; with no pair the URL keeps no `?`.
#[verifier::external_body]
pub(crate) fn with_pairs(u: &str, pairs: &Vec<(String, String)>) -> (r: Option<String>)
    ensures
        r matches Some(s) ==> url_with_pairs(u@, pairs_view(pairs@)) == Some(s@),
        r is None <==> url_with_pairs(u@, pairs_view(pairs@)) is None,
{
    let mut link = reqwest::Url::parse(u).ok()?;
    link.set_fragment(None);
    link.set_query(None);
    for (key, value) in pairs.iter() {
        link.query_pairs_mut().append_pair(key, value);
    }
    Some(link.to_string())
}

} // verus!
