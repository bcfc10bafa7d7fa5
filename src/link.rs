use vstd::prelude::*;

use crate::text::{is_prefix, starts_with, text_eq};
use crate::web_url::{
    join, pairs_view, query_pairs_of, url_join, url_query_pairs, url_with_pairs, with_pairs,
    QueryModel,
};

verus! {

/// `q` without every pair whose key is `key`, the others in their order.
pub open spec fn without_key(q: QueryModel, key: Seq<char>) -> QueryModel
    decreases q.len(),
{
    if q.len() == 0 {
        q
    } else {
        let rest = without_key(q.drop_last(), key);
        if q.last().0 == key {
            rest
        } else {
            rest.push(q.last())
        }
    }
}

/// The query key that a link never keeps.
pub open spec fn dropped_key() -> Seq<char> {
    "comments_after"@
}

/// The normal form of the link `href` found on a page whose base URL is
/// `base`: resolved, without fragment, without the `comments_after` key,
/// every other query pair kept in order.
pub open spec fn normalized_link(base: Seq<char>, href: Seq<char>) -> Option<Seq<char>> {
    match url_join(base, href) {
        None => None,
        Some(j) => match url_query_pairs(j) {
            None => None,
            Some(q) => url_with_pairs(j, without_key(q, dropped_key())),
        },
    }
}

/// A link is a priority link exactly when the requested path lies under
/// `/s/` and the link's path is the same path.
pub open spec fn priority_link(source_path: Seq<char>, target_path: Seq<char>) -> bool {
    is_prefix("/s/"@, source_path) && source_path == target_path
}

/// Removing a key twice is removing it once.
pub proof fn lemma_without_key_idempotent(q: QueryModel, key: Seq<char>)
    ensures
        without_key(without_key(q, key), key) == without_key(q, key),
    decreases q.len(),
{
    if q.len() > 0 {
        lemma_without_key_idempotent(q.drop_last(), key);
        let rest = without_key(q.drop_last(), key);
        if q.last().0 != key {
            assert(rest.push(q.last()).drop_last() =~= rest);
        }
    }
}

/// No pair with the removed key is left, wherever it stood, and every pair
/// with another key stays.
pub proof fn lemma_without_key_contents(q: QueryModel, key: Seq<char>)
    ensures
        forall|i: int|
            0 <= i < without_key(q, key).len() ==> #[trigger] without_key(q, key)[i].0 != key,
        forall|i: int|
            0 <= i < q.len() && q[i].0 != key ==> without_key(q, key).contains(#[trigger] q[i]),
    decreases q.len(),
{
    if q.len() > 0 {
        lemma_without_key_contents(q.drop_last(), key);
        let rest = without_key(q.drop_last(), key);
        assert forall|i: int| 0 <= i < q.len() && q[i].0 != key implies without_key(
            q,
            key,
        ).contains(#[trigger] q[i]) by {
            if i < q.len() - 1 {
                assert(q.drop_last()[i] == q[i]);
                let k = choose|k: int| 0 <= k < rest.len() && rest[k] == q[i];
                if q.last().0 != key {
                    assert(rest.push(q.last())[k] == q[i]);
                }
            } else {
                assert(rest.push(q.last())[rest.len() as int] == q[i]);
            }
        }
    }
}

/// `q` without the pairs whose key is `key`.
pub fn remove_key(q: &Vec<(String, String)>, key: &str) -> (r: Vec<(String, String)>)
    ensures
        pairs_view(r@) == without_key(pairs_view(q@), key@),
{
    let mut out: Vec<(String, String)> = Vec::new();
    let mut i: usize = 0;
    while i < q.len()
        invariant
            i <= q@.len(),
            pairs_view(out@) == without_key(pairs_view(q@.subrange(0, i as int)), key@),
        decreases q@.len() - i,
    {
        assert(pairs_view(q@.subrange(0, i + 1)).drop_last() =~= pairs_view(
            q@.subrange(0, i as int),
        ));
        if !text_eq(q[i].0.as_str(), key) {
            let ghost before = out@;
            let pair = (q[i].0.clone(), q[i].1.clone());
            out.push(pair);
            assert(pairs_view(out@) =~= pairs_view(before).push((q@[i as int].0@, q@[i as int].1@)));
        }
        i = i + 1;
    }
    assert(q@.subrange(0, q@.len() as int) =~= q@);
    out
}

/// Normalises the link `href` found on a page whose base URL is `base`.
pub fn normalize_link(base: &str, href: &str) -> (r: Option<String>)
    ensures
        r matches Some(s) ==> normalized_link(base@, href@) == Some(s@),
        r is None <==> normalized_link(base@, href@) is None,
{
    let joined = match join(base, href) {
        Some(j) => j,
        None => return None,
    };
    let pairs = match query_pairs_of(joined.as_str()) {
        Some(q) => q,
        None => return None,
    };
    let kept = remove_key(&pairs, "comments_after");
    with_pairs(joined.as_str(), &kept)
}

/// Classifies a link by its path against the path of the requested page.
pub fn is_priority(source_path: &str, target_path: &str) -> (r: bool)
    ensures
        r == priority_link(source_path@, target_path@),
{
    starts_with(source_path, "/s/") && text_eq(source_path, target_path)
}

} // verus!
