use vstd::prelude::*;

use crate::frontier::{after_pushes, Command, PriorityInjector};
use crate::known::KnownURL;

verus! {

/// A candidate link as (URL, is-priority).
pub open spec fn link_views(links: Seq<(String, bool)>) -> Seq<(Seq<char>, bool)> {
    links.map_values(|p: (String, bool)| (p.0@, p.1))
}

/// The URL a command fetches, `None` for a stop signal.
pub open spec fn command_view(c: Command) -> Option<Seq<char>> {
    match c {
        Command::Fetch(u) => Some(u@),
        Command::Stop => None,
    }
}

/// The two tiers of a frontier of commands.
pub open spec fn frontier_model(f: PriorityInjector<Command>) -> (
    Seq<Option<Seq<char>>>,
    Seq<Option<Seq<char>>>,
) {
    (f@.0.map_values(|c: Command| command_view(c)), f@.1.map_values(|c: Command| command_view(c)))
}

/// Whether `u` counts as known once the first `n` links have been seen.
pub open spec fn known_before<K: KnownURL>(
    k: K,
    links: Seq<(Seq<char>, bool)>,
    n: int,
    u: Seq<char>,
) -> bool {
    k.is_known(u) || exists|j: int| 0 <= j < n && #[trigger] K::same_entry(u, links[j].0)
}

/// The first `n` links that are not known when their turn comes, in order.
pub open spec fn fresh_links<K: KnownURL>(k: K, links: Seq<(Seq<char>, bool)>, n: nat) -> Seq<
    (Seq<char>, bool),
>
    decreases n,
{
    if n == 0 {
        Seq::empty()
    } else {
        let rest = fresh_links(k, links, (n - 1) as nat);
        if known_before(k, links, n - 1, links[n - 1].0) {
            rest
        } else {
            rest.push(links[n - 1])
        }
    }
}

/// Fresh links as the pushes of fetch commands.
pub open spec fn fetches(links: Seq<(Seq<char>, bool)>) -> Seq<(Option<Seq<char>>, bool)> {
    links.map_values(|p: (Seq<char>, bool)| (Some(p.0), p.1))
}

/// Feeds the links found on one page back into the frontier: each link not
/// yet known is marked known and then queued in the tier its flag names.
pub fn ingest<K: KnownURL>(
    frontier: &mut PriorityInjector<Command>,
    known: &mut K,
    links: &Vec<(String, bool)>,
)
    ensures
        frontier_model(*final(frontier)) == after_pushes(
            frontier_model(*old(frontier)),
            fetches(fresh_links(*old(known), link_views(links@), links@.len())),
        ),
        forall|u: Seq<char>|
            #[trigger] final(known).is_known(u) == known_before(
                *old(known),
                link_views(links@),
                links@.len() as int,
                u,
            ),
        forall|j: int| 0 <= j < links@.len() ==> final(known).is_known(#[trigger] links@[j].0@),
{
    let ghost k0 = *known;
    let ghost f0 = frontier_model(*frontier);
    let ghost lv = link_views(links@);
    let mut i: usize = 0;
    while i < links.len()
        invariant
            i <= links@.len(),
            lv == link_views(links@),
            frontier_model(*frontier) == after_pushes(f0, fetches(fresh_links(k0, lv, i as nat))),
            forall|u: Seq<char>|
                #[trigger] known.is_known(u) == known_before(k0, lv, i as int, u),
            forall|j: int| 0 <= j < i ==> known.is_known(#[trigger] links@[j].0@),
        decreases links@.len() - i,
    {
        let link = &links[i].0;
        let priority = links[i].1;
        assert(lv[i as int] == (link@, priority));
        let seen = known.contains(link.as_str());
        let ghost kb = *known;
        if !seen {
            known.insert(link.as_str());
            let ghost fb = *frontier;
            frontier.push(Command::Fetch(link.clone()), priority);
            let ghost pushes = fetches(fresh_links(k0, lv, (i + 1) as nat));
            assert(pushes.drop_last() =~= fetches(fresh_links(k0, lv, i as nat)));
            assert(frontier_model(*frontier).0 =~= (if priority {
                frontier_model(fb).0.push(Some(link@))
            } else {
                frontier_model(fb).0
            }));
            assert(frontier_model(*frontier).1 =~= (if priority {
                frontier_model(fb).1
            } else {
                frontier_model(fb).1.push(Some(link@))
            }));
        }
        assert forall|u: Seq<char>|
            #[trigger] known.is_known(u) == known_before(k0, lv, i + 1, u) by {
            if K::same_entry(u, lv[i as int].0) {
                if seen {
                    kb.lemma_entry_known(u, link@);
                }
            }
            if known_before(k0, lv, i as int, u) && !k0.is_known(u) {
                let j = choose|j: int| 0 <= j < i && #[trigger] K::same_entry(u, lv[j].0);
                assert(0 <= j < i + 1 && K::same_entry(u, lv[j].0));
            }
            if known_before(k0, lv, i + 1, u) && !k0.is_known(u) {
                let j = choose|j: int| 0 <= j < i + 1 && #[trigger] K::same_entry(u, lv[j].0);
                if j < i {
                    assert(known_before(k0, lv, i as int, u));
                }
            }
        }
        i = i + 1;
    }
}

/// Processing the same links a second time queues nothing: once every link
/// is known, none is fresh.
pub proof fn lemma_known_links_not_requeued<K: KnownURL>(k: K, links: Seq<(Seq<char>, bool)>)
    requires
        forall|j: int| 0 <= j < links.len() ==> k.is_known(#[trigger] links[j].0),
    ensures
        fresh_links(k, links, links.len()) == Seq::<(Seq<char>, bool)>::empty(),
{
    lemma_known_prefix_not_fresh(k, links, links.len());
}

proof fn lemma_known_prefix_not_fresh<K: KnownURL>(k: K, links: Seq<(Seq<char>, bool)>, n: nat)
    requires
        n <= links.len(),
        forall|j: int| 0 <= j < links.len() ==> k.is_known(#[trigger] links[j].0),
    ensures
        fresh_links(k, links, n) == Seq::<(Seq<char>, bool)>::empty(),
    decreases n,
{
    if n > 0 {
        lemma_known_prefix_not_fresh(k, links, (n - 1) as nat);
        assert(k.is_known(links[n - 1].0));
    }
}

} // verus!
