use vstd::prelude::*;

use crate::config::{CrawlConfig, ParseRule};
use crate::extract::{
    author_of, body_lines, body_of, concat_all, page_number, page_of, title_of, author_text,
    title_text,
};
use crate::html::{
    class_inner_texts, class_texts, html_class_inner_texts, html_class_texts,
    html_nested_attrs, html_nested_texts, html_tag_attrs, nested_attrs, nested_texts, optss,
    opts, strss, tag_attrs,
};
use crate::ingest::link_views;
use crate::link::{is_priority, normalize_link, normalized_link, priority_link};
use crate::permission::{permitted, permitted_url};
use crate::story::Story;
use crate::text::{join_texts, join_with, split_on, split_text, strs, text_eq, trim, trimmed, unique, unique_texts};
use crate::web_url::{path_of, query_pairs_of, url_path, url_query_pairs};

verus! {

/// The page extractor.
#[derive(Debug, Default)]
pub struct Lit {}

/// The `content` of each `meta` element whose `name` is `keywords`.
pub open spec fn keyword_contents(names: Seq<Option<Seq<char>>>, contents: Seq<Option<Seq<char>>>) -> Seq<Seq<char>>
    decreases contents.len(),
{
    if contents.len() == 0 {
        Seq::empty()
    } else {
        let n = (contents.len() - 1) as int;
        let rest = keyword_contents(names, contents.drop_last());
        if n < names.len() && names[n] == Some("keywords"@) && contents[n] is Some {
            rest.push(contents[n]->0)
        } else {
            rest
        }
    }
}

/// The keywords: per head the keyword contents joined by spaces, the heads
/// joined by spaces, split at commas, each piece trimmed.
pub open spec fn keywords_of(names: Seq<Seq<Option<Seq<char>>>>, contents: Seq<Seq<Option<Seq<char>>>>) -> Seq<Seq<char>> {
    let heads = Seq::new(
        contents.len(),
        |h: int|
            join_with(
                keyword_contents(
                    if h < names.len() {
                        names[h]
                    } else {
                        Seq::empty()
                    },
                    contents[h],
                ),
                " "@,
            ),
    );
    split_on(join_with(heads, " "@), ',').map_values(|k: Seq<char>| trimmed(k))
}

/// The first value present in `s`.
pub open spec fn first_some(s: Seq<Option<Seq<char>>>) -> Option<Seq<char>>
    decreases s.len(),
{
    if s.len() == 0 {
        None
    } else {
        match first_some(s.drop_last()) {
            Some(x) => Some(x),
            None => s.last(),
        }
    }
}

/// The base URL: the first `base` href in the first head, else the request URI.
pub open spec fn base_of(uri: Seq<char>, heads: Seq<Seq<Option<Seq<char>>>>) -> Seq<char> {
    if heads.len() == 0 {
        uri
    } else {
        match first_some(heads[0]) {
            Some(b) => b,
            None => uri,
        }
    }
}

/// The body: for each story rule in order, the lines of its paragraphs.
pub open spec fn story_of(html: Seq<char>, rules: Seq<ParseRule>) -> Seq<Seq<char>> {
    concat_all(
        Seq::new(
            rules.len(),
            |i: int| body_of(html_class_inner_texts(html, rules[i].name@, rules[i].class@, "p"@)),
        ),
    )
}

/// The texts that the author rules select, rule by rule.
pub open spec fn author_texts(html: Seq<char>, rules: Seq<ParseRule>) -> Seq<Seq<char>> {
    concat_all(
        Seq::new(rules.len(), |i: int| html_class_texts(html, rules[i].name@, rules[i].class@)),
    )
}

/// The normalized, permitted links of the anchors, in document order.
pub open spec fn accepted_links(base: Seq<char>, hrefs: Seq<Option<Seq<char>>>, config: CrawlConfig) -> Seq<Seq<char>>
    decreases hrefs.len(),
{
    if hrefs.len() == 0 {
        Seq::empty()
    } else {
        let rest = accepted_links(base, hrefs.drop_last(), config);
        match hrefs.last() {
            Some(h) => match normalized_link(base, h) {
                Some(l) => if permitted_url(l, config) {
                    rest.push(l)
                } else {
                    rest
                },
                None => rest,
            },
            None => rest,
        }
    }
}

/// The distinct candidate links of a page.
pub open spec fn page_links(uri: Seq<char>, config: CrawlConfig, html: Seq<char>) -> Seq<Seq<char>> {
    unique(
        accepted_links(
            base_of(uri, html_nested_attrs(html, "head"@, "base"@, "href"@)),
            html_tag_attrs(html, "a"@, "href"@),
            config,
        ),
    )
}

/// Whether `link` is a priority link for a page at `request_path`.
pub open spec fn link_priority(request_path: Seq<char>, link: Seq<char>) -> bool {
    match url_path(link) {
        Some(p) => priority_link(request_path, p),
        None => false,
    }
}

pub open spec fn classified(request_path: Seq<char>, links: Seq<Seq<char>>) -> Seq<(Seq<char>, bool)> {
    links.map_values(|l: Seq<char>| (l, link_priority(request_path, l)))
}

/// The content of each `meta` element named `keywords`.
fn keyword_values(names: &Vec<Option<String>>, contents: &Vec<Option<String>>) -> (r: Vec<String>)
    ensures
        strs(r@) == keyword_contents(opts(names@), opts(contents@)),
{
    let mut out: Vec<String> = Vec::new();
    let mut i: usize = 0;
    while i < contents.len()
        invariant
            i <= contents@.len(),
            strs(out@) == keyword_contents(opts(names@), opts(contents@).subrange(0, i as int)),
        decreases contents@.len() - i,
    {
        assert(opts(contents@).subrange(0, i + 1).drop_last() =~= opts(contents@).subrange(0, i as int));
        if i < names.len() {
            match (&names[i], &contents[i]) {
                (Some(name), Some(content)) => {
                    if text_eq(name.as_str(), "keywords") {
                        let ghost before = out@;
                        out.push(content.clone());
                        assert(strs(out@) =~= strs(before).push(content@));
                    }
                },
                _ => {},
            }
        }
        i = i + 1;
    }
    assert(opts(contents@).subrange(0, contents@.len() as int) =~= opts(contents@));
    out
}

/// The keywords of a page from its heads' `meta` names and contents.
pub fn keyword_list(names: &Vec<Vec<Option<String>>>, contents: &Vec<Vec<Option<String>>>) -> (r: Vec<String>)
    ensures
        strs(r@) == keywords_of(optss(names@), optss(contents@)),
{
    let ghost heads = Seq::new(
        optss(contents@).len(),
        |h: int|
            join_with(
                keyword_contents(
                    if h < optss(names@).len() {
                        optss(names@)[h]
                    } else {
                        Seq::empty()
                    },
                    optss(contents@)[h],
                ),
                " "@,
            ),
    );
    let mut joined_heads: Vec<String> = Vec::new();
    let mut h: usize = 0;
    while h < contents.len()
        invariant
            h <= contents@.len(),
            heads.len() == contents@.len(),
            strs(joined_heads@) == heads.subrange(0, h as int),
            heads == Seq::new(
                optss(contents@).len(),
                |h: int|
                    join_with(
                        keyword_contents(
                            if h < optss(names@).len() {
                                optss(names@)[h]
                            } else {
                                Seq::empty()
                            },
                            optss(contents@)[h],
                        ),
                        " "@,
                    ),
            ),
        decreases contents@.len() - h,
    {
        let empty: Vec<Option<String>> = Vec::new();
        let head_names = if h < names.len() {
            &names[h]
        } else {
            &empty
        };
        assert(opts(head_names@) == (if h < optss(names@).len() {
            optss(names@)[h as int]
        } else {
            Seq::empty()
        })) by {
            if h >= names@.len() {
                assert(opts(head_names@) =~= Seq::empty());
            }
        }
        let values = keyword_values(head_names, &contents[h]);
        let line = join_texts(&values, " ");
        assert(optss(contents@)[h as int] == opts(contents@[h as int]@));
        assert(line@ == heads[h as int]);
        let ghost before = joined_heads@;
        joined_heads.push(line);
        assert(strs(joined_heads@) =~= strs(before).push(heads[h as int]));
        assert(strs(joined_heads@) =~= heads.subrange(0, h + 1));
        h = h + 1;
    }
    assert(heads.subrange(0, heads.len() as int) =~= heads);
    let all = join_texts(&joined_heads, " ");
    let pieces = split_text(all.as_str(), ',');
    let mut out: Vec<String> = Vec::new();
    let mut k: usize = 0;
    while k < pieces.len()
        invariant
            k <= pieces@.len(),
            strs(out@) == strs(pieces@).subrange(0, k as int).map_values(|k: Seq<char>| trimmed(k)),
        decreases pieces@.len() - k,
    {
        let ghost before = out@;
        let ghost p = pieces@[k as int]@;
        out.push(trim(pieces[k].as_str()));
        assert(strs(out@) =~= strs(before).push(trimmed(p)));
        assert(strs(pieces@).subrange(0, k + 1) =~= strs(pieces@).subrange(0, k as int).push(p));
        assert(strs(pieces@).subrange(0, k as int).push(p).map_values(|k: Seq<char>| trimmed(k))
            =~= strs(pieces@).subrange(0, k as int).map_values(|k: Seq<char>| trimmed(k)).push(
            trimmed(p),
        ));
        assert(strs(out@) =~= strs(pieces@).subrange(0, k + 1).map_values(|k: Seq<char>| trimmed(k)));
        k = k + 1;
    }
    assert(strs(pieces@).subrange(0, pieces@.len() as int) =~= strs(pieces@));
    out
}

/// The base URL of a page from its heads' `base` hrefs.
pub fn base_url(uri: &str, heads: &Vec<Vec<Option<String>>>) -> (r: String)
    ensures
        r@ == base_of(uri@, optss(heads@)),
{
    if heads.len() == 0 {
        return uri.to_string();
    }
    let first = &heads[0];
    assert(optss(heads@)[0] == opts(first@));
    let mut i: usize = 0;
    while i < first.len()
        invariant
            i <= first@.len(),
            heads@.len() > 0,
            optss(heads@)[0] == opts(first@),
            first_some(opts(first@).subrange(0, i as int)) is None,
        decreases first@.len() - i,
    {
        assert(opts(first@).subrange(0, i + 1).drop_last() =~= opts(first@).subrange(0, i as int));
        match &first[i] {
            Some(b) => {
                assert(opts(first@)[i as int] == Some(b@));
                proof {
                    lemma_first_some_extends(opts(first@), i + 1);
                }
                return b.clone();
            },
            None => {},
        }
        i = i + 1;
    }
    assert(opts(first@).subrange(0, first@.len() as int) =~= opts(first@));
    uri.to_string()
}

proof fn lemma_first_some_extends(s: Seq<Option<Seq<char>>>, n: int)
    requires
        0 < n <= s.len(),
        s.subrange(0, n).last() is Some,
        first_some(s.subrange(0, n - 1)) is None,
    ensures
        first_some(s) == s[n - 1],
    decreases s.len(),
{
    assert(s.subrange(0, n).drop_last() =~= s.subrange(0, n - 1));
    if n < s.len() {
        assert(s.drop_last().subrange(0, n) =~= s.subrange(0, n));
        assert(s.drop_last().subrange(0, n - 1) =~= s.subrange(0, n - 1));
        lemma_first_some_extends(s.drop_last(), n);
    } else {
        assert(s.subrange(0, n) =~= s);
    }
}

/// The body lines of the document `html` under the story rules.
pub fn story_lines(html: &str, rules: &Vec<ParseRule>) -> (r: Vec<String>)
    ensures
        strs(r@) == story_of(html@, rules@),
{
    let ghost per_rule = Seq::new(
        rules@.len(),
        |i: int| body_of(html_class_inner_texts(html@, rules@[i].name@, rules@[i].class@, "p"@)),
    );
    let mut out: Vec<String> = Vec::new();
    let mut i: usize = 0;
    while i < rules.len()
        invariant
            i <= rules@.len(),
            per_rule == Seq::new(
                rules@.len(),
                |i: int| body_of(html_class_inner_texts(html@, rules@[i].name@, rules@[i].class@, "p"@)),
            ),
            strs(out@) == concat_all(per_rule.subrange(0, i as int)),
        decreases rules@.len() - i,
    {
        assert(per_rule.subrange(0, i + 1).drop_last() =~= per_rule.subrange(0, i as int));
        let texts = class_inner_texts(html, rules[i].name.as_str(), rules[i].class.as_str(), "p");
        let mut lines = body_lines(&texts);
        let ghost before = out@;
        let ghost ls = lines@;
        out.append(&mut lines);
        assert(strs(out@) =~= strs(before) + strs(ls));
        i = i + 1;
    }
    assert(per_rule.subrange(0, rules@.len() as int) =~= per_rule);
    out
}

/// The texts that the author rules select in the document `html`.
pub fn author_candidates(html: &str, rules: &Vec<ParseRule>) -> (r: Vec<String>)
    ensures
        strs(r@) == author_texts(html@, rules@),
{
    let ghost per_rule = Seq::new(
        rules@.len(),
        |i: int| html_class_texts(html@, rules@[i].name@, rules@[i].class@),
    );
    let mut out: Vec<String> = Vec::new();
    let mut i: usize = 0;
    while i < rules.len()
        invariant
            i <= rules@.len(),
            per_rule == Seq::new(
                rules@.len(),
                |i: int| html_class_texts(html@, rules@[i].name@, rules@[i].class@),
            ),
            strs(out@) == concat_all(per_rule.subrange(0, i as int)),
        decreases rules@.len() - i,
    {
        assert(per_rule.subrange(0, i + 1).drop_last() =~= per_rule.subrange(0, i as int));
        let mut texts = class_texts(html, rules[i].name.as_str(), rules[i].class.as_str());
        let ghost before = out@;
        let ghost ts = texts@;
        out.append(&mut texts);
        assert(strs(out@) =~= strs(before) + strs(ts));
        i = i + 1;
    }
    assert(per_rule.subrange(0, rules@.len() as int) =~= per_rule);
    out
}

/// The normalized, permitted links of the anchors `hrefs` on a page whose
/// base URL is `base`, each once, in first-seen order.
pub fn candidate_links(base: &str, hrefs: &Vec<Option<String>>, config: &CrawlConfig) -> (r: Vec<
    String,
>)
    ensures
        strs(r@) == unique(accepted_links(base@, opts(hrefs@), *config)),
{
    let mut out: Vec<String> = Vec::new();
    let mut i: usize = 0;
    while i < hrefs.len()
        invariant
            i <= hrefs@.len(),
            strs(out@) == accepted_links(base@, opts(hrefs@).subrange(0, i as int), *config),
        decreases hrefs@.len() - i,
    {
        assert(opts(hrefs@).subrange(0, i + 1).drop_last() =~= opts(hrefs@).subrange(0, i as int));
        match &hrefs[i] {
            Some(h) => match normalize_link(base, h.as_str()) {
                Some(l) => {
                    if permitted(l.as_str(), config) {
                        let ghost before = out@;
                        out.push(l);
                        assert(strs(out@) =~= strs(before).push(l@));
                    }
                },
                None => {},
            },
            None => {},
        }
        i = i + 1;
    }
    assert(opts(hrefs@).subrange(0, hrefs@.len() as int) =~= opts(hrefs@));
    unique_texts(&out)
}

/// Pairs each link with its priority flag for a page at `request_path`.
pub fn classify_links(request_path: &str, links: &Vec<String>) -> (r: Vec<(String, bool)>)
    ensures
        link_views(r@) == classified(request_path@, strs(links@)),
{
    let mut out: Vec<(String, bool)> = Vec::new();
    let mut i: usize = 0;
    while i < links.len()
        invariant
            i <= links@.len(),
            link_views(out@) == classified(request_path@, strs(links@.subrange(0, i as int))),
        decreases links@.len() - i,
    {
        let priority = match path_of(links[i].as_str()) {
            Some(p) => is_priority(request_path, p.as_str()),
            None => false,
        };
        let ghost before = out@;
        out.push((links[i].clone(), priority));
        assert(link_views(out@) =~= link_views(before).push((links@[i as int]@, priority)));
        assert(strs(links@.subrange(0, i + 1)) =~= strs(links@.subrange(0, i as int)).push(
            links@[i as int]@,
        ));
        assert(link_views(out@) =~= classified(request_path@, strs(links@.subrange(0, i + 1))));
        i = i + 1;
    }
    assert(links@.subrange(0, links@.len() as int) =~= links@);
    out
}

impl Lit {
    pub fn new() -> (r: Lit) {
        Lit {}
    }

    /// Extracts the story and the candidate links of the document `html`
    /// fetched from `uri`. Fails only when `uri` does not parse.
    pub fn process(&self, uri: &str, config: &CrawlConfig, html: &str) -> (r: Option<
        (Story, Vec<(String, bool)>),
    >)
        ensures
            r is None <==> (url_path(uri@) is None || url_query_pairs(uri@) is None),
            r matches Some(out) ==> {
                let (story, links) = out;
                let path = url_path(uri@)->0;
                &&& story.id@ == uri@
                &&& story.story_id@ == path
                &&& story.page == page_number(url_query_pairs(uri@)->0)
                &&& story.uri@ == uri@
                &&& strs(story.story@) == story_of(html@, config.rules.story@)
                &&& strs(story.keywords@) == keywords_of(
                    html_nested_attrs(html@, "head"@, "meta"@, "name"@),
                    html_nested_attrs(html@, "head"@, "meta"@, "content"@),
                )
                &&& story.title@ == title_of(html_nested_texts(html@, "head"@, "title"@))
                &&& story.author@ == author_of(author_texts(html@, config.rules.author@))
                &&& strs(story.links@) == page_links(uri@, *config, html@)
                &&& link_views(links@) == classified(path, page_links(uri@, *config, html@))
            },
    {
        let path = match path_of(uri) {
            Some(p) => p,
            None => return None,
        };
        let pairs = match query_pairs_of(uri) {
            Some(q) => q,
            None => return None,
        };
        let title = title_text(&nested_texts(html, "head", "title"));
        let base = base_url(uri, &nested_attrs(html, "head", "base", "href"));
        let author = author_text(&author_candidates(html, &config.rules.author));
        let keywords = keyword_list(
            &nested_attrs(html, "head", "meta", "name"),
            &nested_attrs(html, "head", "meta", "content"),
        );
        let links = candidate_links(base.as_str(), &tag_attrs(html, "a", "href"), config);
        let classes = classify_links(path.as_str(), &links);
        let story = Story {
            id: uri.to_string(),
            story_id: path,
            page: page_of(&pairs),
            uri: uri.to_string(),
            story: story_lines(html, &config.rules.story),
            keywords,
            title,
            author,
            links,
        };
        Some((story, classes))
    }
}

} // verus!
