use vstd::prelude::*;
use vstd::string::*;

use unicode_segmentation::UnicodeSegmentation;

use crate::text::{strs, text_eq, unique, unique_texts};
use crate::web_url::{host_of, opt_view, path_of, query_of, url_host, url_path, url_query};

verus! {

/// The record extracted from one fetched page.
#[derive(Debug, Clone, Default)]
pub struct Story {
    pub id: String,
    pub story_id: String,
    pub page: usize,
    pub uri: String,
    pub story: Vec<String>,
    pub keywords: Vec<String>,
    pub title: String,
    pub author: String,
    pub links: Vec<String>,
}

/// A failure to archive a story, with its reason.
#[derive(Debug, Clone)]
pub struct StringError {
    pub msg: String,
}

impl StringError {
    pub fn new(msg: &str) -> (r: Self)
        ensures
            r.msg@ == msg@,
    {
        StringError { msg: msg.to_string() }
    }
}

impl Story {
    pub fn new() -> (r: Story)
        ensures
            r.id@.len() == 0,
            r.story_id@.len() == 0,
            r.page == 0,
            r.uri@.len() == 0,
            r.story@.len() == 0,
            r.keywords@.len() == 0,
            r.title@.len() == 0,
            r.author@.len() == 0,
            r.links@.len() == 0,
    {
        Story {
            id: String::new(),
            story_id: String::new(),
            page: 0,
            uri: String::new(),
            story: Vec::new(),
            keywords: Vec::new(),
            title: String::new(),
            author: String::new(),
            links: Vec::new(),
        }
    }

    pub fn is_empty(&self) -> (r: bool)
        ensures
            r == (self.story@.len() == 0),
    {
        self.story.len() == 0
    }

    pub fn id(&mut self, id: String) -> (r: &Self)
        ensures
            *final(self) == (Story { id, ..*old(self) }),
            *r == *final(self),
    {
        self.id = id;
        self
    }

    pub fn story_id(&mut self, story_id: String) -> (r: &Self)
        ensures
            *final(self) == (Story { story_id, ..*old(self) }),
            *r == *final(self),
    {
        self.story_id = story_id;
        self
    }

    pub fn page(&mut self, page: usize) -> (r: &Self)
        ensures
            *final(self) == (Story { page, ..*old(self) }),
            *r == *final(self),
    {
        self.page = page;
        self
    }

    pub fn uri(&mut self, uri: String) -> (r: &Self)
        ensures
            *final(self) == (Story { uri, ..*old(self) }),
            *r == *final(self),
    {
        self.uri = uri;
        self
    }

    pub fn story(&mut self, story: Vec<String>) -> (r: &Self)
        ensures
            *final(self) == (Story { story, ..*old(self) }),
            *r == *final(self),
    {
        self.story = story;
        self
    }

    pub fn keywords(&mut self, keywords: Vec<String>) -> (r: &Self)
        ensures
            *final(self) == (Story { keywords, ..*old(self) }),
            *r == *final(self),
    {
        self.keywords = keywords;
        self
    }

    pub fn title(&mut self, title: String) -> (r: &Self)
        ensures
            *final(self) == (Story { title, ..*old(self) }),
            *r == *final(self),
    {
        self.title = title;
        self
    }

    pub fn author(&mut self, author: String) -> (r: &Self)
        ensures
            *final(self) == (Story { author, ..*old(self) }),
            *r == *final(self),
    {
        self.author = author;
        self
    }

    pub fn get_uri(&self) -> (r: String)
        ensures
            r@ == self.uri@,
    {
        self.uri.clone()
    }

    pub fn get_author(&self) -> (r: String)
        ensures
            r@ == self.author@,
    {
        self.author.clone()
    }

    /// Records `links` among the story's links, each once.
    pub fn links(&mut self, links: &Vec<String>) -> (r: &Self)
        ensures
            strs(final(self).links@) == unique(strs(old(self).links@) + strs(links@)),
            *final(self) == (Story { links: final(self).links, ..*old(self) }),
            *r == *final(self),
    {
        let mut all: Vec<String> = Vec::new();
        let mut i: usize = 0;
        while i < self.links.len()
            invariant
                i <= self.links@.len(),
                all@ == self.links@.subrange(0, i as int),
            decreases self.links@.len() - i,
        {
            all.push(self.links[i].clone());
            assert(all@ =~= self.links@.subrange(0, i + 1));
            i = i + 1;
        }
        let mut j: usize = 0;
        while j < links.len()
            invariant
                i == self.links@.len(),
                j <= links@.len(),
                all@ == self.links@ + links@.subrange(0, j as int),
            decreases links@.len() - j,
        {
            all.push(links[j].clone());
            assert(all@ =~= self.links@ + links@.subrange(0, j + 1));
            j = j + 1;
        }
        assert(links@.subrange(0, links@.len() as int) =~= links@);
        assert(strs(all@) =~= strs(self.links@) + strs(links@));
        self.links = unique_texts(&all);
        self
    }

    /// The archive file name of this story under `prefix`; see
    /// `archive_name`.
    pub fn gen_filename(&self, prefix: &str) -> (r: Option<String>)
        ensures
            opt_view(r) == archive_name(prefix@, self.uri@, self.author@),
    {
        let host = match host_of(self.uri.as_str()) {
            Some(h) => h,
            None => return None,
        };
        let path = match path_of(self.uri.as_str()) {
            Some(p) => p,
            None => return None,
        };
        let query = match query_of(self.uri.as_str()) {
            Some(q) => q,
            None => return None,
        };
        let mut filename = String::new();
        filename.append(prefix);
        filename.append("/");
        match host {
            Some(h) => filename.append(h.as_str()),
            None => filename.append("unknown"),
        }
        if self.author.unicode_len() > 0 {
            filename.append("/");
            filename.append(self.author.as_str());
        }
        filename.append(path.as_str());
        match query {
            Some(q) => {
                filename.append("?");
                filename.append(q.as_str());
            },
            None => {},
        }
        Some(filename)
    }

    /// The file to write this story to under `prefix`: refused when the story
    /// has no body, when its URI does not parse, and when the name would end
    /// in a `/` (a directory).
    pub fn write(&self, prefix: &str) -> (r: Result<String, StringError>)
        ensures
            self.story@.len() == 0 ==> refused(r, "empty"@),
            self.story@.len() > 0 ==> match archive_name(prefix@, self.uri@, self.author@) {
                None => refused(r, "invalid URI"@),
                Some(name) => if last_grapheme(name) == Some("/"@) {
                    refused(r, "unwritable URI"@)
                } else {
                    (r matches Ok(file) && file@ == name + ".json"@)
                },
            },
    {
        if self.is_empty() {
            return Err(StringError::new("empty"));
        }
        let mut filename = match self.gen_filename(prefix) {
            Some(f) => f,
            None => return Err(StringError::new("invalid URI")),
        };
        match last_grapheme_of(filename.as_str()) {
            Some(g) => {
                if text_eq(g.as_str(), "/") {
                    return Err(StringError::new("unwritable URI"));
                }
            },
            None => {},
        }
        filename.append(".json");
        Ok(filename)
    }
}

/// The archive name of a story fetched from `uri`: the prefix, a `/`, the
/// host (or `unknown`), a `/` and the author when there is one, the path,
/// and `?` with the query when there is one. `None` when `uri` does not
/// parse.
pub open spec fn archive_name(prefix: Seq<char>, uri: Seq<char>, author: Seq<char>) -> Option<
    Seq<char>,
> {
    match (url_host(uri), url_path(uri), url_query(uri)) {
        (Some(host), Some(path), Some(query)) => Some(
            prefix + "/"@ + match host {
                Some(h) => h,
                None => "unknown"@,
            } + if author.len() > 0 {
                "/"@ + author
            } else {
                Seq::empty()
            } + path + match query {
                Some(q) => "?"@ + q,
                None => Seq::empty(),
            },
        ),
        _ => None,
    }
}

/// Whether `r` is a refusal with the message `msg`.
pub open spec fn refused(r: Result<String, StringError>, msg: Seq<char>) -> bool {
    r matches Err(e) && e.msg@ == msg
}

/// The last extended grapheme cluster of `s`.
pub uninterp spec fn last_grapheme(s: Seq<char>) -> Option<Seq<char>>;

/// Relies on unicode-segmentation's `graphemes(true)`: the last extended
/// grapheme cluster, `None` for an empty text.
#[verifier::external_body]
fn last_grapheme_of(s: &str) -> (r: Option<String>)
    ensures
        opt_view(r) == last_grapheme(s@),
        s@.len() == 0 <==> r is None,
{
    s.graphemes(true).last().map(|g| g.to_string())
}

} // verus!
