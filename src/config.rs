use vstd::prelude::*;

verus! {

/// An element selector: a tag name and one class it carries.
#[derive(Debug, Clone, Default)]
pub struct ParseRule {
    pub name: String,
    pub class: String,
}

/// The selectors for the author and for the body text of a page.
#[derive(Debug, Clone, Default)]
pub struct ParseRules {
    pub author: Vec<ParseRule>,
    pub story: Vec<ParseRule>,
}

/// The crawl's configuration.
///
/// `hosts` maps a host to its policy (one entry per host); `path_patterns`
/// lists (regular expression, policy) pairs. A policy is `Some(true)` for
/// allow, `Some(false)` for deny and `None` for unset.
#[derive(Debug, Clone, Default)]
pub struct CrawlConfig {
    pub threads: usize,
    pub seeds: Vec<String>,
    pub rules: ParseRules,
    pub hosts: Vec<(String, Option<bool>)>,
    pub path_patterns: Vec<(String, Option<bool>)>,
}

} // verus!
