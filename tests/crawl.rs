use mt_crawl::extract::{lines_of, page_of, parse_usize};
use mt_crawl::lit::keyword_list;
use mt_crawl::{
    ingest, is_priority, normalize_link, permitted, permitted_path, remove_key, worker_step,
    Command, CrawlConfig, KnownURL, KnownURLHashSet, KnownURLSet, Lit, ParseRule, ParseRules,
    PriorityInjector, Steal, Story, StringError, WorkerStep,
};

fn policy_config(hosts: Vec<(&str, Option<bool>)>) -> CrawlConfig {
    CrawlConfig {
        threads: 1,
        seeds: vec![],
        rules: ParseRules::default(),
        hosts: hosts.into_iter().map(|(h, p)| (h.to_string(), p)).collect(),
        path_patterns: vec![
            ("^/x".to_string(), Some(false)),
            ("^/x/y".to_string(), Some(true)),
        ],
    }
}

fn drain(q: &mut PriorityInjector<Command>) -> Vec<Command> {
    let mut out = vec![];
    while let Steal::Success(c) = q.steal() {
        out.push(c);
    }
    out
}

#[test]
fn host_policy_overrides_path_rules() {
    let config = policy_config(vec![("a.com", Some(true))]);
    assert!(permitted("https://a.com/x/y/z", &config));
    assert!(permitted("https://a.com/x", &config));
}

#[test]
fn later_allow_overrides_earlier_deny() {
    let config = policy_config(vec![]);
    assert!(permitted("https://b.com/x/y", &config));
    assert!(!permitted("https://b.com/x", &config));
    assert!(permitted_path("/x/y/z", &config));
    assert!(!permitted_path("/z", &config));
}

#[test]
fn denied_host_and_unset_host_policy() {
    let config = policy_config(vec![("bad.com", Some(false)), ("open.com", None)]);
    assert!(!permitted("https://bad.com/x/y", &config));
    assert!(permitted("https://open.com/x/y", &config));
    assert!(!permitted("https://open.com/x", &config));
    assert!(!permitted("not a url", &config));
}

#[test]
fn allow_is_not_revoked_by_later_deny() {
    let mut config = policy_config(vec![]);
    config.path_patterns = vec![
        ("^/a".to_string(), Some(true)),
        ("^/a/b".to_string(), Some(false)),
        ("^/a/b".to_string(), None),
    ];
    assert!(permitted_path("/a/b", &config));
}

#[test]
fn invalid_pattern_matches_nothing() {
    let mut config = policy_config(vec![]);
    config.path_patterns = vec![("(".to_string(), Some(true))];
    assert!(!permitted_path("/(", &config));
}

#[test]
fn same_thread_link_is_priority() {
    assert!(is_priority("/s/42/thread", "/s/42/thread"));
    assert!(!is_priority("/other", "/other"));
    assert!(!is_priority("/s/42/thread", "/s/43/thread"));
    assert!(!is_priority("/s", "/s"));
}

#[test]
fn normalization_drops_fragment_and_comments_after() {
    let n = normalize_link("https://a.com/s/1", "/s/1?page=2&comments_after=5#x").unwrap();
    assert_eq!(n, "https://a.com/s/1?page=2");
    let m = normalize_link("https://a.com/", "/p?comments_after=1&a=b&c=d").unwrap();
    assert_eq!(m, "https://a.com/p?a=b&c=d");
    let k = normalize_link("https://a.com/", "p?a=1&comments_after=2").unwrap();
    assert_eq!(k, "https://a.com/p?a=1");
    let plain = normalize_link("https://a.com/dir/page", "other#top").unwrap();
    assert_eq!(plain, "https://a.com/dir/other");
    assert_eq!(normalize_link("no base", "x"), None);
}

#[test]
fn normalization_is_idempotent() {
    for href in ["/s/1?page=2&comments_after=5#x", "/q?b=2&a=1", "/plain", "/e?x=a%20b"] {
        let once = normalize_link("https://a.com/", href).unwrap();
        let twice = normalize_link(&once, &once).unwrap();
        assert_eq!(once, twice);
    }
}

#[test]
fn remove_key_keeps_order_of_others() {
    let q = vec![
        ("a".to_string(), "1".to_string()),
        ("comments_after".to_string(), "x".to_string()),
        ("b".to_string(), "2".to_string()),
        ("comments_after".to_string(), "y".to_string()),
    ];
    let r = remove_key(&q, "comments_after");
    assert_eq!(r, vec![("a".to_string(), "1".to_string()), ("b".to_string(), "2".to_string())]);
}

#[test]
fn exact_set_remembers_marked_urls() {
    let mut set = KnownURLSet::new();
    assert!(!set.contains("https://a.com/1"));
    set.insert("https://a.com/1");
    assert!(set.contains("https://a.com/1"));
    set.insert("https://a.com/2");
    assert!(set.contains("https://a.com/1"));
    assert!(set.contains("https://a.com/2"));
    assert!(!set.contains("https://a.com/3"));
}

#[test]
fn hashed_set_remembers_marked_urls() {
    let mut set = KnownURLHashSet::new();
    set.insert("https://a.com/1");
    assert!(set.contains("https://a.com/1"));
    set.insert("https://a.com/2");
    assert!(set.contains("https://a.com/1"));
    assert!(set.contains("https://a.com/2"));
}

#[test]
fn hashed_set_has_no_false_positive_on_small_corpus() {
    let corpus: Vec<String> = (0..200).map(|i| format!("https://a.com/s/{i}?page={}", i % 7)).collect();
    let mut set = KnownURLHashSet::new();
    for u in corpus.iter().step_by(2) {
        set.insert(u);
    }
    for (i, u) in corpus.iter().enumerate() {
        assert_eq!(set.contains(u), i % 2 == 0);
    }
}

#[test]
fn steal_prefers_priority_items() {
    let mut q = PriorityInjector::new();
    q.push(1, false);
    q.push(2, true);
    q.push(3, false);
    q.push(4, true);
    assert_eq!(q.steal(), Steal::Success(2));
    q.push(5, true);
    assert_eq!(q.steal(), Steal::Success(4));
    assert_eq!(q.steal(), Steal::Success(5));
    assert_eq!(q.steal(), Steal::Success(1));
    assert_eq!(q.steal(), Steal::Success(3));
    assert_eq!(q.steal(), Steal::Empty);
}

#[test]
fn worker_steps() {
    assert_eq!(
        worker_step(Steal::Success(Command::Fetch("u".to_string()))),
        WorkerStep::Fetch("u".to_string())
    );
    assert_eq!(worker_step(Steal::Success(Command::Stop)), WorkerStep::Stop);
    assert_eq!(worker_step(Steal::Empty), WorkerStep::Idle);
}

#[test]
fn page_numbers() {
    let pairs = |v: &[(&str, &str)]| -> Vec<(String, String)> {
        v.iter().map(|(k, x)| (k.to_string(), x.to_string())).collect()
    };
    assert_eq!(page_of(&pairs(&[("page", "3")])), 3);
    assert_eq!(page_of(&pairs(&[])), 1);
    assert_eq!(page_of(&pairs(&[("page", "abc")])), 1);
    assert_eq!(page_of(&pairs(&[("page", "2"), ("x", "y"), ("page", "9")])), 9);
    assert_eq!(parse_usize("+7"), Some(7));
    assert_eq!(parse_usize(""), None);
    assert_eq!(parse_usize("+"), None);
    assert_eq!(parse_usize("-1"), None);
    assert_eq!(parse_usize("18446744073709551615"), Some(usize::MAX));
    assert_eq!(parse_usize("18446744073709551616"), None);
}

#[test]
fn lines_split_like_str_lines() {
    assert_eq!(lines_of("a\r\nb\n\nc\r"), vec!["a", "b", "c\r"]);
    assert_eq!(lines_of(""), Vec::<String>::new());
    assert_eq!(lines_of("one\n"), vec!["one"]);
}

#[test]
fn keywords_keep_empty_pieces() {
    let names = vec![vec![Some("keywords".to_string()), Some("other".to_string())]];
    let contents = vec![vec![Some("a,, b ".to_string()), Some("z".to_string())]];
    assert_eq!(keyword_list(&names, &contents), vec!["a", "", "b"]);
}

#[test]
fn story_builders_and_archive_name() {
    let mut s = Story::new();
    assert!(s.is_empty());
    s.uri("https://a.com/s/1?page=2".to_string());
    s.author("Alice".to_string());
    s.title("T".to_string());
    assert_eq!(s.write("archive").unwrap_err().msg, "empty");
    s.story(vec!["line".to_string()]);
    assert!(!s.is_empty());
    assert_eq!(s.get_uri(), "https://a.com/s/1?page=2");
    assert_eq!(s.get_author(), "Alice");
    assert_eq!(s.write("archive").unwrap(), "archive/a.com/Alice/s/1?page=2.json");
    s.author(String::new());
    s.uri("https://a.com/dir/".to_string());
    assert_eq!(s.write("archive").unwrap_err().msg, "unwritable URI");
    s.uri("nonsense".to_string());
    assert_eq!(s.write("archive").unwrap_err().msg, "invalid URI");
    s.links(&vec!["x".to_string(), "y".to_string(), "x".to_string()]);
    assert_eq!(s.links, vec!["x", "y"]);
    assert_eq!(StringError::new("m").msg, "m");
}

const PAGE: &str = "<html><head><title>Thread One</title>\
<meta name=\"keywords\" content=\"alpha, beta,gamma\"></head>\
<body><div class=\"byline author\">Alice</div><div class=\"author\">Alice</div>\
<div class=\"story\"><p>Line one\nLine two</p><p></p></div>\
<a href=\"/s/1?page=2\">next</a><a href=\"/s/1?page=3#c\">more</a>\
<a href=\"/s/1?page=2\">again</a><a href=\"https://evil.com/x\">bad</a>\
</body></html>";

fn page_config() -> CrawlConfig {
    CrawlConfig {
        threads: 1,
        seeds: vec!["https://a.com/s/1".to_string()],
        rules: ParseRules {
            author: vec![ParseRule { name: "div".to_string(), class: "author".to_string() }],
            story: vec![ParseRule { name: "div".to_string(), class: "story".to_string() }],
        },
        hosts: vec![("a.com".to_string(), Some(true)), ("evil.com".to_string(), Some(false))],
        path_patterns: vec![],
    }
}

#[test]
fn end_to_end_single_page() {
    let config = page_config();
    let (story, links) = Lit::new().process("https://a.com/s/1", &config, PAGE).unwrap();
    assert_eq!(story.title, "Thread One");
    assert_eq!(story.author, "Alice");
    assert_eq!(story.story, vec!["Line one", "Line two"]);
    assert_eq!(story.keywords, vec!["alpha", "beta", "gamma"]);
    assert_eq!(story.page, 1);
    assert_eq!(story.story_id, "/s/1");
    assert_eq!(story.id, "https://a.com/s/1");
    assert_eq!(
        links,
        vec![
            ("https://a.com/s/1?page=2".to_string(), true),
            ("https://a.com/s/1?page=3".to_string(), true),
        ]
    );
    assert_eq!(story.write("archive").unwrap(), "archive/a.com/Alice/s/1.json");

    let mut known = KnownURLHashSet::new();
    let mut frontier = PriorityInjector::new();
    known.insert("https://a.com/s/1");
    ingest(&mut frontier, &mut known, &links);
    let (_, again) = Lit::new().process("https://a.com/s/1", &config, PAGE).unwrap();
    ingest(&mut frontier, &mut known, &again);
    assert_eq!(
        drain(&mut frontier),
        vec![
            Command::Fetch("https://a.com/s/1?page=2".to_string()),
            Command::Fetch("https://a.com/s/1?page=3".to_string()),
        ]
    );
}

#[test]
fn page_number_and_base_href() {
    let config = page_config();
    let html = "<html><head><base href=\"https://a.com/s/9/\"></head>\
<body><a href=\"next\">n</a></body></html>";
    let (story, links) = Lit::new().process("https://a.com/s/9?page=4", &config, html).unwrap();
    assert_eq!(story.page, 4);
    assert_eq!(story.story, Vec::<String>::new());
    assert_eq!(links, vec![("https://a.com/s/9/next".to_string(), false)]);
    assert!(Lit::new().process("not a url", &config, html).is_none());
}

#[test]
fn ingest_skips_known_and_routes_by_flag() {
    let mut known = KnownURLSet::new();
    let mut frontier = PriorityInjector::new();
    known.insert("https://a.com/old");
    let links = vec![
        ("https://a.com/old".to_string(), true),
        ("https://a.com/n1".to_string(), false),
        ("https://a.com/p1".to_string(), true),
        ("https://a.com/n1".to_string(), false),
    ];
    ingest(&mut frontier, &mut known, &links);
    assert!(known.contains("https://a.com/p1"));
    assert_eq!(
        drain(&mut frontier),
        vec![
            Command::Fetch("https://a.com/p1".to_string()),
            Command::Fetch("https://a.com/n1".to_string()),
        ]
    );
}
