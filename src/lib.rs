//! A polite, rule-driven web crawler core: link normalisation, a permission
//! policy, priority classification, page extraction, deduplication of known
//! URLs, a two-tier work frontier and the ingestion step that feeds it.

pub mod config;
pub mod extract;
pub mod frontier;
pub mod html;
pub mod ingest;
pub mod known;
pub mod link;
pub mod lit;
pub mod permission;
pub mod story;
pub mod text;
pub mod web_url;

pub use config::{CrawlConfig, ParseRule, ParseRules};
pub use frontier::{worker_step, Command, PriorityInjector, Steal, WorkerStep};
pub use ingest::ingest;
pub use known::{KnownURL, KnownURLHashSet, KnownURLSet};
pub use link::{is_priority, normalize_link, remove_key};
pub use lit::Lit;
pub use permission::{permitted, permitted_path};
pub use story::{Story, StringError};
