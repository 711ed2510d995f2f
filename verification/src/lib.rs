//! Scrape-aggregate-publish pipeline for a Hacktoberfest leaderboard backend.
//!
//! The library holds the verified core: target resolution, per-repository
//! aggregation with eligibility filtering, date-windowed contributor tallies,
//! pull-request classification, retry scheduling, and atomic cache
//! publication. Network and file I/O live outside the library and hand it
//! plain values.

pub mod window;
pub mod numbers;
pub mod target;
pub mod github;
pub mod contributors;
pub mod scraper;
pub mod cache;
pub mod retry;
pub mod orchestrator;
pub mod config;
