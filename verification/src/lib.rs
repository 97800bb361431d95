//! Core logic of a web reconnaissance tool: a depth-limited crawler, a
//! wordlist fuzzer, the passive analyzers that turn responses into security
//! findings, and the reports of a scan.
//!
//! The library sends no request and touches no file. A crawl or a fuzz run
//! is a state that workers take turns on: they ask it for work, fetch
//! elsewhere, and hand back what they got. URLs and HTML are parsed by the
//! `url` and `scraper` crates, dates are written by `chrono`, and lists of
//! seed URLs are read by `serde_json`; what these return is named in the
//! contracts, not proved.

pub mod crawl;
pub mod crawl_report;
pub mod crawler;
pub mod data;
pub mod error;
pub mod frontier;
pub mod fuzz;
pub mod fuzz_report;
pub mod hosts;
pub mod monitor;
pub mod repl;
pub mod report;
pub mod report_text;
pub mod result;
pub mod security;
pub mod text;
pub mod urls;
pub mod wordlist;
