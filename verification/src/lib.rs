//! Verified core of an MCP search, crawl and recall server: text parsing,
//! crawl decisions, search-result reading, the knowledge graph,
//! configuration and result shaping.

pub mod text;
pub mod seqs;
pub mod error;
pub mod config;
pub mod cache;
pub mod urls;
pub mod html;
pub mod crawler;
pub mod search;
pub mod extractor;
pub mod pipeline;
pub mod index;
pub mod tools;
pub mod graph;
