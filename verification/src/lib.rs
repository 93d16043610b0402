//! Search, download and cite academic papers: the verified core.
//!
//! Every module below is checked by Verus. Network access, the file system,
//! command-line handling and the async plumbing live in the companion
//! application; this crate holds the data model, the per-provider record
//! parsers, the query builders, de-duplication and sorting of results, and
//! the six citation formatters.
pub mod text;
pub mod json;
pub mod models;
pub mod bibliography;
pub mod unicode;
pub mod search;
pub mod provider;
pub mod html;
pub mod xml;
pub mod download;
pub mod config;
pub mod pattern;
