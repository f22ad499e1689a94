//! Shortest chains of links between encyclopedia articles.
//!
//! Articles are the nodes of a graph that is never held in memory: the links
//! of a page are known only once the page has been fetched. The library holds
//! everything that is decided along the way, and leaves the fetching to its
//! caller: it reads addresses and pages, checks a pair of articles before a
//! search, resolves a redirected address, and runs the breadth-first search
//! one fetched page at a time.

pub mod address;
pub mod document;
pub mod graph;
pub mod laws;
pub mod links;
pub mod pattern;
pub mod redirect;
pub mod search;
pub mod text;
pub mod validate;
