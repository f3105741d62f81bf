//! A heuristic citation finder for a structured knowledge base.
//!
//! Given an entity with property/value statements, the library selects the
//! statements that lack supporting references, plans a pool of candidate
//! external documents (wiki outbound links, official websites, formatter
//! URLs built from external identifiers), normalizes fetched documents to
//! plain text, guesses their language, generates value-specific search
//! patterns, matches them against the text, and merges the matches into one
//! deduplicated record per statement/source combination.
//!
//! All network traffic is left to the caller: the library computes what to
//! fetch and what the fetched bytes mean, and every step of that computation
//! is verified.

pub mod candidates;
pub mod change_wiki;
pub mod collect;
pub mod dates;
pub mod given_names;
pub mod initial_search;
pub mod lang;
pub mod laws;
pub mod matcher;
pub mod merge;
pub mod model;
pub mod order;
pub mod patterns;
pub mod pipeline;
pub mod refcheck;
pub mod referee;
pub mod regex_calls;
pub mod strutil;
pub mod text;
