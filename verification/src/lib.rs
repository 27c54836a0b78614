//! Search-and-extraction pipeline: builds the search request, recovers the
//! result links from the engine's HTML, filters the engine's own links, and
//! extracts readable text from the target pages.

pub mod animation;
pub mod content;
pub mod conversation;
pub mod document;
pub mod engine;
pub mod error;
pub mod fetch;
pub mod href;
pub mod orchestrator;
pub mod query;
mod random;
pub mod results;
pub mod text;
pub mod throttle;
