//! News aggregation pipeline: collects news items from RSS and HTML sources,
//! prepares them for translation and publication, and serves them through a
//! token-protected API with chunked content for semantic search.

pub mod text;
pub mod chunk;
pub mod model;
pub mod listing;
pub mod security;
pub mod translator;
pub mod transformer;
pub mod publisher;
pub mod dates;
pub mod error;
pub mod collector;
pub mod api;
pub mod models;
