//! Tracks as read from their files' tags, and filters over their comments.
pub mod filter;
pub mod models;
