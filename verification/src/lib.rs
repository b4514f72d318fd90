//! Feed synchronization and caching engine for a personal RSS/Atom reader.
//!
//! The library derives stable identities for feed entries, keeps a TTL-bounded
//! per-source cache, tracks per-source health across fetch attempts, migrates
//! persisted state across schema versions, and reconciles newly seen items for
//! notification. Network and file I/O stay outside; callers hand in fetched
//! bytes, decoded cache blobs and parsed state trees, and carry out the file
//! operations the engine asks for.

pub mod app_state;
pub mod cache;
pub mod config;
pub mod engine;
pub mod feed_parse;
pub mod health;
pub mod idset;
pub mod item;
pub mod json;
pub mod kvlist;
pub mod sorting;
pub mod state;
pub mod strutil;
pub mod text;

pub use item::FeedItem;
pub use item::create_item_id;
