//! A verified feed-reader core.
//!
//! The crate keeps subscribed feeds and their ingested entries in a store
//! with exact, machine-checked semantics: feed upserts are keyed by a
//! deterministically derived id, entry ingestion is insert-or-ignore (so a
//! repeated fetch never duplicates an item nor clobbers its read/starred
//! flags), and queries filter and order entries by their publication time.
//! Fetching and serving are left to a thin unverified shell; the decisions a
//! refresh cycle makes about each feed's outcome live here and are verified.

pub mod clock;
pub mod ids;
pub mod laws;
pub mod model;
pub mod refresh;
pub mod source;
pub mod store;
pub mod text;
