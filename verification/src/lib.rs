//! Aggregation of web syndication feeds: fetching decisions, a byte cache
//! keyed by a digest of the source locator, decoding of two wire formats
//! into one entry model, chronological merging, a persisted read-state set,
//! and the wrap-around selection cursor over the merged list.

pub mod adapter;
pub mod cache;
pub mod config;
pub mod feed;
pub mod fetch;
pub mod list;
pub mod readset;
