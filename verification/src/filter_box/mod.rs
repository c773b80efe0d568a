//! Duplicate filters over 32-byte entries.

pub mod base;
pub mod dashmap_filter;
pub mod bloom_filter;
