//! Calendar feed filtering: filter predicates over event summaries, timestamp
//! normalisation to UTC instants, event extraction and the per-feed pipeline.

pub mod config;
pub mod error;
pub mod event;
pub mod feed;
pub mod filter;
pub mod pattern;
pub mod pipeline;
pub mod text;
pub mod timestamp;
