//! Reading-highlight retrieval and normalization.
//!
//! The library joins book metadata rows with raw annotation rows by a shared
//! asset id, cleans the raw annotation text into presentable fragments, and
//! plans deterministic per-book export artifacts.

pub mod chars;
pub mod text;
pub mod store;
pub mod book;
pub mod export;
pub mod display;
pub mod laws;
