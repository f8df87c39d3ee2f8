//! Bookkeeping for logged boosting runs.

pub mod logger;

pub use logger::Research;
