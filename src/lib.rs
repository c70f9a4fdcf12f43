//! Age-based retention engine for search-index storage: glob classification
//! of indices, age computation from date suffixes, deduplicated rule
//! application, size accounting and report text.

pub mod size;
pub mod pattern;
pub mod age;
pub mod engine;
pub mod service;
pub mod notify;
