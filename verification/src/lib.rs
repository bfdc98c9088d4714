//! Grade-analysis aggregation engine for a fixed catalog of categorical
//! records ("pokemon"): a single-pass scan turns a list of graded records
//! into grouped averages, extremal annotations and ranked lists.
//!
//! Every average is kept as an exact rational `(total, count)` pair
//! ([`average::Average`]); callers divide at the presentation edge.
pub mod analysis;
pub mod average;
pub mod catalog;
pub mod codec;
pub mod data;
pub mod digits;
pub mod laws;
pub mod model;
pub mod pokemon;
pub mod ranking;
pub mod sums;
pub mod table;

pub use data::PColors;
pub use data::PTypes;
pub use data::StatNames;
