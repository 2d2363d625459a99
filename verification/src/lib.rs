//! Fuzzy subsequence matching: a query matches a text when its characters
//! occur in the text in order, and tighter matches score higher.

pub mod fold;
pub mod laws;
pub mod matcher;
pub mod model;
pub mod scan;

pub use matcher::{checked_fuzzy_match, fuzzy_match};
pub use scan::score_folded;
