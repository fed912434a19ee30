//! Building blocks for parsers.
pub mod laws;
pub mod rule;
pub mod trace;
