//! Combinators for incremental, non-blocking parsers over a byte cursor.
//!
//! A grammar rule is a *parse closure*: it takes the cursor by mutable
//! reference and answers with an [`outcome::Outcome`]. A rule that
//! completes has consumed exactly what it recognised; a rule that fails or
//! is suspended is to leave the cursor as it found it. The combinators in
//! [`parse::rule`] build larger rules out of smaller ones in the manner of
//! the ABNF operators: grouping with backtracking, repetition, and
//! optionality. What they promise is spelled out in their contracts;
//! [`parse::laws`] draws the consequences.
pub mod cursor;
pub mod outcome;
pub mod parse;
