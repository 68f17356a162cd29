//! A lossless parser for a small hardware-configuration language (blocks such
//! as `cpu { ... };` and `config { ... };`), together with a position-based
//! query engine over the resulting concrete syntax tree.
//!
//! The tree keeps every token and every piece of trivia (whitespace and line
//! comments), so the original text can be reconstructed exactly from the
//! recorded spans. Queries resolve a zero-based line/column position to the
//! terminal token that contains it, and map the token's completion tag to a
//! static candidate list.

pub mod position;
pub mod chars;
pub mod trivia;
pub mod token;
pub mod marker;
pub mod attribute;
pub mod statement;
pub mod grammar;
pub mod laws;
