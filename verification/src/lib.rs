//! A lexer driven by regular expressions.
//!
//! Rules pair a pattern with a conversion. The engine scans its input from
//! left to right; at each step the rule with the longest match at the cursor
//! wins, and among equally long matches the rule that was added first.
//!
//! - `lexer` holds the builder and the engine.
//! - `state` says what the engine does, as mathematics.
//! - `laws` proves what holds of every engine.
//! - `select` picks the winning rule from the match lengths.
//! - `text` cuts strings at byte offsets.
//! - `search` is the interface to the `regex` crate, which is trusted.

pub mod laws;
pub mod lexer;
pub mod search;
pub mod select;
pub mod state;
pub mod text;
