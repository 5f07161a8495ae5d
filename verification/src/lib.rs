//! A composable text-highlighting pipeline for terminal output.
//!
//! The library colorizes structured substrings (numbers, identifiers,
//! timestamps, addresses, quoted text, and so on) inside arbitrary text by
//! wrapping matched spans in ANSI escape sequences.  Many independent
//! highlighters can be chained over the same text: each one runs only over
//! the parts that no earlier highlighter has colored, so escape sequences
//! emitted by one pass are never corrupted by a later pass.

pub use crate::config::NumberConfig;
pub use crate::config::QuotesConfig;
pub use crate::config::UuidConfig;
pub use crate::error::Error;
pub use crate::highlighter::Highlighter;
pub use crate::style::Color;
pub use crate::style::Style;

pub mod config;
pub mod error;
pub mod errors;
pub mod highlighter;
pub mod highlighters;
pub mod manifold;
pub mod normalizer;
pub mod split_and_apply;
pub mod style;
