//! The names that a grammar is written with.

pub use crate::combinator::chain::chain;
pub use crate::combinator::choice::choice;
pub use crate::parser::{ParseResult, Parser, ParserExt};
pub use crate::primitive::{any, func, just, nothing, pred};
pub use crate::recursive::recursive;
pub use crate::span::Span;
