//! The combinators: parsers made from other parsers.

pub mod chain;
pub mod choice;
pub mod drop;
pub mod filter;
pub mod map;
pub mod repeat;
pub mod spanned;
pub mod to_slice;
