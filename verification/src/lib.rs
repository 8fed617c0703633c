//! A parser-combinator engine: small parsers over a sliceable input are
//! composed into recursive-descent grammars, and every combinator states how
//! it moves the position of the run and what it hands back.
//!
//! A parser is a value of a type that implements [`parser::Parser`]. What it
//! does is a relation between the state of the run before it, its outcome,
//! and the state behind it; the relation of a combinator is made of the
//! relations of its parts. A success moves the position forward or leaves
//! it; a failure is silent (`Err(None)`) or carries a diagnostic, and the
//! combinators state which failures leave the position where it was.
//!
//! The functions that make a parser over a closure (`pred`, `func`, and the
//! methods of [`parser::ParserExt`]) state in their own contracts when the
//! parser can be run and what it does, so that a proof about a grammar over
//! closures of known types goes by those contracts. Where a tuple of such
//! parsers is handed to `chain` or `choice`, write the grammar as a function
//! that is generic in the types of the closures and states what it needs of
//! them with `call_requires` and `call_ensures`, as [`utils::ident`] does
//! through its helper.

pub mod combinator;
pub mod context;
pub mod laws;
pub mod parser;
pub mod prelude;
pub mod primitive;
pub mod recursive;
pub mod slice;
pub mod span;
pub mod text;
pub mod utils;
