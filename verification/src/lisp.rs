//! The second dialect of the configuration language: lists that may be
//! empty, whitespace allowed before any expression, and parsers that track
//! how far into their input they are.

pub mod ast;
pub mod parser;
pub mod evaluator;
