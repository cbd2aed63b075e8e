//! The configuration language: a small lisp dialect, its lexer and its
//! parser.

pub mod parser;
pub mod token;
pub mod lexer;
pub mod ast;
pub mod arity;
