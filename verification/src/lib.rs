//! Core logic of empl, an extensible music player: command line flags, the
//! configuration lexer and parsers, key bindings, display state and the
//! bookkeeping around the embedded Scheme runtime.

pub mod text;

pub mod flag;
pub mod argument;
pub mod ext;
pub mod const_vec;
pub mod clisp;
pub mod config;
pub mod either;
pub mod cow;
pub mod guile;
pub mod repl;
pub mod display;
pub mod command;
pub mod lazy_rc;
pub mod lisp;
pub mod argv;
pub mod cli;
