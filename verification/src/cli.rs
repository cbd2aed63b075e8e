//! The command line of the player: the C argument list and the options
//! read from it.

pub mod argv;
pub mod parser;
