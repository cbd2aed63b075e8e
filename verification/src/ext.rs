//! Extension traits and helpers on standard types.

pub mod integer;
pub mod pair;
pub mod bytes;
pub mod array;
pub mod iterator;
