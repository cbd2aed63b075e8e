//! How many arguments a function of the configuration language takes.

use vstd::prelude::*;
use std::ops::Range;

verus! {

/// The numbers of arguments a function accepts.
#[derive(Debug)]
pub enum Arity {
    /// Exactly this many.
    Static(usize),
    /// At least this many (the range from it on).
    RangeFrom(usize),
    /// From the start, up to but not including the end.
    Range(Range<usize>),
}

/// Whether `arity` accepts `n` arguments.
pub open spec fn accepts(arity: Arity, n: nat) -> bool {
    match arity {
        Arity::Static(k) => n == k,
        Arity::RangeFrom(start) => n >= start,
        Arity::Range(r) => r.start <= n < r.end,
    }
}

impl Clone for Arity {
    fn clone(&self) -> (r: Self)
        ensures
            r == *self,
    {
        match self {
            Arity::Static(k) => Arity::Static(*k),
            Arity::RangeFrom(s) => Arity::RangeFrom(*s),
            Arity::Range(r) => Arity::Range(Range { start: r.start, end: r.end }),
        }
    }
}

impl Arity {
    /// Whether `n` arguments are accepted.
    pub fn accepts(&self, n: usize) -> (r: bool)
        ensures
            r == accepts(*self, n as nat),
    {
        match self {
            Arity::Static(k) => n == *k,
            Arity::RangeFrom(start) => n >= *start,
            Arity::Range(r) => r.start <= n && n < r.end,
        }
    }
}

} // verus!
