//! A value that is one or both of two things.

use vstd::prelude::*;

verus! {

/// One of two values, or both.
#[derive(Clone, Copy, Debug, PartialEq)]
pub enum EitherOrBoth<L, R> {
    Left(L),
    Right(R),
    Both(L, R),
}

impl<L, R> EitherOrBoth<L, R> {
    /// What is present of `l` and `r`; `None` when neither is.
    pub fn new(l: Option<L>, r: Option<R>) -> (res: Option<Self>)
        ensures
            res == match (l, r) {
                (Some(l), Some(r)) => Some(EitherOrBoth::Both(l, r)),
                (Some(l), None) => Some(EitherOrBoth::Left(l)),
                (None, Some(r)) => Some(EitherOrBoth::Right(r)),
                (None, None) => None::<Self>,
            },
    {
        match (l, r) {
            (Some(l), Some(r)) => Some(Self::Both(l, r)),
            (Some(l), None) => Some(Self::Left(l)),
            (None, Some(r)) => Some(Self::Right(r)),
            (None, None) => None,
        }
    }

    /// Lazy constructor that executes the left function first.
    ///
    /// Never constructs [Self::Right]; returns [None] without calling `r` if
    /// `l` returns [None].
    pub fn new_lazy_left<F, G>(l: F, r: G) -> (res: Option<Self>)
        where
            F: FnOnce() -> Option<L>,
            G: FnOnce() -> Option<R>,
        requires
            l.requires(()),
            r.requires(()),
        ensures
            match res {
                None => l.ensures((), None),
                Some(EitherOrBoth::Left(a)) => l.ensures((), Some(a)) && r.ensures((), None),
                Some(EitherOrBoth::Both(a, b)) => l.ensures((), Some(a)) && r.ensures((), Some(b)),
                Some(EitherOrBoth::Right(_)) => false,
            },
    {
        let l = match l() {
            Some(l) => l,
            None => {
                return None;
            },
        };
        match r() {
            Some(r) => Some(Self::Both(l, r)),
            None => Some(Self::Left(l)),
        }
    }
}

} // verus!
