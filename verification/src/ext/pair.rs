//! Operations on pairs.

use vstd::prelude::*;
use std::ops::ControlFlow;

verus! {

/// A pair whose two sides can be taken or mapped apart.
pub trait BiFunctor<L, R>: Sized {
    /// The two sides.
    spec fn sides(self) -> (L, R);

    /// The first side.
    fn fst(self) -> (r: L)
        ensures
            r == self.sides().0,
    ;

    /// The second side.
    fn snd(self) -> (r: R)
        ensures
            r == self.sides().1,
    ;

    /// The pair with `morphism` applied to its first side.
    fn map_fst<F, L2>(self, morphism: F) -> (r: (L2, R))
        where
            F: FnOnce(L) -> L2,
        requires
            morphism.requires((self.sides().0,)),
        ensures
            morphism.ensures((self.sides().0,), r.0),
            r.1 == self.sides().1,
    ;

    /// The pair with `morphism` applied to its second side.
    fn map_snd<F, R2>(self, morphism: F) -> (r: (L, R2))
        where
            F: FnOnce(R) -> R2,
        requires
            morphism.requires((self.sides().1,)),
        ensures
            r.0 == self.sides().0,
            morphism.ensures((self.sides().1,), r.1),
    ;

    /// The pair with `f` applied to its first side and `g` to its second.
    fn bimap<F, G, L2, R2>(self, f: F, g: G) -> (r: (L2, R2))
        where
            F: FnOnce(L) -> L2,
            G: FnOnce(R) -> R2,
        requires
            f.requires((self.sides().0,)),
            g.requires((self.sides().1,)),
        ensures
            f.ensures((self.sides().0,), r.0),
            g.ensures((self.sides().1,), r.1),
    ;

    /// The same as [BiFunctor::bimap].
    fn bi_map<F, G, L2, R2>(self, f: F, g: G) -> (r: (L2, R2))
        where
            F: FnOnce(L) -> L2,
            G: FnOnce(R) -> R2,
        requires
            f.requires((self.sides().0,)),
            g.requires((self.sides().1,)),
        ensures
            f.ensures((self.sides().0,), r.0),
            g.ensures((self.sides().1,), r.1),
    {
        self.bimap(f, g)
    }
}

impl<L, R> BiFunctor<L, R> for (L, R) {
    open spec fn sides(self) -> (L, R) {
        self
    }

    fn fst(self) -> (r: L) {
        self.0
    }

    fn snd(self) -> (r: R) {
        self.1
    }

    fn map_fst<F, L2>(self, morphism: F) -> (r: (L2, R))
        where
            F: FnOnce(L) -> L2,
    {
        (morphism(self.0), self.1)
    }

    fn map_snd<F, R2>(self, morphism: F) -> (r: (L, R2))
        where
            F: FnOnce(R) -> R2,
    {
        (self.0, morphism(self.1))
    }

    fn bimap<F, G, L2, R2>(self, f: F, g: G) -> (r: (L2, R2))
        where
            F: FnOnce(L) -> L2,
            G: FnOnce(R) -> R2,
    {
        (f(self.0), g(self.1))
    }
}

/// A type built from the outcome of a computation that may stop early.
pub trait Hkt<T, E>: Sized {
    /// What `flow` becomes.
    spec fn from_flow(flow: ControlFlow<E, T>) -> Self;

    fn from_control_flow(flow: ControlFlow<E, T>) -> (r: Self)
        ensures
            r == Self::from_flow(flow),
    ;
}

impl<T, E> Hkt<T, E> for Result<T, E> {
    /// `Err` for a stop, `Ok` for a value.
    open spec fn from_flow(flow: ControlFlow<E, T>) -> Self {
        match flow {
            ControlFlow::Break(e) => Err(e),
            ControlFlow::Continue(t) => Ok(t),
        }
    }

    fn from_control_flow(flow: ControlFlow<E, T>) -> (r: Self) {
        match flow {
            ControlFlow::Break(e) => Err(e),
            ControlFlow::Continue(t) => Ok(t),
        }
    }
}

impl<T> Hkt<T, ()> for Option<T> {
    /// `None` for a stop, `Some` for a value.
    open spec fn from_flow(flow: ControlFlow<(), T>) -> Self {
        match flow {
            ControlFlow::Break(_) => None,
            ControlFlow::Continue(t) => Some(t),
        }
    }

    fn from_control_flow(flow: ControlFlow<(), T>) -> (r: Self) {
        match flow {
            ControlFlow::Break(()) => None,
            ControlFlow::Continue(t) => Some(t),
        }
    }
}

/// A pair of two fallible values turned into one fallible pair.
pub trait BiTranspose<L, R, E>: Sized {
    type Hkt: Hkt<(L, R), E>;

    /// The pair of values, or where to stop.
    spec fn flow(self) -> ControlFlow<E, (L, R)>;

    fn to_control_flow(self) -> (r: ControlFlow<E, (L, R)>)
        ensures
            r == self.flow(),
    ;

    /// Both values, or the first failure.
    fn bi_transpose(self) -> (r: Self::Hkt)
        ensures
            r == <Self::Hkt as Hkt<(L, R), E>>::from_flow(self.flow()),
    {
        let flow = self.to_control_flow();
        <Self::Hkt as Hkt<(L, R), E>>::from_control_flow(flow)
    }
}

impl<L, R> BiTranspose<L, R, ()> for (Option<L>, Option<R>) {
    type Hkt = Option<(L, R)>;

    /// Both values where both are there, a stop otherwise.
    open spec fn flow(self) -> ControlFlow<(), (L, R)> {
        match self {
            (Some(l), Some(r)) => ControlFlow::Continue((l, r)),
            _ => ControlFlow::Break(()),
        }
    }

    fn to_control_flow(self) -> (r: ControlFlow<(), (L, R)>) {
        match self {
            (Some(l), Some(r)) => ControlFlow::Continue((l, r)),
            _ => ControlFlow::Break(()),
        }
    }
}

impl<L, R, E> BiTranspose<L, R, E> for (Result<L, E>, Result<R, E>) {
    type Hkt = Result<(L, R), E>;

    /// Both values where both succeeded; otherwise the first error.
    open spec fn flow(self) -> ControlFlow<E, (L, R)> {
        match self {
            (Ok(l), Ok(r)) => ControlFlow::Continue((l, r)),
            (Err(e), _) => ControlFlow::Break(e),
            (_, Err(e)) => ControlFlow::Break(e),
        }
    }

    fn to_control_flow(self) -> (r: ControlFlow<E, (L, R)>) {
        match self {
            (Ok(l), Ok(r)) => ControlFlow::Continue((l, r)),
            (Err(e), _) | (_, Err(e)) => ControlFlow::Break(e),
        }
    }
}

} // verus!
