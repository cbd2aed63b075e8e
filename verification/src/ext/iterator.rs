//! Walking two sequences side by side.

use vstd::prelude::*;
use std::cmp::Ordering;
use vstd::std_specs::cmp::PartialEqSpec;
use std::collections::VecDeque;
use crate::either::EitherOrBoth;

verus! {

/// Pairs the items of two sequences, front to front (or back to back),
/// until both are used up; where one runs out first, the other's items come
/// alone.
#[derive(Clone, Debug)]
pub struct ZipAll<A, B> {
    l: VecDeque<A>,
    r: VecDeque<B>,
}

/// The items of both sides that are left.
pub struct ZipAllModel<A, B> {
    pub l: Seq<A>,
    pub r: Seq<B>,
}

impl<A, B> View for ZipAll<A, B> {
    type V = ZipAllModel<A, B>;

    closed spec fn view(&self) -> ZipAllModel<A, B> {
        ZipAllModel { l: self.l@, r: self.r@ }
    }
}

/// An optional first item of `s`.
pub open spec fn first_of<T>(s: Seq<T>) -> Option<T> {
    if s.len() > 0 {
        Some(s[0])
    } else {
        None
    }
}

/// An optional last item of `s`.
pub open spec fn last_of<T>(s: Seq<T>) -> Option<T> {
    if s.len() > 0 {
        Some(s.last())
    } else {
        None
    }
}

/// What [EitherOrBoth::new] makes of two optional items.
pub open spec fn either_or_both<A, B>(l: Option<A>, r: Option<B>) -> Option<EitherOrBoth<A, B>> {
    match (l, r) {
        (Some(l), Some(r)) => Some(EitherOrBoth::Both(l, r)),
        (Some(l), None) => Some(EitherOrBoth::Left(l)),
        (None, Some(r)) => Some(EitherOrBoth::Right(r)),
        (None, None) => None,
    }
}

/// `s` without its first item, where it has one.
pub open spec fn rest_of<T>(s: Seq<T>) -> Seq<T> {
    if s.len() > 0 {
        s.drop_first()
    } else {
        s
    }
}

/// `s` without its last item, where it has one.
pub open spec fn init_of<T>(s: Seq<T>) -> Seq<T> {
    if s.len() > 0 {
        s.drop_last()
    } else {
        s
    }
}

fn to_deque<T>(v: Vec<T>) -> (r: VecDeque<T>)
    ensures
        r@ == v@,
{
    let mut rest = v;
    let ghost all = rest@;
    let mut queue: VecDeque<T> = VecDeque::new();
    while rest.len() > 0
        invariant
            rest@.len() <= all.len(),
            all == v@,
            rest@ == all.subrange(0, rest@.len() as int),
            queue@ == all.subrange(rest@.len() as int, all.len() as int),
        decreases rest.len(),
    {
        let item = rest.pop().unwrap();
        proof {
            assert(rest@ =~= all.subrange(0, rest@.len() as int));
            assert(seq![item] + queue@ =~= all.subrange(rest@.len() as int, all.len() as int));
        }
        queue.push_front(item);
    }
    assert(queue@ =~= all);
    queue
}

impl<A, B> ZipAll<A, B> {
    /// Walks `l` and `r` side by side.
    pub fn new(l: Vec<A>, r: Vec<B>) -> (z: Self)
        ensures
            z@.l == l@,
            z@.r == r@,
    {
        ZipAll { l: to_deque(l), r: to_deque(r) }
    }

    /// The next items from the front.
    pub fn next(&mut self) -> (r: Option<EitherOrBoth<A, B>>)
        ensures
            r == either_or_both(first_of(old(self)@.l), first_of(old(self)@.r)),
            final(self)@.l == rest_of(old(self)@.l),
            final(self)@.r == rest_of(old(self)@.r),
    {
        let l = self.l.pop_front();
        let r = self.r.pop_front();
        EitherOrBoth::new(l, r)
    }

    /// The next items from the back.
    pub fn next_back(&mut self) -> (r: Option<EitherOrBoth<A, B>>)
        ensures
            r == either_or_both(last_of(old(self)@.l), last_of(old(self)@.r)),
            final(self)@.l == init_of(old(self)@.l),
            final(self)@.r == init_of(old(self)@.r),
    {
        let l = self.l.pop_back();
        let r = self.r.pop_back();
        EitherOrBoth::new(l, r)
    }

    /// How many items are left: the longer side's count, exactly.
    pub fn size_hint(&self) -> (r: (usize, Option<usize>))
        ensures
            r.0 == (if self@.l.len() >= self@.r.len() { self@.l.len() } else { self@.r.len() }),
            r.1 == Some(r.0),
    {
        let a = self.l.len();
        let b = self.r.len();
        let m = if a >= b {
            a
        } else {
            b
        };
        (m, Some(m))
    }
}


/// The items of `items` as an array of `N`, where there are exactly `N`.
pub fn collect_array<T: Copy + Default, const N: usize>(items: &[T]) -> (r: Option<[T; N]>)
    ensures
        match r {
            Some(a) => items@.len() == N && a@ == items@,
            None => items@.len() != N,
        },
{
    if items.len() != N {
        return None;
    }
    let mut out: [T; N] = [T::default(); N];
    let mut i: usize = 0;
    while i < N
        invariant
            i <= N,
            items@.len() == N,
            out@.len() == N,
            forall|j: int| 0 <= j < i ==> #[trigger] out@[j] == items@[j],
        decreases N - i,
    {
        let ghost before = out@;
        out[i] = items[i];
        proof {
            broadcast use vstd::array::group_array_axioms;
            assert(out@ =~= before.update(i as int, items@[i as int]));
        }
        i = i + 1;
    }
    assert(out@ =~= items@);
    Some(out)
}

/// How `l` stands to `r` when both are read in step: `Less` where `l`
/// ends first, `Greater` where `r` does, `Equal` where they end together,
/// each where the items read in step agree; no answer where two of them
/// differ.
pub open spec fn containment_of<T: PartialEqSpec>(l: Seq<T>, r: Seq<T>) -> Option<Ordering> {
    if exists|i: int| 0 <= i < l.len() && i < r.len() && !(#[trigger] l[i]).eq_spec(&r[i]) {
        None
    } else if l.len() > r.len() {
        Some(Ordering::Greater)
    } else if l.len() < r.len() {
        Some(Ordering::Less)
    } else {
        Some(Ordering::Equal)
    }
}

/// How `l` stands to `r` (see [containment_of]).
pub fn containment<T: PartialEq + PartialEqSpec>(l: &[T], r: &[T]) -> (res: Option<Ordering>)
    requires
        T::obeys_eq_spec(),
    ensures
        res == containment_of(l@, r@),
{
    let mut i: usize = 0;
    while i < l.len() && i < r.len()
        invariant
            i <= l@.len(),
            i <= r@.len(),
            T::obeys_eq_spec(),
            forall|j: int| 0 <= j < i ==> (#[trigger] l@[j]).eq_spec(&r@[j]),
        decreases l@.len() - i,
    {
        if l[i] != r[i] {
            return None;
        }
        i = i + 1;
    }
    if l.len() > r.len() {
        Some(Ordering::Greater)
    } else if l.len() < r.len() {
        Some(Ordering::Less)
    } else {
        Some(Ordering::Equal)
    }
}

} // verus!
