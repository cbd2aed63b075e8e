//! Operations on arrays.

use vstd::prelude::*;

verus! {

/// An array of fallible values turned into one fallible array.
pub trait ArrayExt<const N: usize, T, E>: Sized {
    /// The values, where all are there, or the first error.
    spec fn transposed(self) -> Result<Seq<T>, E>;

    fn transpose(self) -> (r: Result<[T; N], E>)
        ensures
            match self.transposed() {
                Ok(s) => r matches Ok(a) && a@ == s,
                Err(e) => r == Err::<[T; N], E>(e),
            },
    ;
}

/// The first error among `s`, if any.
pub open spec fn first_error<T, E>(s: Seq<Result<T, E>>) -> Option<E>
    decreases s.len(),
{
    if s.len() == 0 {
        None
    } else {
        match s[0] {
            Err(e) => Some(e),
            Ok(_) => first_error(s.drop_first()),
        }
    }
}

impl<const N: usize, T: Copy + Default, E: Copy> ArrayExt<N, T, E> for [Result<T, E>; N] {
    open spec fn transposed(self) -> Result<Seq<T>, E> {
        match first_error(self@) {
            Some(e) => Err(e),
            None => Ok(self@.map_values(|r: Result<T, E>| r->Ok_0)),
        }
    }

    fn transpose(self) -> (r: Result<[T; N], E>) {
        let mut out: [T; N] = [T::default(); N];
        let mut i: usize = 0;
        assert(self@.skip(0) =~= self@);
        while i < N
            invariant
                i <= N,
                self@.len() == N,
                out@.len() == N,
                first_error(self@) == first_error(self@.skip(i as int)),
                forall|j: int| 0 <= j < i ==> (#[trigger] self@[j]) is Ok,
                forall|j: int| 0 <= j < i ==> #[trigger] out@[j] == self@[j]->Ok_0,
            decreases N - i,
        {
            assert(self@.skip(i as int).drop_first() =~= self@.skip(i + 1));
            let item = self[i];
            assert(item == self@[i as int]);
            match item {
                Err(e) => {
                    return Err(e);
                },
                Ok(t) => {
                    let ghost before = out@;
                    out[i] = t;
                    proof {
                        broadcast use vstd::array::group_array_axioms;
                        assert(out@ =~= before.update(i as int, t));
                        assert forall|j: int| 0 <= j < i + 1 implies #[trigger] out@[j] == self@[j]->Ok_0 by {
                            if j < i {
                                assert(before[j] == self@[j]->Ok_0);
                            }
                        }
                    }
                },
            }
            i = i + 1;
        }
        assert(self@.skip(i as int) =~= Seq::<Result<T, E>>::empty());
        assert(out@ =~= self@.map_values(|r: Result<T, E>| r->Ok_0));
        Ok(out)
    }
}

} // verus!
