//! A path made of segments.

use vstd::prelude::*;
use crate::config::path_segment::{segment_text, PathSegment};
use crate::text::push_str;

pub mod choice;

verus! {

/// A path: its segments, in order.
#[derive(Clone, Copy, Debug, PartialEq, Eq)]
pub struct PathSegments<'a>(pub &'a [PathSegment<'a>]);

/// How the segments of a path are shown: each as [segment_text], with `/`
/// between them.
pub open spec fn segments_text(s: Seq<PathSegment>) -> Seq<char>
    decreases s.len(),
{
    if s.len() == 0 {
        Seq::empty()
    } else if s.len() == 1 {
        segment_text(s[0])
    } else {
        segments_text(s.drop_last()) + seq!['/'] + segment_text(s.last())
    }
}

impl<'a> PathSegments<'a> {
    /// The path of `segments`.
    pub fn new(segments: &'a [PathSegment<'a>]) -> (r: Self)
        ensures
            r.0 == segments,
    {
        PathSegments(segments)
    }

    /// How the path is shown (see [segments_text]).
    pub fn display(&self) -> (r: String)
        ensures
            r@ == segments_text(self.0@),
    {
        let mut r = String::new();
        let mut i: usize = 0;
        while i < self.0.len()
            invariant
                i <= self.0@.len(),
                r@ == segments_text(self.0@.take(i as int)),
            decreases self.0@.len() - i,
        {
            if i > 0 {
                proof {
                    reveal_strlit("/");
                }
                push_str(&mut r, "/");
            }
            let t = self.0[i].display();
            push_str(&mut r, t.as_str());
            proof {
                let s = self.0@.take(i + 1);
                assert(s.drop_last() =~= self.0@.take(i as int));
                assert(s.last() == self.0@[i as int]);
                if i == 0 {
                    assert(self.0@.take(0) =~= Seq::<PathSegment>::empty());
                    assert(r@ =~= segment_text(self.0@[0]));
                }
            }
            i = i + 1;
        }
        assert(self.0@.take(i as int) =~= self.0@);
        r
    }
}

impl<'a> Default for PathSegments<'a> {
    fn default() -> (r: Self)
        ensures
            r.0@.len() == 0,
    {
        PathSegments(&[])
    }
}

} // verus!
