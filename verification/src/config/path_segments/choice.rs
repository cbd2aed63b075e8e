//! One of several paths, as offered to the user.

use vstd::prelude::*;
use crate::config::path_segments::{segments_text, PathSegments};
use crate::text::push_str;

verus! {

/// One or more paths to choose from.
#[derive(Clone, Copy, Debug, PartialEq, Eq)]
pub struct Choice<'a>(&'a [PathSegments<'a>]);

/// A path in backquotes.
pub open spec fn quoted(p: PathSegments) -> Seq<char> {
    seq!['`'] + segments_text(p.0@) + seq!['`']
}

/// What follows item `i` of `n`: `, or ` before the last, `, ` before the
/// others, nothing after the last.
pub open spec fn separator_after(i: int, n: int) -> Seq<char> {
    if i == n - 2 {
        ", or "@
    } else if i != n - 1 {
        ", "@
    } else {
        Seq::empty()
    }
}

/// The quoted items of `items` from the first up to `k`, each followed by
/// its separator among `n`.
pub open spec fn listed(items: Seq<PathSegments>, k: int, n: int) -> Seq<char>
    decreases k,
{
    if k <= 0 {
        Seq::empty()
    } else {
        listed(items, k - 1, n) + quoted(items[k - 1]) + separator_after(k - 1, n)
    }
}

/// How a choice is shown: the one path in backquotes, or `either ` and the
/// paths in backquotes, the last after `, or `, the others after `, `.
pub open spec fn choice_text(items: Seq<PathSegments>) -> Seq<char> {
    if items.len() == 1 {
        quoted(items[0])
    } else {
        "either "@ + listed(items, items.len() as int, items.len() as int)
    }
}

impl<'a> Choice<'a> {
    pub closed spec fn items(&self) -> Seq<PathSegments<'a>> {
        self.0@
    }

    /// A choice among `items`; `None` where there are none.
    pub fn new(items: &'a [PathSegments<'a>]) -> (r: Option<Self>)
        ensures
            items@.len() == 0 ==> r is None,
            items@.len() > 0 ==> (r matches Some(c) && c.items() == items@),
    {
        if items.len() == 0 {
            None
        } else {
            Some(Choice(items))
        }
    }

    /// How the choice is shown (see [choice_text]).
    pub fn display(&self) -> (r: String)
        ensures
            r@ == choice_text(self.items()),
    {
        let n = self.0.len();
        proof {
            reveal_strlit("`");
            reveal_strlit("either ");
            reveal_strlit(", or ");
            reveal_strlit(", ");
        }
        if n == 1 {
            let mut r = crate::text::to_string("`");
            let t = self.0[0].display();
            push_str(&mut r, t.as_str());
            push_str(&mut r, "`");
            assert(r@ =~= quoted(self.0@[0]));
            return r;
        }
        let mut r = crate::text::to_string("either ");
        let mut i: usize = 0;
        while i < n
            invariant
                n == self.0@.len(),
                n != 1,
                i <= n,
                r@ == "either "@ + listed(self.0@, i as int, n as int),
            decreases n - i,
        {
            let ghost before = r@;
            push_str(&mut r, "`");
            let t = self.0[i].display();
            push_str(&mut r, t.as_str());
            push_str(&mut r, "`");
            if n >= 2 && i == n - 2 {
                push_str(&mut r, ", or ");
            } else if i != n - 1 {
                push_str(&mut r, ", ");
            }
            proof {
                reveal_strlit("`");
                reveal_strlit(", or ");
                reveal_strlit(", ");
                assert(r@ =~= before + quoted(self.0@[i as int]) + separator_after(i as int, n as int));
            }
            i = i + 1;
        }
        r
    }
}

} // verus!
