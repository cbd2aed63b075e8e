//! The arguments the C runtime hands over, skipping missing ones.

use vstd::prelude::*;

verus! {

/// How many arguments to read from a C count and a list that may be
/// missing: none where the count is negative or the list is missing.
pub fn usable_count(argc: i32, argv_present: bool) -> (r: usize)
    ensures
        r == (if argc >= 0 && argv_present { argc as usize } else { 0 }),
{
    if argc >= 0 && argv_present {
        argc as usize
    } else {
        0
    }
}

/// The arguments, each as its bytes, or `None` where it is missing.
#[derive(Clone, Debug, Default, PartialEq)]
pub struct Argv<'a> {
    args: Vec<Option<&'a [u8]>>,
    next: usize,
}

/// The arguments of `args` that are there, from `from` on.
pub open spec fn present_from<'a>(args: Seq<Option<&'a [u8]>>, from: int) -> Seq<&'a [u8]>
    decreases args.len() - from,
{
    if from < 0 || from >= args.len() {
        Seq::empty()
    } else {
        match args[from] {
            Some(b) => seq![b] + present_from(args, from + 1),
            None => present_from(args, from + 1),
        }
    }
}

impl<'a> Argv<'a> {
    /// The arguments not read yet, skipping missing ones.
    pub closed spec fn remaining(&self) -> Seq<&'a [u8]> {
        present_from(self.args@, self.next as int)
    }

    /// The arguments `args`, from the first.
    pub fn new(args: Vec<Option<&'a [u8]>>) -> (r: Self)
        ensures
            r.remaining() == present_from(args@, 0),
    {
        Argv { args, next: 0 }
    }

    /// The next argument that is there.
    pub fn next(&mut self) -> (r: Option<&'a [u8]>)
        ensures
            old(self).remaining().len() == 0 ==> r is None && final(self).remaining().len() == 0,
            old(self).remaining().len() > 0 ==> r == Some(old(self).remaining()[0]) && final(self).remaining()
                == old(self).remaining().drop_first(),
    {
        loop
            invariant
                present_from(self.args@, self.next as int) == old(self).remaining(),
                self.args@ == old(self).args@,
            decreases self.args@.len() - self.next,
        {
            if self.next >= self.args.len() {
                return None;
            }
            let item = self.args[self.next];
            self.next = self.next + 1;
            match item {
                Some(b) => {
                    return Some(b);
                },
                None => {},
            }
        }
    }
}

} // verus!
