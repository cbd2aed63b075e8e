//! A borrowed or owned value that keeps the lifetime of the borrow.

use vstd::prelude::*;

verus! {

/// A value that is either borrowed for `'a` or owned.
pub enum NonStaticCow<'a, T: ToOwned + ?Sized> {
    Borrowed(&'a T),
    Owned(<T as ToOwned>::Owned),
}

impl<'a> View for NonStaticCow<'a, str> {
    type V = Seq<char>;

    open spec fn view(&self) -> Seq<char> {
        match self {
            NonStaticCow::Borrowed(s) => s@,
            NonStaticCow::Owned(s) => s@,
        }
    }
}

impl<'a> NonStaticCow<'a, str> {
    /// The text, owned.
    pub fn into_owned(self) -> (r: String)
        ensures
            r@ == self@,
    {
        match self {
            NonStaticCow::Borrowed(b) => crate::text::to_string(b),
            NonStaticCow::Owned(b) => b,
        }
    }

    /// The text, borrowed.
    pub fn as_str(&self) -> (r: &str)
        ensures
            r@ == self@,
    {
        match self {
            NonStaticCow::Borrowed(b) => b,
            NonStaticCow::Owned(b) => b.as_str(),
        }
    }
}

} // verus!
