//! A value that is either borrowed or shared.

use vstd::prelude::*;
use std::borrow::Cow;
use std::rc::Rc;

verus! {

/// A value borrowed for `'a`, or shared through a counted reference.
#[derive(Debug)]
pub enum LazyRc<'a, T: ?Sized> {
    Borrowed(&'a T),
    Owned(Rc<T>),
}

impl<'a> View for LazyRc<'a, str> {
    type V = Seq<char>;

    open spec fn view(&self) -> Seq<char> {
        match self {
            LazyRc::Borrowed(s) => s@,
            LazyRc::Owned(s) => (**s)@,
        }
    }
}

/// `Rc::<str>::from(String)`: the shared text is the text of the string.
#[verifier::external_body]
fn share_string(s: String) -> (r: Rc<str>)
    ensures
        (*r)@ == s@,
{
    Rc::from(s)
}

impl<'a> LazyRc<'a, str> {
    /// The text.
    pub fn as_ref(&self) -> (r: &str)
        ensures
            r@ == self@,
    {
        match self {
            LazyRc::Borrowed(t) => t,
            LazyRc::Owned(t) => &**t,
        }
    }

    /// Another handle on the same text; a shared one shares it again.
    pub fn clone(&self) -> (r: Self)
        ensures
            r@ == self@,
            self is Borrowed <==> r is Borrowed,
    {
        match self {
            LazyRc::Borrowed(b) => LazyRc::Borrowed(b),
            LazyRc::Owned(rc) => LazyRc::Owned(Rc::clone(rc)),
        }
    }

    /// Borrowed text stays borrowed; owned text becomes shared.
    pub fn from(cow: Cow<'a, str>) -> (r: Self)
        ensures
            r@ == cow@,
            cow is Borrowed <==> r is Borrowed,
    {
        match cow {
            Cow::Borrowed(b) => LazyRc::Borrowed(b),
            Cow::Owned(o) => LazyRc::Owned(share_string(o)),
        }
    }

    /// Whether the two hold the same text.
    pub fn eq(&self, r: &Self) -> (b: bool)
        ensures
            b == (self@ == r@),
    {
        crate::text::str_eq(self.as_ref(), r.as_ref())
    }
}

} // verus!
