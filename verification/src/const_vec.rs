//! Vectors and strings with a capacity fixed by a const parameter.

use vstd::prelude::*;
use vstd::utf8::{encode_utf8, encode_utf8_valid_utf8, valid_utf8, valid_utf8_concat};

verus! {

/// A vector of at most `N` items.
pub struct ConstVec<T, const N: usize> where T: Copy {
    items: Vec<T>,
}

impl<T: Copy, const N: usize> View for ConstVec<T, N> {
    type V = Seq<T>;

    closed spec fn view(&self) -> Seq<T> {
        self.items@
    }
}

impl<T: Copy, const N: usize> ConstVec<T, N> {
    #[verifier::type_invariant]
    closed spec fn well_formed(self) -> bool {
        self.items@.len() <= N
    }

    /// The items, in order.
    pub fn as_slice(&self) -> (r: &[T])
        ensures
            r@ == self@,
    {
        self.items.as_slice()
    }

    /// The number of items held.
    pub fn len(&self) -> (n: usize)
        ensures
            n == self@.len(),
            n <= N,
    {
        proof {
            use_type_invariant(self);
        }
        self.items.len()
    }

    /// The number of items that can still be added.
    pub fn capacity(&self) -> (n: usize)
        ensures
            n == N - self@.len(),
            self@.len() <= N,
    {
        proof {
            use_type_invariant(self);
        }
        N - self.items.len()
    }

    /// Concatenate 2 slices.
    pub fn concat(&mut self, with: &[T])
        requires
            old(self)@.len() + with@.len() <= N,
        ensures
            final(self)@ == old(self)@ + with@,
    {
        let mut items = Vec::new();
        std::mem::swap(&mut items, &mut self.items);
        let ghost start = items@;
        let mut i: usize = 0;
        while i < with.len()
            invariant
                i <= with@.len(),
                items@ == start + with@.subrange(0, i as int),
            decreases with@.len() - i,
        {
            items.push(with[i]);
            i = i + 1;
            assert(items@ =~= start + with@.subrange(0, i as int));
        }
        assert(with@.subrange(0, with@.len() as int) =~= with@);
        self.items = items;
    }

    /// An empty vector.
    pub fn new() -> (r: Self)
        ensures
            r@ == Seq::<T>::empty(),
    {
        ConstVec { items: Vec::new() }
    }

    /// Push `item` into the end of the buffer.
    pub fn push(&mut self, item: T)
        requires
            old(self)@.len() < N,
        ensures
            final(self)@ == old(self)@.push(item),
    {
        let mut items = Vec::new();
        std::mem::swap(&mut items, &mut self.items);
        items.push(item);
        self.items = items;
    }
}

impl<T: Copy, const N: usize> Clone for ConstVec<T, N> {
    fn clone(&self) -> (r: Self)
        ensures
            r@ == self@,
    {
        proof {
            use_type_invariant(self);
        }
        let mut r = Self::new();
        r.concat(self.as_slice());
        assert(r@ =~= self@);
        r
    }
}

impl<T: Copy, const N: usize> Default for ConstVec<T, N> {
    fn default() -> (r: Self)
        ensures
            r@ == Seq::<T>::empty(),
    {
        Self::new()
    }
}

/// The UTF-8 encoding of `ch`, as [char::encode_utf8] writes it.
#[verifier::external_body]
pub(crate) fn encode_char(ch: char) -> (r: Vec<u8>)
    ensures
        r@ == encode_utf8(seq![ch]),
{
    let mut buf = [0u8;4];
    ch.encode_utf8(&mut buf).as_bytes().to_vec()
}

/// The text that `bytes` encode in UTF-8, as [std::str::from_utf8] reads
/// it: `None` when the bytes are not valid UTF-8.
#[verifier::external_body]
pub(crate) fn utf8_to_str(bytes: &[u8]) -> (r: Option<&str>)
    ensures
        r is Some <==> valid_utf8(bytes@),
        r matches Some(s) ==> encode_utf8(s@) == bytes@,
{
    std::str::from_utf8(bytes).ok()
}

/// A string of at most `N` bytes of UTF-8.
pub struct ConstString<const N: usize>(ConstVec<u8, N>);

impl<const N: usize> View for ConstString<N> {
    type V = Seq<u8>;

    /// The UTF-8 bytes of the string.
    closed spec fn view(&self) -> Seq<u8> {
        self.0@
    }
}

impl<const N: usize> ConstString<N> {
    #[verifier::type_invariant]
    closed spec fn well_formed(self) -> bool {
        valid_utf8(self.0@)
    }

    /// An empty string.
    pub fn new() -> (r: Self)
        ensures
            r@ == Seq::<u8>::empty(),
    {
        let v = ConstVec::new();
        assert(valid_utf8(v@)) by {
            assert(v@ =~= encode_utf8(Seq::<char>::empty()));
            encode_utf8_valid_utf8(Seq::<char>::empty());
        }
        ConstString(v)
    }

    /// Number of bytes that can still be added.
    pub fn capacity(&self) -> (n: usize)
        ensures
            n == N - self@.len(),
            self@.len() <= N,
    {
        self.0.capacity()
    }

    /// Push a character.
    pub fn push(&mut self, ch: char)
        requires
            old(self)@.len() + encode_utf8(seq![ch]).len() <= N,
        ensures
            final(self)@ == old(self)@ + encode_utf8(seq![ch]),
    {
        proof {
            use_type_invariant(&*self);
        }
        let bytes = encode_char(ch);
        let mut inner = ConstVec { items: Vec::new() };
        std::mem::swap(&mut inner, &mut self.0);
        inner.concat(bytes.as_slice());
        proof {
            encode_utf8_valid_utf8(seq![ch]);
            valid_utf8_concat(old(self)@, bytes@);
        }
        self.0 = inner;
    }

    /// Push every character of `str`.
    pub fn push_str(&mut self, str: &str)
        requires
            old(self)@.len() + encode_utf8(str@).len() <= N,
        ensures
            final(self)@ == old(self)@ + encode_utf8(str@),
    {
        proof {
            use_type_invariant(&*self);
        }
        let bytes = str.as_bytes();
        let mut inner = ConstVec { items: Vec::new() };
        std::mem::swap(&mut inner, &mut self.0);
        inner.concat(bytes);
        proof {
            encode_utf8_valid_utf8(str@);
            valid_utf8_concat(old(self)@, bytes@);
        }
        self.0 = inner;
    }

    /// The string held.
    pub fn as_str(&self) -> (r: &str)
        ensures
            encode_utf8(r@) == self@,
    {
        proof {
            use_type_invariant(self);
        }
        match utf8_to_str(self.0.as_slice()) {
            Some(s) => s,
            None => "",
        }
    }
}

impl<const N: usize> Clone for ConstString<N> {
    fn clone(&self) -> (r: Self)
        ensures
            r@ == self@,
    {
        proof {
            use_type_invariant(self);
        }
        ConstString(self.0.clone())
    }
}

impl<const N: usize> Default for ConstString<N> {
    fn default() -> (r: Self)
        ensures
            r@ == Seq::<u8>::empty(),
    {
        Self::new()
    }
}

} // verus!
