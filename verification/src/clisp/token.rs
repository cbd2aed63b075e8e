//! Parsers that read single items or fixed sequences of items.

use crate::clisp::parser::{EofError, Parsable, ParserError, ParserOutput};
use std::marker::PhantomData;
use vstd::prelude::*;

verus! {

/// Parser that reads any one item.
#[derive(Debug)]
pub struct Any<I>(PhantomData<I>);

impl<I> Clone for Any<I> {
    fn clone(&self) -> Self {
        Any(PhantomData)
    }
}

impl<I> Default for Any<I> {
    fn default() -> Self {
        Any(PhantomData)
    }
}

impl<I: Parsable> Any<I> {
    pub fn new() -> Self {
        Any(PhantomData)
    }

    /// The first item, or [EofError] when the input is empty.
    pub fn parse(self, input: I) -> (r: Result<ParserOutput<I, I::Item>, EofError>)
        ensures
            match r {
                Ok(po) => input.items().len() > 0 && po.output == input.items()[0]
                    && po.next.items() == input.items().drop_first(),
                Err(_) => input.items().len() == 0,
            },
    {
        match input.split_first() {
            Some((item, rest)) => Ok(ParserOutput::new(rest, item)),
            None => Err(EofError),
        }
    }
}

/// Parser that reads the character `self.0`.
#[derive(Clone, Copy, Debug)]
pub struct Just<T>(pub T);

impl Just<char> {
    /// The first character if it is `self.0`.
    pub fn parse<'a>(self, input: &'a str) -> (r: Result<ParserOutput<&'a str, char>, ParserError<char>>)
        ensures
            match r {
                Ok(po) => input@.len() > 0 && input@[0] == self.0 && po.output == self.0
                    && po.next@ == input@.drop_first(),
                Err(ParserError::Eof(_)) => input@.len() == 0,
                Err(ParserError::Match { expected, found }) => input@.len() > 0 && expected
                    == self.0 && found == input@[0] && found != self.0,
            },
    {
        match input.split_first() {
            None => Err(ParserError::Eof(EofError)),
            Some((item, rest)) => if item == self.0 {
                Ok(ParserOutput::new(rest, item))
            } else {
                Err(ParserError::Match { expected: self.0, found: item })
            },
        }
    }
}

/// Parser that reads the characters of `seq`, in order.
#[derive(Clone, Copy, Debug)]
pub struct Sequence<'a> {
    seq: &'a str,
}

impl<'a> Sequence<'a> {
    pub fn new(seq: &'a str) -> (r: Self)
        ensures
            r.text()@ == seq@,
    {
        Sequence { seq }
    }

    /// The characters to read.
    pub closed spec fn text(self) -> &'a str {
        self.seq
    }

    /// `self` when the input starts with it; otherwise the first mismatch,
    /// or [ParserError::Eof] when the input ends first.
    pub fn parse(self, input: &'a str) -> (r: Result<ParserOutput<&'a str, &'a str>, ParserError<char>>)
        ensures
            match r {
                Ok(po) => self.text()@.len() <= input@.len() && input@.take(
                    self.text()@.len() as int,
                ) == self.text()@ && po.output == self.text() && po.next@ == input@.skip(
                    self.text()@.len() as int,
                ),
                Err(ParserError::Match { expected, found }) => exists|i: int|
                    0 <= i < self.text()@.len() && i < input@.len() && input@.take(i)
                        == self.text()@.take(i) && expected == self.text()@[i] && found
                        == input@[i] && expected != found,
                Err(ParserError::Eof(_)) => input@.len() < self.text()@.len() && input@
                    == self.text()@.take(input@.len() as int),
            },
    {
        let n = crate::text::char_len(self.seq);
        let m = crate::text::char_len(input);
        let mut i: usize = 0;
        while i < n
            invariant
                n == self.seq@.len(),
                m == input@.len(),
                i <= n,
                i <= m,
                input@.take(i as int) == self.seq@.take(i as int),
            decreases n - i,
        {
            if i == m {
                assert(input@ =~= input@.take(i as int));
                return Err(ParserError::Eof(EofError));
            }
            let l = self.seq.get_char(i);
            let r = input.get_char(i);
            if l != r {
                return Err(ParserError::Match { expected: l, found: r });
            }
            assert(input@.take(i + 1) =~= input@.take(i as int).push(r));
            assert(self.seq@.take(i + 1) =~= self.seq@.take(i as int).push(l));
            i = i + 1;
        }
        assert(self.seq@.take(n as int) =~= self.seq@);
        let rest = crate::text::skip_chars(input, n);
        assert(rest@ =~= input@.skip(n as int));
        Ok(ParserOutput::new(rest, self.seq))
    }
}

} // verus!
