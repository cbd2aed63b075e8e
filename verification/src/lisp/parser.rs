//! Parsers that track how far into their input they are.

use vstd::prelude::*;
use crate::clisp::parser::Parsable;

verus! {

/// What is left of a parser's input, and how far into the input that is.
#[derive(Debug)]
pub struct ParserInput<I> {
    contents: I,
    offset: usize,
}

/// The mathematical value of a [ParserInput]: the items left and the
/// offset.
pub struct ParserInputModel<T> {
    pub items: Seq<T>,
    pub offset: nat,
}

impl<I: Parsable> View for ParserInput<I> {
    type V = ParserInputModel<I::Item>;

    closed spec fn view(&self) -> ParserInputModel<I::Item> {
        ParserInputModel { items: self.contents.items(), offset: self.offset as nat }
    }
}

impl<I: Parsable> ParserInput<I> {
    /// All of `input`, at offset zero.
    pub fn new(input: I) -> (r: Self)
        ensures
            r@.items == input.items(),
            r@.offset == 0,
    {
        ParserInput { contents: input, offset: 0 }
    }

    /// How far into the input this is.
    pub fn offset(&self) -> (r: usize)
        ensures
            r == self@.offset,
    {
        self.offset
    }

    /// What is left.
    pub fn contents(&self) -> (r: I)
        ensures
            r.items() == self@.items,
    {
        self.contents
    }

    /// The same position.
    pub fn clone(&self) -> (r: Self)
        ensures
            r@ == self@,
    {
        ParserInput { contents: self.contents, offset: self.offset }
    }

    /// The next item, moving past it.
    pub fn next(&mut self) -> (r: Option<I::Item>)
        requires
            old(self)@.items.len() > 0 ==> old(self)@.offset + I::spec_item_len(old(self)@.items[0]) <= usize::MAX,
        ensures
            match r {
                Some(item) => old(self)@.items.len() > 0 && item == old(self)@.items[0]
                    && final(self)@.items == old(self)@.items.drop_first() && final(self)@.offset
                    == old(self)@.offset + I::spec_item_len(item),
                None => old(self)@.items.len() == 0 && final(self)@ == old(self)@,
            },
    {
        match self.contents.split_first() {
            Some((item, rest)) => {
                self.offset = self.offset + I::item_len(item);
                self.contents = rest;
                Some(item)
            },
            None => None,
        }
    }

    /// Runs `branch` on a copy of this input; where it succeeds, the copy's
    /// position is kept, otherwise this input stays where it was.
    pub fn branch<F, T>(&mut self, branch: F) -> (r: Option<T>)
        where
            F: FnOnce(&mut ParserInput<I>) -> Option<T>,
        requires
            forall|p: &mut ParserInput<I>| branch.requires((p,)),
        ensures
            exists|p: &mut ParserInput<I>|
                #![trigger branch.ensures((p,), r)]
                (*p)@ == old(self)@ && branch.ensures((p,), r) && (r is Some ==> final(self)@ == (*final(p))@),
            r is None ==> final(self)@ == old(self)@,
    {
        let mut copy = self.clone();
        let m = &mut copy;
        let r = branch(m);
        if r.is_some() {
            *self = copy;
        }
        r
    }
}

/// A parser made of a function on inputs.
pub struct ParserFn<F> {
    pub parser: F,
}

/// The parser that runs `parser`.
pub fn parser_fn<F>(parser: F) -> (r: ParserFn<F>)
    ensures
        r.parser == parser,
{
    ParserFn { parser }
}

impl<F> ParserFn<F> {

    /// Runs the function on `input`.
    pub fn parse<I: Parsable, T>(self, input: &mut ParserInput<I>) -> (r: Option<T>)
        where
            F: FnOnce(&mut ParserInput<I>) -> Option<T>,
        requires
            forall|p: &mut ParserInput<I>| self.parser.requires((p,)),
        ensures
            exists|p: &mut ParserInput<I>| self.parser.ensures((p,), r),
    {
        (self.parser)(input)
    }
}

/// Reads any one item.
#[derive(Clone, Copy, Debug)]
pub struct Any;

/// Reads nothing, and succeeds.
#[derive(Clone, Copy, Debug)]
pub struct Empty;

/// Reads the item `self.0`.
#[derive(Clone, Copy, Debug)]
pub struct Just<T>(pub T);

impl Any {
    /// The next item, where there is one.
    pub fn parse<I: Parsable>(&self, input: &mut ParserInput<I>) -> (r: Option<I::Item>)
        requires
            old(input)@.items.len() > 0 ==> old(input)@.offset + I::spec_item_len(old(input)@.items[0]) <= usize::MAX,
        ensures
            match r {
                Some(item) => old(input)@.items.len() > 0 && item == old(input)@.items[0]
                    && final(input)@.items == old(input)@.items.drop_first(),
                None => old(input)@.items.len() == 0 && final(input)@ == old(input)@,
            },
    {
        input.next()
    }
}

impl Empty {
    /// Nothing; the input stays where it is.
    pub fn parse<I: Parsable>(&self, input: &mut ParserInput<I>) -> (r: Option<()>)
        ensures
            r == Some(()),
            final(input)@ == old(input)@,
    {
        Some(())
    }
}

impl Just<char> {
    /// The next character where it is `self.0`; otherwise nothing is read.
    pub fn parse<'a>(&self, input: &mut ParserInput<&'a str>) -> (r: Option<char>)
        requires
            old(input)@.items.len() > 0 ==> old(input)@.offset + <&'a str as Parsable>::spec_item_len(
                old(input)@.items[0],
            ) <= usize::MAX,
        ensures
            match r {
                Some(c) => c == self.0 && old(input)@.items.len() > 0 && old(input)@.items[0] == c
                    && final(input)@.items == old(input)@.items.drop_first(),
                None => final(input)@ == old(input)@ && (old(input)@.items.len() == 0
                    || old(input)@.items[0] != self.0),
            },
    {
        let mut copy = input.clone();
        match copy.next() {
            Some(c) => if c == self.0 {
                *input = copy;
                Some(c)
            } else {
                None
            },
            None => None,
        }
    }
}

} // verus!
