//! Results and errors shared by the parsers.

use vstd::prelude::*;

verus! {

/// What a parser produced, and the input left after it.
#[derive(Clone, Copy, Debug, PartialEq)]
pub struct ParserOutput<I, O> {
    pub next: I,
    pub output: O,
}

impl<I, O> ParserOutput<I, O> {
    pub fn new(next: I, output: O) -> (r: Self)
        ensures
            r.next == next,
            r.output == output,
    {
        ParserOutput { next, output }
    }

    /// Transform the output, keeping the rest of the input.
    pub fn map_output<F, T>(self, f: F) -> (r: ParserOutput<I, T>)
        where
            F: FnOnce(O) -> T,
        requires
            f.requires((self.output,)),
        ensures
            r.next == self.next,
            f.ensures((self.output,), r.output),
    {
        ParserOutput { next: self.next, output: f(self.output) }
    }

    /// The output itself.
    pub fn into_inner(self) -> (r: O)
        ensures
            r == self.output,
    {
        self.output
    }
}

impl<I, T> ParserOutput<I, Option<T>> {
    /// `None` when the output is `None`.
    pub fn transpose(self) -> (r: Option<ParserOutput<I, T>>)
        ensures
            match self.output {
                Some(o) => r == Some(ParserOutput { next: self.next, output: o }),
                None => r is None,
            },
    {
        match self.output {
            Some(output) => Some(ParserOutput { next: self.next, output }),
            None => None,
        }
    }
}

/// The input ended.
#[derive(Clone, Copy, Debug, Default, PartialEq)]
pub struct EofError;

impl EofError {
    /// The message for this error.
    pub fn message(&self) -> (r: &'static str)
        ensures
            r@ == "end of file"@,
    {
        "end of file"
    }
}

/// Why a token did not match.
#[derive(Clone, Copy, Debug, PartialEq)]
pub enum ParserError<T> {
    Eof(EofError),
    Match { expected: T, found: T },
}

/// A type that parsers read: a sequence of items that can be split.
pub trait Parsable: Copy + Sized {
    type Item: Copy;

    /// The items, in order.
    spec fn items(&self) -> Seq<Self::Item>;

    /// The first item and the rest, if any.
    fn split_first(self) -> (r: Option<(Self::Item, Self)>)
        ensures
            match r {
                Some((first, rest)) => self.items().len() > 0 && first == self.items()[0]
                    && rest.items() == self.items().drop_first(),
                None => self.items().len() == 0,
            },
    ;

    /// How much of the input an item takes: bytes for text, one for a
    /// slice's element.
    spec fn spec_item_len(item: Self::Item) -> nat;

    fn item_len(item: Self::Item) -> (n: usize)
        ensures
            n == Self::spec_item_len(item),
    ;

    /// The number of items.
    fn items_len(self) -> (n: usize)
        ensures
            n == self.items().len(),
    ;

    /// The first `at` items and the rest, if there are `at` items.
    fn split_at_checked(self, at: usize) -> (r: Option<(Self, Self)>)
        ensures
            match r {
                Some((l, rest)) => at <= self.items().len() && l.items() == self.items().take(
                    at as int,
                ) && rest.items() == self.items().skip(at as int),
                None => at > self.items().len(),
            },
    ;
}

impl<'a> Parsable for &'a str {
    type Item = char;

    open spec fn items(&self) -> Seq<char> {
        (*self)@
    }

    fn split_first(self) -> (r: Option<(char, &'a str)>) {
        let n = crate::text::char_len(self);
        if n == 0 {
            None
        } else {
            let c = self.get_char(0);
            let rest = crate::text::skip_chars(self, 1);
            assert(rest@ =~= self@.drop_first());
            Some((c, rest))
        }
    }

    open spec fn spec_item_len(item: char) -> nat {
        vstd::utf8::encode_utf8(seq![item]).len()
    }

    fn item_len(item: char) -> (n: usize) {
        crate::const_vec::encode_char(item).len()
    }

    fn items_len(self) -> (n: usize) {
        crate::text::char_len(self)
    }

    fn split_at_checked(self, at: usize) -> (r: Option<(&'a str, &'a str)>) {
        let n = crate::text::char_len(self);
        if at <= n {
            let l = crate::text::slice_chars(self, 0, at);
            let rest = crate::text::skip_chars(self, at);
            assert(l@ =~= self@.take(at as int));
            assert(rest@ =~= self@.skip(at as int));
            Some((l, rest))
        } else {
            None
        }
    }
}

impl<'a, T> Parsable for &'a [T] {
    type Item = &'a T;

    open spec fn items(&self) -> Seq<&'a T> {
        (*self)@.map_values(|t: T| &t)
    }

    fn split_first(self) -> (r: Option<(&'a T, &'a [T])>) {
        if self.len() == 0 {
            None
        } else {
            let rest = &self[1..self.len()];
            assert(rest@.map_values(|t: T| &t) =~= self@.map_values(|t: T| &t).drop_first());
            Some((&self[0], rest))
        }
    }

    open spec fn spec_item_len(item: &'a T) -> nat {
        1
    }

    fn item_len(item: &'a T) -> (n: usize) {
        1
    }

    fn items_len(self) -> (n: usize) {
        self.len()
    }

    fn split_at_checked(self, at: usize) -> (r: Option<(&'a [T], &'a [T])>) {
        if at <= self.len() {
            let l = &self[0..at];
            let rest = &self[at..self.len()];
            assert(l@.map_values(|t: T| &t) =~= self@.map_values(|t: T| &t).take(at as int));
            assert(rest@.map_values(|t: T| &t) =~= self@.map_values(|t: T| &t).skip(at as int));
            Some((l, rest))
        } else {
            None
        }
    }
}

} // verus!
