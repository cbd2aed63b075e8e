//! The first form of flag splitting: one argument into its flags.

use crate::flag::{
    argument_next, opt_str_view, parse_argument, separator, strip_equals, ArgumentModel,
    FlagModel,
};
use crate::text::{char_len, find_char, skip_chars, slice_chars, starts_with_char, str_eq};
use vstd::prelude::*;

verus! {

/// A single flag.
#[derive(Clone, Copy, Debug, PartialEq)]
pub enum Flag<'a> {
    /// Flags that start with `-` or are chained
    Short(char),
    /// Flags that start with `--`
    Long(&'a str),
}

impl<'a> View for Flag<'a> {
    type V = FlagModel;

    open spec fn view(&self) -> FlagModel {
        match self {
            Flag::Short(c) => FlagModel::Short(*c),
            Flag::Long(s) => FlagModel::Long(s@),
        }
    }
}

/// The view of an optional flag.
pub open spec fn opt_view(f: Option<Flag>) -> Option<FlagModel> {
    match f {
        Some(f) => Some(f@),
        None => None,
    }
}

/// Iterator for [Flag]s
#[derive(Clone, Copy, Debug, PartialEq)]
pub enum FlagIter<'a> {
    Long { flag: Option<&'a str>, value: Option<&'a str> },
    Short(&'a str),
}

impl<'a> View for FlagIter<'a> {
    type V = ArgumentModel;

    open spec fn view(&self) -> ArgumentModel {
        match self {
            FlagIter::Long { flag, value } => ArgumentModel::Long {
                flag: opt_str_view(*flag),
                value: opt_str_view(*value),
            },
            FlagIter::Short(s) => ArgumentModel::Short(s@),
        }
    }
}

/// The value of a [FlagIter]: the text after `=` of a long flag, or what
/// follows the short flags without a leading `=` (possibly empty).
pub open spec fn flag_iter_value(a: ArgumentModel) -> Option<Seq<char>> {
    match a {
        ArgumentModel::Long { value, .. } => value,
        ArgumentModel::Short(short) => Some(strip_equals(short)),
    }
}

/// Text that is not a flag.
#[derive(Clone, Copy, Debug, PartialEq)]
pub struct NonFlagError<'a>(pub &'a str);

impl<'a> FlagIter<'a> {
    /// Read one command line argument.
    pub fn try_from(flag: &'a str) -> (r: Result<FlagIter<'a>, NonFlagError<'a>>)
        ensures
            match r {
                Ok(a) => parse_argument(flag@) == Some(a@),
                Err(e) => parse_argument(flag@) is None && e.0@ == flag@,
            },
    {
        let n = char_len(flag);
        let sep = "--";
        proof {
            reveal_strlit("--");
            assert(sep@ =~= separator());
        }
        if str_eq(flag, sep) || n < 2 {
            return Err(NonFlagError(flag));
        }
        let c0 = flag.get_char(0);
        let c1 = flag.get_char(1);
        if c0 == '-' && c1 == '-' {
            let rest = skip_chars(flag, 2);
            assert(flag@ != separator());
            match find_char(rest, '=') {
                Some(i) => Ok(
                    FlagIter::Long {
                        flag: Some(slice_chars(rest, 0, i)),
                        value: Some(skip_chars(rest, i + 1)),
                    },
                ),
                None => Ok(FlagIter::Long { flag: Some(rest), value: None }),
            }
        } else if c0 == '-' {
            Ok(FlagIter::Short(skip_chars(flag, 1)))
        } else {
            Err(NonFlagError(flag))
        }
    }

    /// The next flag.
    pub fn next(&mut self) -> (r: Option<Flag<'a>>)
        ensures
            (final(self)@, opt_view(r)) == argument_next(old(self)@),
    {
        match *self {
            FlagIter::Long { flag, value } => {
                *self = FlagIter::Long { flag: None, value };
                match flag {
                    Some(f) => Some(Flag::Long(f)),
                    None => None,
                }
            },
            FlagIter::Short(tail) => {
                if char_len(tail) == 0 || starts_with_char(tail, '=') {
                    None
                } else {
                    let c = tail.get_char(0);
                    let rest = skip_chars(tail, 1);
                    assert(rest@ =~= tail@.drop_first());
                    *self = FlagIter::Short(rest);
                    Some(Flag::Short(c))
                }
            },
        }
    }

    /// Extract the value from a flag
    pub fn value(self) -> (r: Option<&'a str>)
        ensures
            opt_str_view(r) == flag_iter_value(self@),
    {
        match self {
            FlagIter::Long { value, .. } => value,
            FlagIter::Short(short) => {
                let v = if starts_with_char(short, '=') {
                    skip_chars(short, 1)
                } else {
                    short
                };
                assert(v@ =~= strip_equals(short@));
                Some(v)
            },
        }
    }
}

} // verus!
