//! Command line flags: splitting arguments such as `-abc`, `--key=value` and
//! `--` into single flags and their values.

use crate::text::{char_len, find_char, first_index, skip_chars, slice_chars, starts_with_char, str_eq};
use std::collections::VecDeque;
use vstd::prelude::*;

verus! {

/// A single flag.
#[derive(Clone, Copy, Debug, PartialEq)]
pub enum Flag<'a> {
    /// Flags that start with `-` or are chained
    Short(char),
    /// Flags that start with `--`
    Long(&'a str),
}

/// The mathematical value of a [Flag].
pub enum FlagModel {
    Short(char),
    Long(Seq<char>),
}

impl<'a> View for Flag<'a> {
    type V = FlagModel;

    open spec fn view(&self) -> FlagModel {
        match self {
            Flag::Short(c) => FlagModel::Short(*c),
            Flag::Long(s) => FlagModel::Long(s@),
        }
    }
}

/// How a flag is shown: `-` and its character, or `--` and its name.
pub open spec fn flag_text(f: FlagModel) -> Seq<char> {
    match f {
        FlagModel::Short(c) => seq!['-', c],
        FlagModel::Long(l) => seq!['-', '-'] + l,
    }
}

impl<'a> Flag<'a> {
    /// How the flag is shown (see [flag_text]).
    pub fn text(&self) -> (r: String)
        ensures
            r@ == flag_text(self@),
    {
        proof {
            reveal_strlit("-");
            reveal_strlit("--");
        }
        match self {
            Flag::Short(c) => {
                let mut r = crate::text::to_string("-");
                crate::text::push_char(&mut r, *c);
                r
            },
            Flag::Long(l) => {
                let mut r = crate::text::to_string("--");
                crate::text::push_str(&mut r, l);
                r
            },
        }
    }
}

/// The view of an optional flag.
pub open spec fn opt_flag_view(f: Option<Flag>) -> Option<FlagModel> {
    match f {
        Some(f) => Some(f@),
        None => None,
    }
}

/// The view of an optional string.
pub open spec fn opt_str_view(s: Option<&str>) -> Option<Seq<char>> {
    match s {
        Some(s) => Some(s@),
        None => None,
    }
}

/// The flags held by one command line argument.
#[derive(Clone, Copy, Debug, PartialEq)]
pub enum Argument<'a> {
    Long { flag: Option<&'a str>, value: Option<&'a str> },
    Short(&'a str),
}

/// The mathematical value of an [Argument].
pub enum ArgumentModel {
    Long { flag: Option<Seq<char>>, value: Option<Seq<char>> },
    Short(Seq<char>),
}

impl<'a> View for Argument<'a> {
    type V = ArgumentModel;

    open spec fn view(&self) -> ArgumentModel {
        match self {
            Argument::Long { flag, value } => ArgumentModel::Long {
                flag: opt_str_view(*flag),
                value: opt_str_view(*value),
            },
            Argument::Short(s) => ArgumentModel::Short(s@),
        }
    }
}

/// The text `--`.
pub open spec fn separator() -> Seq<char> {
    seq!['-', '-']
}

/// How an argument is read: `None` for text that is not a flag.
///
/// `--` and texts shorter than two characters are not flags; `--name` and
/// `--name=value` are long flags, split at the first `=`; any other text
/// that starts with `-` holds short flags.
pub open spec fn parse_argument(s: Seq<char>) -> Option<ArgumentModel> {
    if s == separator() || s.len() < 2 {
        None
    } else if s[0] == '-' && s[1] == '-' {
        let rest = s.subrange(2, s.len() as int);
        match first_index(rest, '=') {
            Some(i) => Some(
                ArgumentModel::Long {
                    flag: Some(rest.subrange(0, i)),
                    value: Some(rest.subrange(i + 1, rest.len() as int)),
                },
            ),
            None => Some(ArgumentModel::Long { flag: Some(rest), value: None }),
        }
    } else if s[0] == '-' {
        Some(ArgumentModel::Short(s.subrange(1, s.len() as int)))
    } else {
        None
    }
}

/// One step of the iteration over the flags of an argument: the argument
/// afterwards and the flag produced.
pub open spec fn argument_next(a: ArgumentModel) -> (ArgumentModel, Option<FlagModel>) {
    match a {
        ArgumentModel::Long { flag, value } => (
            ArgumentModel::Long { flag: None, value },
            match flag {
                Some(f) => Some(FlagModel::Long(f)),
                None => None,
            },
        ),
        ArgumentModel::Short(tail) => if tail.len() == 0 || tail[0] == '=' {
            (ArgumentModel::Short(tail), None)
        } else {
            (ArgumentModel::Short(tail.drop_first()), Some(FlagModel::Short(tail[0])))
        },
    }
}

/// `s` without a leading `=`.
pub open spec fn strip_equals(s: Seq<char>) -> Seq<char> {
    if s.len() > 0 && s[0] == '=' {
        s.drop_first()
    } else {
        s
    }
}

/// The value attached to an argument: the text after `=` of a long flag,
/// or what follows the short flags (without a leading `=`) if not empty.
pub open spec fn argument_value(a: ArgumentModel) -> Option<Seq<char>> {
    match a {
        ArgumentModel::Long { value, .. } => value,
        ArgumentModel::Short(short) => if strip_equals(short).len() == 0 {
            None
        } else {
            Some(strip_equals(short))
        },
    }
}

/// Number of flags an argument can still produce.
pub open spec fn argument_size(a: ArgumentModel) -> nat {
    match a {
        ArgumentModel::Long { flag, .. } => if flag is Some {
            1
        } else {
            0
        },
        ArgumentModel::Short(tail) => tail.len(),
    }
}

/// Text that is not a flag.
#[derive(Clone, Copy, Debug, PartialEq)]
pub struct NonFlagError<'a>(pub &'a str);

impl<'a> NonFlagError<'a> {
    /// What is printed for the error.
    pub fn message(&self) -> (r: String)
        ensures
            r@ == seq!['`'] + self.0@ + "` is not a flag"@,
    {
        let mut r = crate::text::to_string("`");
        crate::text::push_str(&mut r, self.0);
        crate::text::push_str(&mut r, "` is not a flag");
        proof {
            reveal_strlit("`");
        }
        r
    }
}

impl<'a> Argument<'a> {
    /// Read one command line argument.
    pub fn try_from(flag: &'a str) -> (r: Result<Argument<'a>, NonFlagError<'a>>)
        ensures
            match r {
                Ok(a) => parse_argument(flag@) == Some(a@),
                Err(e) => parse_argument(flag@) is None && e.0@ == flag@,
            },
    {
        let n = char_len(flag);
        let sep = "--";
        proof {
            reveal_strlit("--");
            assert(sep@ =~= separator());
        }
        if str_eq(flag, sep) || n < 2 {
            return Err(NonFlagError(flag));
        }
        let c0 = flag.get_char(0);
        let c1 = flag.get_char(1);
        if c0 == '-' && c1 == '-' {
            let rest = skip_chars(flag, 2);
            assert(flag@ != separator());
            match find_char(rest, '=') {
                Some(i) => {
                    let name = slice_chars(rest, 0, i);
                    let value = skip_chars(rest, i + 1);
                    Ok(Argument::Long { flag: Some(name), value: Some(value) })
                },
                None => Ok(Argument::Long { flag: Some(rest), value: None }),
            }
        } else if c0 == '-' {
            Ok(Argument::Short(skip_chars(flag, 1)))
        } else {
            Err(NonFlagError(flag))
        }
    }

    /// The next flag of this argument.
    pub fn next(&mut self) -> (r: Option<Flag<'a>>)
        ensures
            (final(self)@, opt_flag_view(r)) == argument_next(old(self)@),
    {
        match *self {
            Argument::Long { flag, value } => {
                *self = Argument::Long { flag: None, value };
                match flag {
                    Some(f) => Some(Flag::Long(f)),
                    None => None,
                }
            },
            Argument::Short(tail) => {
                if char_len(tail) == 0 || starts_with_char(tail, '=') {
                    None
                } else {
                    let c = tail.get_char(0);
                    let rest = skip_chars(tail, 1);
                    proof {
                        assert(rest@ =~= tail@.drop_first());
                    }
                    *self = Argument::Short(rest);
                    Some(Flag::Short(c))
                }
            },
        }
    }

    /// Extract the value from a flag.
    pub fn value(self) -> (r: Option<&'a str>)
        ensures
            opt_str_view(r) == argument_value(self@),
    {
        match self {
            Argument::Long { value, .. } => value,
            Argument::Short(short) => {
                let v = if starts_with_char(short, '=') {
                    skip_chars(short, 1)
                } else {
                    short
                };
                proof {
                    assert(v@ =~= strip_equals(short@));
                }
                if char_len(v) == 0 {
                    None
                } else {
                    Some(v)
                }
            },
        }
    }
}

/// Why a flag could not be read.
#[derive(Clone, Debug, PartialEq)]
pub enum ArgumentsError<'a, E> {
    NonFlag(NonFlagError<'a>),
    Source(E),
}

impl<'a, E> ArgumentsError<'a, E> {
    /// What is printed for the error, `source` being the text of a source's
    /// error.
    pub fn message(&self, source: &str) -> (r: String)
        ensures
            match *self {
                ArgumentsError::NonFlag(e) => r@ == seq!['`'] + e.0@ + "` is not a flag"@,
                ArgumentsError::Source(_) => r@ == "failed to source argument: "@ + source@,
            },
    {
        match self {
            ArgumentsError::NonFlag(e) => e.message(),
            ArgumentsError::Source(_) => {
                let mut r = crate::text::to_string("failed to source argument: ");
                crate::text::push_str(&mut r, source);
                r
            },
        }
    }
}

/// The mathematical value of an [ArgumentsError].
pub enum ArgumentsErrorModel<E> {
    NonFlag(Seq<char>),
    Source(E),
}

/// The view of a source argument.
pub open spec fn source_view<E>(r: Result<&str, E>) -> Result<Seq<char>, E> {
    match r {
        Ok(s) => Ok(s@),
        Err(e) => Err(e),
    }
}

/// The view of a flag read by [Arguments::next].
pub open spec fn flag_result_view<'a, E>(r: Option<Result<Flag<'a>, ArgumentsError<'a, E>>>) -> Option<
    Result<FlagModel, ArgumentsErrorModel<E>>,
> {
    match r {
        Some(Ok(f)) => Some(Ok(f@)),
        Some(Err(ArgumentsError::NonFlag(e))) => Some(Err(ArgumentsErrorModel::NonFlag(e.0@))),
        Some(Err(ArgumentsError::Source(e))) => Some(Err(ArgumentsErrorModel::Source(e))),
        None => None,
    }
}

/// The view of a value read by [Arguments::value].
pub open spec fn value_result_view<E>(r: Option<Result<&str, E>>) -> Option<Result<Seq<char>, E>> {
    match r {
        Some(r) => Some(source_view(r)),
        None => None,
    }
}

/// Iterator for the flags in a list of command line arguments.
#[derive(Clone, Debug)]
pub struct Arguments<'a, E> {
    arg: Option<Argument<'a>>,
    passed_separator: bool,
    src: VecDeque<Result<&'a str, E>>,
}

/// The mathematical value of [Arguments]: the argument being split into
/// flags, whether `--` was read, and the arguments not read yet.
pub struct ArgumentsModel<E> {
    pub arg: Option<ArgumentModel>,
    pub passed_separator: bool,
    pub src: Seq<Result<Seq<char>, E>>,
}

impl<'a, E> View for Arguments<'a, E> {
    type V = ArgumentsModel<E>;

    closed spec fn view(&self) -> ArgumentsModel<E> {
        ArgumentsModel {
            arg: match self.arg {
                Some(a) => Some(a@),
                None => None,
            },
            passed_separator: self.passed_separator,
            src: self.src@.map_values(|r: Result<&'a str, E>| source_view(r)),
        }
    }
}

/// One step of [Arguments::next]: the state afterwards and the flag read.
///
/// Nothing is read after `--`; an argument that is not a flag, or a source
/// that fails, gives an error; the flags of an argument come one by one.
pub open spec fn arguments_next<E>(m: ArgumentsModel<E>) -> (ArgumentsModel<E>, Option<
    Result<FlagModel, ArgumentsErrorModel<E>>,
>)
    decreases m.src.len(), if m.arg is Some {
        1int
    } else {
        0int
    },
{
    if m.passed_separator {
        (m, None)
    } else {
        match m.arg {
            Some(a) => {
                let (a2, f) = argument_next(a);
                match f {
                    Some(f) => (ArgumentsModel { arg: Some(a2), ..m }, Some(Ok(f))),
                    None => arguments_next(ArgumentsModel { arg: None, ..m }),
                }
            },
            None => if m.src.len() == 0 {
                (m, None)
            } else {
                let m1 = ArgumentsModel { src: m.src.drop_first(), ..m };
                match m.src[0] {
                    Err(e) => (m1, Some(Err(ArgumentsErrorModel::Source(e)))),
                    Ok(s) => if s == separator() {
                        (ArgumentsModel { passed_separator: true, ..m1 }, None)
                    } else {
                        match parse_argument(s) {
                            Some(a) => arguments_next(ArgumentsModel { arg: Some(a), ..m1 }),
                            None => (m1, Some(Err(ArgumentsErrorModel::NonFlag(s)))),
                        }
                    },
                }
            },
        }
    }
}

/// One step of [Arguments::value]: the state afterwards and the value read.
///
/// The value is the one attached to the current argument if it has one,
/// otherwise the next argument, unless that argument starts with `-` (it is
/// consumed all the same).
pub open spec fn arguments_value<E>(m: ArgumentsModel<E>) -> (ArgumentsModel<E>, Option<
    Result<Seq<char>, E>,
>) {
    let m1 = ArgumentsModel { arg: None, ..m };
    let (m2, candidate) = if m.arg matches Some(a) && argument_value(a) is Some {
        (m1, Some(Ok(argument_value(m.arg->0)->0)))
    } else if m1.src.len() == 0 {
        (m1, None)
    } else {
        (ArgumentsModel { src: m1.src.drop_first(), ..m1 }, Some(m1.src[0]))
    };
    (
        m2,
        match candidate {
            Some(Ok(s)) => if s.len() > 0 && s[0] == '-' {
                None
            } else {
                Some(Ok(s))
            },
            c => c,
        },
    )
}

impl<'a, E> Arguments<'a, E> {
    /// Read the flags of `src`, in order.
    pub fn new(src: Vec<Result<&'a str, E>>) -> (r: Self)
        ensures
            r@.arg is None,
            !r@.passed_separator,
            r@.src == src@.map_values(|a: Result<&'a str, E>| source_view(a)),
    {
        let mut rest = src;
        let mut queue: VecDeque<Result<&'a str, E>> = VecDeque::new();
        while rest.len() > 0
            invariant
                rest@.len() <= src@.len(),
                rest@ == src@.subrange(0, rest@.len() as int),
                queue@ == src@.subrange(rest@.len() as int, src@.len() as int),
            decreases rest.len(),
        {
            let ghost before = rest@;
            let item = rest.pop().unwrap();
            proof {
                assert(rest@ =~= src@.subrange(0, rest@.len() as int));
                assert(seq![item] + queue@ =~= src@.subrange(rest@.len() as int, src@.len() as int));
            }
            queue.push_front(item);
        }
        assert(queue@ =~= src@);
        let r = Arguments { arg: None, passed_separator: false, src: queue };
        proof {
            assert(r@.src =~= src@.map_values(|a: Result<&'a str, E>| source_view(a)));
        }
        r
    }

    /// The next flag.
    pub fn next(&mut self) -> (r: Option<Result<Flag<'a>, ArgumentsError<'a, E>>>)
        ensures
            (final(self)@, flag_result_view(r)) == arguments_next(old(self)@),
    {
        loop
            invariant
                arguments_next(self@) == arguments_next(old(self)@),
            decreases self.src@.len(), if self.arg is Some {
                1int
            } else {
                0int
            },
        {
            if self.passed_separator {
                return None;
            }
            match self.arg {
                Some(a) => {
                    let mut a = a;
                    let f = a.next();
                    match f {
                        Some(f) => {
                            self.arg = Some(a);
                            return Some(Ok(f));
                        },
                        None => {
                            self.arg = None;
                        },
                    }
                },
                None => {
                    let ghost before = self@;
                    match self.src.pop_front() {
                        None => {
                            return None;
                        },
                        Some(Err(e)) => {
                            proof {
                                assert(self@.src =~= before.src.drop_first());
                            }
                            return Some(Err(ArgumentsError::Source(e)));
                        },
                        Some(Ok(s)) => {
                            proof {
                                assert(self@.src =~= before.src.drop_first());
                                reveal_strlit("--");
                                assert("--"@ =~= separator());
                            }
                            if str_eq(s, "--") {
                                self.passed_separator = true;
                                return None;
                            }
                            match Argument::try_from(s) {
                                Ok(a) => {
                                    self.arg = Some(a);
                                },
                                Err(e) => {
                                    return Some(Err(ArgumentsError::NonFlag(e)));
                                },
                            }
                        },
                    }
                },
            }
        }
    }

    /// The value for the flag that was read last.
    pub fn value(&mut self) -> (r: Option<Result<&'a str, E>>)
        ensures
            (final(self)@, value_result_view(r)) == arguments_value(old(self)@),
    {
        let ghost m = self@;
        let arg = self.arg.take();
        let candidate = match arg {
            Some(a) => match a.value() {
                Some(v) => Some(Ok(v)),
                None => self.src.pop_front(),
            },
            None => self.src.pop_front(),
        };
        proof {
            if candidate is Some && !(m.arg matches Some(a) && argument_value(a) is Some) {
                assert(self@.src =~= m.src.drop_first());
            }
        }
        match candidate {
            Some(Ok(s)) => if starts_with_char(s, '-') {
                None
            } else {
                Some(Ok(s))
            },
            c => c,
        }
    }
}

/// After `--`, no flag is read and nothing is consumed.
pub proof fn law_nothing_after_separator<E>(m: ArgumentsModel<E>)
    requires
        m.passed_separator,
    ensures
        arguments_next(m).1 is None,
        arguments_next(m).0 == m,
{
}

/// The number of flags the current argument can still produce.
pub open spec fn pending_size(a: Option<ArgumentModel>) -> nat {
    match a {
        Some(a) => argument_size(a),
        None => 0,
    }
}

/// Reading a flag consumes input: the arguments left shrink, or stay and
/// the current argument shrinks.
pub proof fn lemma_next_consumes<E>(m: ArgumentsModel<E>)
    ensures
        arguments_next(m).0.src.len() <= m.src.len(),
        arguments_next(m).1 is Some ==> (arguments_next(m).0.src.len() < m.src.len() || (
        arguments_next(m).0.src.len() == m.src.len() && pending_size(arguments_next(m).0.arg)
            < pending_size(m.arg))),
    decreases m.src.len(), if m.arg is Some {
        1int
    } else {
        0int
    },
{
    if !m.passed_separator {
        match m.arg {
            Some(a) => {
                let (a2, f) = argument_next(a);
                if f is None {
                    lemma_next_consumes(ArgumentsModel { arg: None, ..m });
                }
            },
            None => if m.src.len() > 0 {
                let m1 = ArgumentsModel { src: m.src.drop_first(), ..m };
                match m.src[0] {
                    Ok(s) => if s != separator() {
                        match parse_argument(s) {
                            Some(a) => lemma_next_consumes(ArgumentsModel { arg: Some(a), ..m1 }),
                            None => {},
                        }
                    },
                    Err(_) => {},
                }
            },
        }
    }
}

/// Reading a value consumes input and leaves no current argument.
pub proof fn lemma_value_consumes<E>(m: ArgumentsModel<E>)
    ensures
        arguments_value(m).0.src.len() <= m.src.len(),
        arguments_value(m).0.arg is None,
{
}

} // verus!
