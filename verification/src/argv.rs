//! The arguments the program was started with, as the C runtime hands
//! them over.

use vstd::prelude::*;
use std::num::TryFromIntError;
use crate::const_vec::utf8_to_str;
use crate::text::{push_str, to_string};

verus! {

/// Why the argument list could not be read.
#[derive(Debug)]
pub enum ArgvError {
    /// The count of arguments is negative.
    InvalidArgc(TryFromIntError),
    /// The list itself is missing.
    Null,
}

/// std's text for a failed integer conversion; what it says is left
/// unsaid.
#[verifier::external_body]
fn conversion_error_text(e: &TryFromIntError) -> (r: String) {
    format!("{}", e)
}

impl ArgvError {
    /// What is printed for the error.
    pub fn message(&self) -> (r: String)
        ensures
            *self is Null ==> r@ == "`argv` is null"@,
            *self is InvalidArgc ==> r@.len() >= 19 && r@.take(19) == "`argc` is invalid: "@,
    {
        match self {
            ArgvError::Null => to_string("`argv` is null"),
            ArgvError::InvalidArgc(e) => {
                let mut r = to_string("`argc` is invalid: ");
                let text = conversion_error_text(e);
                push_str(&mut r, text.as_str());
                proof {
                    reveal_strlit("`argc` is invalid: ");
                    assert(r@.take(19) =~= "`argc` is invalid: "@);
                }
                r
            },
        }
    }
}

/// The number of arguments, from the C count of a list that is there
/// (`argv_present`): refused where the list is missing, or the count is
/// negative.
pub fn argument_count(argc: i32, argv_present: bool) -> (r: Result<usize, ArgvError>)
    ensures
        !argv_present ==> r matches Err(ArgvError::Null),
        argv_present && argc < 0 ==> r matches Err(ArgvError::InvalidArgc(_)),
        argv_present && argc >= 0 ==> r == Ok::<usize, ArgvError>(argc as usize),
{
    if !argv_present {
        return Err(ArgvError::Null);
    }
    match usize::try_from(argc) {
        Ok(n) => Ok(n),
        Err(e) => Err(ArgvError::InvalidArgc(e)),
    }
}

/// Why one argument could not be read.
#[derive(Debug, PartialEq)]
pub enum ArgError<'a> {
    /// The argument is missing.
    Null,
    /// The argument's bytes are not UTF-8.
    Utf8(&'a [u8]),
}

/// The arguments, each as its bytes, or `None` where it is missing.
pub struct Argv<'a> {
    args: Vec<Option<&'a [u8]>>,
    next: usize,
}

/// What [Argv::next] reads from `args` at `next`: nothing past the end, an
/// error for a missing argument (which is not moved past), and otherwise
/// the argument's text, or an error for bytes that are not UTF-8.
pub open spec fn argv_item(args: Seq<Option<&[u8]>>, next: int) -> Option<Result<Seq<char>, Option<Seq<u8>>>> {
    if next >= args.len() {
        None
    } else {
        match args[next] {
            None => Some(Err(None)),
            Some(b) => if vstd::utf8::valid_utf8(b@) {
                Some(Ok(vstd::utf8::decode_utf8(b@)))
            } else {
                Some(Err(Some(b@)))
            },
        }
    }
}

impl<'a> Argv<'a> {
    pub closed spec fn items(&self) -> Seq<Option<&'a [u8]>> {
        self.args@
    }

    pub closed spec fn position(&self) -> nat {
        self.next as nat
    }

    /// The arguments `args`, from the first.
    pub fn new(args: Vec<Option<&'a [u8]>>) -> (r: Self)
        ensures
            r.items() == args@,
            r.position() == 0,
    {
        Argv { args, next: 0 }
    }

    /// The next argument (see [argv_item]).
    pub fn next(&mut self) -> (r: Option<Result<&'a str, ArgError<'a>>>)
        ensures
            final(self).items() == old(self).items(),
            match argv_item(old(self).items(), old(self).position() as int) {
                None => r is None && final(self).position() == old(self).position(),
                Some(Err(None)) => r == Some(Err::<&'a str, ArgError<'a>>(ArgError::Null))
                    && final(self).position() == old(self).position(),
                Some(Err(Some(b))) => r matches Some(Err(ArgError::Utf8(x))) && x@ == b
                    && final(self).position() == old(self).position() + 1,
                Some(Ok(t)) => r matches Some(Ok(s)) && s@ == t && final(self).position()
                    == old(self).position() + 1,
            },
    {
        if self.next >= self.args.len() {
            return None;
        }
        match self.args[self.next] {
            None => Some(Err(ArgError::Null)),
            Some(bytes) => {
                self.next = self.next + 1;
                match utf8_to_str(bytes) {
                    Some(s) => {
                        proof {
                            vstd::utf8::encode_utf8_decode_utf8(s@);
                        }
                        Some(Ok(s))
                    },
                    None => Some(Err(ArgError::Utf8(bytes))),
                }
            },
        }
    }
}

} // verus!
