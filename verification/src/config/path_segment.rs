//! A piece of a file path: text, an environment variable, or the home
//! directory.

use vstd::prelude::*;
use crate::text::{push_str, to_string};

verus! {

/// A piece of a path.
#[derive(Clone, Copy, Debug, PartialEq, Eq)]
pub enum PathSegment<'a> {
    /// The user's home directory.
    HomeDir,
    /// The value of the environment variable of this name.
    EnvVar(&'a str),
    /// This text.
    Segment(&'a str),
}

/// An environment variable that is not set.
#[derive(Clone, Copy, Debug, PartialEq, Eq)]
pub struct UnknownEnvVarError<'a>(pub &'a str);

impl<'a> UnknownEnvVarError<'a> {
    /// What is printed for the error.
    pub fn message(&self) -> (r: String)
        ensures
            r@ == "unknown environment variable `"@ + self.0@ + seq!['`'],
    {
        let mut r = to_string("unknown environment variable `");
        push_str(&mut r, self.0);
        push_str(&mut r, "`");
        proof {
            reveal_strlit("`");
        }
        r
    }
}

/// Why a piece of a path could not be found.
#[derive(Debug)]
pub enum GetPathSegmentError<'a> {
    /// The user database has no home directory for the user; the OS error
    /// code.
    ReadPwd(i32),
    UnknownEnvVar(UnknownEnvVarError<'a>),
}

/// How a segment is shown: `${HOME}`, `${NAME}` for a variable, or the
/// text.
pub open spec fn segment_text(s: PathSegment) -> Seq<char> {
    match s {
        PathSegment::HomeDir => "${HOME}"@,
        PathSegment::EnvVar(v) => seq!['$', '{'] + v@ + seq!['}'],
        PathSegment::Segment(t) => t@,
    }
}

/// Where the home directory's path is found: the `HOME` variable, or else
/// the user database (its path, or the OS error code of the failed read).
pub enum HomeSource<'b> {
    Env(&'b str),
    Passwd(Result<&'b str, i32>),
}

impl<'a> PathSegment<'a> {
    /// Whether the segment depends on the environment.
    pub fn is_dynamic(&self) -> (r: bool)
        ensures
            r == !(*self is Segment),
    {
        match self {
            PathSegment::Segment(_) => false,
            _ => true,
        }
    }

    /// The length in bytes of a text segment; nothing for the others.
    pub fn size_hint(&self) -> (r: Option<usize>)
        ensures
            match *self {
                PathSegment::Segment(t) => r == Some(vstd::utf8::encode_utf8(t@).len() as usize),
                _ => r is None,
            },
    {
        match self {
            PathSegment::Segment(segment) => Some(segment.as_bytes().len()),
            _ => None,
        }
    }

    /// How the segment is shown (see [segment_text]).
    pub fn display(&self) -> (r: String)
        ensures
            r@ == segment_text(*self),
    {
        match self {
            PathSegment::HomeDir => to_string("${HOME}"),
            PathSegment::EnvVar(v) => {
                let mut r = to_string("${");
                push_str(&mut r, v);
                push_str(&mut r, "}");
                proof {
                    reveal_strlit("${");
                    reveal_strlit("}");
                    assert(r@ =~= seq!['$', '{'] + v@ + seq!['}']);
                }
                r
            },
            PathSegment::Segment(t) => to_string(t),
        }
    }

    /// The path the segment stands for, from what the environment holds:
    /// text stands for itself; a variable for its value (`value`), and is an
    /// error where it is not set; the home directory for what `home` found.
    pub fn to_path<'b>(self, value: Option<&'b str>, home: HomeSource<'b>) -> (r: Result<&'b str, GetPathSegmentError<'a>>)
        where
            'a: 'b,
        ensures
            match self {
                PathSegment::Segment(t) => r == Ok::<&'b str, GetPathSegmentError<'a>>(t),
                PathSegment::EnvVar(v) => match value {
                    Some(x) => r == Ok::<&'b str, GetPathSegmentError<'a>>(x),
                    None => r matches Err(GetPathSegmentError::UnknownEnvVar(e)) && e.0 == v,
                },
                PathSegment::HomeDir => match home {
                    HomeSource::Env(x) => r == Ok::<&'b str, GetPathSegmentError<'a>>(x),
                    HomeSource::Passwd(Ok(x)) => r == Ok::<&'b str, GetPathSegmentError<'a>>(x),
                    HomeSource::Passwd(Err(code)) => r matches Err(GetPathSegmentError::ReadPwd(c)) && c == code,
                },
            },
    {
        match self {
            PathSegment::Segment(t) => Ok(t),
            PathSegment::EnvVar(v) => match value {
                Some(x) => Ok(x),
                None => Err(GetPathSegmentError::UnknownEnvVar(UnknownEnvVarError(v))),
            },
            PathSegment::HomeDir => match home {
                HomeSource::Env(x) => Ok(x),
                HomeSource::Passwd(Ok(x)) => Ok(x),
                HomeSource::Passwd(Err(code)) => Err(GetPathSegmentError::ReadPwd(code)),
            },
        }
    }
}

/// Where the configuration file is looked for, in order:
/// `${XDG_CONFIG_HOME}/empl/main.scm`, then `${HOME}/.config/empl/main.scm`.
pub fn default_paths() -> (r: Vec<Vec<PathSegment<'static>>>)
    ensures
        r@.len() == 2,
        r@[0]@ == seq![PathSegment::EnvVar("XDG_CONFIG_HOME"), PathSegment::Segment("empl"), PathSegment::Segment("main.scm")],
        r@[1]@ == seq![PathSegment::HomeDir, PathSegment::Segment(".config"), PathSegment::Segment("empl"), PathSegment::Segment("main.scm")],
{
    let first = vec![PathSegment::EnvVar("XDG_CONFIG_HOME"), PathSegment::Segment("empl"), PathSegment::Segment("main.scm")];
    let second = vec![PathSegment::HomeDir, PathSegment::Segment(".config"), PathSegment::Segment("empl"), PathSegment::Segment("main.scm")];
    vec![first, second]
}

} // verus!
