//! What the player's command line options ask for.

use vstd::prelude::*;
use getargs::{Error, Opt, Options};
use crate::display::ByteOpt;
use crate::text::{push_str, to_string};

verus! {

/// Where the player looks for its configuration, as told to the user.
pub fn human_default_config_dirs() -> (r: &'static str)
    ensures
        r@ == "`${XDG_CONFIG_HOME}/empl/main.scm` or `${HOME}/.config/empl/main.scm`"@,
{
    "`${XDG_CONFIG_HOME}/empl/main.scm` or `${HOME}/.config/empl/main.scm`"
}

/// The help message for the program called `bin`.
pub fn usage_message(bin: &str) -> (r: String)
    ensures
        r@ == "Usage: "@ + bin@ + " [OPTIONS..]\n\nOptions:\n  -h --help           Print this message and exit.\n  -v --version        Print version information and exit.\n  -c --config  [PATH] Set the path to the entrypoint to the config file.\n                      Defaults to "@
            + "`${XDG_CONFIG_HOME}/empl/main.scm` or `${HOME}/.config/empl/main.scm`"@ + "."@,
{
    let mut r = to_string("Usage: ");
    push_str(&mut r, bin);
    push_str(&mut r, " [OPTIONS..]\n\nOptions:\n  -h --help           Print this message and exit.\n  -v --version        Print version information and exit.\n  -c --config  [PATH] Set the path to the entrypoint to the config file.\n                      Defaults to ");
    push_str(&mut r, human_default_config_dirs());
    push_str(&mut r, ".");
    r
}

/// The version message for the program called `bin` at `version`.
pub fn version_message(bin: &str, version: &str) -> (r: String)
    ensures
        r@ == bin@ + seq![' '] + version@,
{
    let mut r = to_string(bin);
    push_str(&mut r, " ");
    push_str(&mut r, version);
    proof {
        reveal_strlit(" ");
    }
    r
}

/// What an option asks for.
#[derive(Clone, Copy, Debug, PartialEq, Eq)]
pub enum CliAction<'a> {
    /// Print the help message and stop.
    Help,
    /// Print the version and stop.
    Version,
    /// An option the player does not know.
    UnknownFlag(ByteOpt<'a>),
}

/// Whether `opt` is the short option `short` or the long option `long`.
pub open spec fn opt_is(opt: ByteOpt, short: u8, long: Seq<u8>) -> bool {
    match opt {
        ByteOpt::Short(c) => c == short,
        ByteOpt::Long(l) => l@ == long,
    }
}

fn bytes_eq(a: &[u8], b: &[u8]) -> (r: bool)
    ensures
        r == (a@ == b@),
{
    if a.len() != b.len() {
        return false;
    }
    let mut i: usize = 0;
    while i < a.len()
        invariant
            a@.len() == b@.len(),
            i <= a@.len(),
            forall|j: int| 0 <= j < i ==> a@[j] == b@[j],
        decreases a@.len() - i,
    {
        if a[i] != b[i] {
            return false;
        }
        i = i + 1;
    }
    assert(a@ =~= b@);
    true
}

/// What `opt` asks for: `-h`/`--help` the help, `-v`/`--version` the
/// version, anything else is unknown.
pub fn classify_opt<'a>(opt: ByteOpt<'a>) -> (r: CliAction<'a>)
    ensures
        opt_is(opt, 104, "help"@.map_values(|c: char| c as u8)) ==> r == CliAction::Help,
        !opt_is(opt, 104, "help"@.map_values(|c: char| c as u8)) && opt_is(opt, 118, "version"@.map_values(|c: char| c as u8)) ==> r == CliAction::Version,
        !opt_is(opt, 104, "help"@.map_values(|c: char| c as u8)) && !opt_is(opt, 118, "version"@.map_values(|c: char| c as u8)) ==> r == CliAction::UnknownFlag(opt),
{
    let help: &[u8] = &[104, 101, 108, 112];
    let version: &[u8] = &[118, 101, 114, 115, 105, 111, 110];
    proof {
        reveal_strlit("help");
        reveal_strlit("version");
        assert(help@ =~= "help"@.map_values(|c: char| c as u8));
        assert(version@ =~= "version"@.map_values(|c: char| c as u8));
    }
    let is_help = match opt {
        ByteOpt::Short(c) => c == 104,
        ByteOpt::Long(l) => bytes_eq(l, help),
    };
    if is_help {
        return CliAction::Help;
    }
    let is_version = match opt {
        ByteOpt::Short(c) => c == 118,
        ByteOpt::Long(l) => bytes_eq(l, version),
    };
    if is_version {
        CliAction::Version
    } else {
        CliAction::UnknownFlag(opt)
    }
}

/// Why the options could not be read.
#[derive(Clone, Copy, Debug, PartialEq, Eq)]
pub enum ParserCliArgumentsError<'a> {
    /// An option that takes a value was given none.
    MissingValue(ByteOpt<'a>),
    /// An option that takes no value was given one.
    UnexpectedValue(ByteOpt<'a>),
    /// An option the player does not know.
    UnknownFlag(ByteOpt<'a>),
}

/// The mathematical value of an option.
pub enum OptModel {
    Short(u8),
    Long(Seq<u8>),
}

pub open spec fn opt_view(o: ByteOpt) -> OptModel {
    match o {
        ByteOpt::Short(b) => OptModel::Short(b),
        ByteOpt::Long(l) => OptModel::Long(l@),
    }
}

/// Whether `o` is the short option `short` or the long option `long`.
pub open spec fn opt_model_is(o: OptModel, short: u8, long: Seq<u8>) -> bool {
    match o {
        OptModel::Short(c) => c == short,
        OptModel::Long(l) => l == long,
    }
}

/// Why the option reader `getargs` refuses an option.
#[derive(Clone, Copy, Debug, PartialEq, Eq)]
pub enum OptError<'a> {
    /// The option needs a value and has none.
    RequiresValue(ByteOpt<'a>),
    /// The option takes no value and was given one.
    DoesNotRequireValue(ByteOpt<'a>),
    /// A kind of refusal that the reader may add later (its error type is
    /// open to new variants; this version has none beyond the two above).
    Other,
}

/// The bytes of each argument.
pub open spec fn bytes_view(args: Seq<&[u8]>) -> Seq<Seq<u8>> {
    Seq::new(args.len(), |i: int| args[i]@)
}

/// The name of a long option written after `--`: the bytes up to the first
/// `=`, or all of them.
pub open spec fn long_name(rest: Seq<u8>) -> Seq<u8>
    decreases rest.len(),
{
    if rest.len() == 0 {
        rest
    } else if rest[0] == 61 {
        Seq::empty()
    } else {
        seq![rest[0]] + long_name(rest.drop_first())
    }
}

/// The option that the first argument is, if it is one: `--` ends the
/// options; `--name` or `--name=value` is the long option `name`; `-` and
/// at least one more byte is the short option of that byte (the first of a
/// cluster); anything else is a positional argument.
pub open spec fn leading_option(args: Seq<Seq<u8>>) -> Option<OptModel> {
    if args.len() == 0 {
        None
    } else {
        let a = args[0];
        if a == seq![45u8, 45u8] {
            None
        } else if a.len() > 2 && a[0] == 45 && a[1] == 45 {
            Some(OptModel::Long(long_name(a.skip(2))))
        } else if a.len() > 1 && a[0] == 45 {
            Some(OptModel::Short(a[1]))
        } else {
            None
        }
    }
}

/// `getargs::Options::new(args).next_opt()` on a fresh reader: the first
/// option, read from the first argument alone. From its starting state the
/// reader never refuses anything (an option's value is only checked when
/// the next option is asked for).
#[verifier::external_body]
fn first_opt<'a>(args: &[&'a [u8]]) -> (r: Result<Option<ByteOpt<'a>>, OptError<'a>>)
    ensures
        match r {
            Ok(Some(o)) => leading_option(bytes_view(args@)) == Some(opt_view(o)),
            Ok(None) => leading_option(bytes_view(args@)) is None,
            Err(_) => false,
        },
{
    let conv = |o: Opt<&'a [u8]>| match o {
        Opt::Short(b) => ByteOpt::Short(b),
        Opt::Long(l) => ByteOpt::Long(l),
    };
    match Options::new(args.iter().copied()).next_opt() {
        Ok(o) => Ok(o.map(conv)),
        Err(Error::RequiresValue(o)) => Err(OptError::RequiresValue(conv(o))),
        Err(Error::DoesNotRequireValue(o)) => Err(OptError::DoesNotRequireValue(conv(o))),
        Err(_) => Err(OptError::Other),
    }
}

impl<'a> ParserCliArgumentsError<'a> {
    /// The error for a refusal of the option reader: a missing value, or a
    /// value that was not wanted. The reader has no other refusal.
    pub fn from_opt_error(e: OptError<'a>) -> (r: Self)
        requires
            !(e is Other),
        ensures
            e matches OptError::RequiresValue(o) ==> r == ParserCliArgumentsError::MissingValue(o),
            e matches OptError::DoesNotRequireValue(o) ==> r == ParserCliArgumentsError::UnexpectedValue(o),
    {
        match e {
            OptError::RequiresValue(o) => ParserCliArgumentsError::MissingValue(o),
            OptError::DoesNotRequireValue(o) => ParserCliArgumentsError::UnexpectedValue(o),
            OptError::Other => ParserCliArgumentsError::UnknownFlag(ByteOpt::Short(0)),
        }
    }
}

/// What the command line `args` (the program's name left out) asks for,
/// read up to its first option: `-h`/`--help` the help and `-v`/`--version`
/// the version, which the caller prints before it stops; any other option
/// is refused. `Ok(None)` where there is no option before the first
/// positional argument or `--`; what then follows is not read here.
pub fn read_options<'a>(args: &[&'a [u8]]) -> (r: Result<Option<CliAction<'a>>, ParserCliArgumentsError<'a>>)
    ensures
        match leading_option(bytes_view(args@)) {
            None => r matches Ok(None),
            Some(o) => if opt_model_is(o, 104, "help"@.map_values(|c: char| c as u8)) {
                r matches Ok(Some(CliAction::Help))
            } else if opt_model_is(o, 118, "version"@.map_values(|c: char| c as u8)) {
                r matches Ok(Some(CliAction::Version))
            } else {
                r matches Err(ParserCliArgumentsError::UnknownFlag(f)) && opt_view(f) == o
            },
        },
{
    match first_opt(args) {
        Err(e) => Err(ParserCliArgumentsError::from_opt_error(e)),
        Ok(None) => Ok(None),
        Ok(Some(o)) => match classify_opt(o) {
            CliAction::UnknownFlag(f) => Err(ParserCliArgumentsError::UnknownFlag(f)),
            action => Ok(Some(action)),
        },
    }
}

} // verus!
