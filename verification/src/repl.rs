//! Command line of the interactive evaluator: which stage of the
//! configuration language to run each line through.

use vstd::prelude::*;
use crate::flag::{
    arguments_next, arguments_value, lemma_next_consumes, lemma_value_consumes, pending_size,
    Arguments, ArgumentsError, ArgumentsErrorModel, ArgumentsModel, Flag, FlagModel,
};
use crate::text::{push_str, str_eq, to_string};

verus! {

/// How far each line is taken.
#[derive(Clone, Copy, Debug, PartialEq, Eq, Structural)]
pub enum Stage {
    /// Split into lexemes.
    Lex,
    /// Parsed into an expression.
    Parse,
    /// Evaluated.
    Eval,
}

impl Default for Stage {
    fn default() -> (r: Self)
        ensures
            r == Stage::Eval,
    {
        Stage::Eval
    }
}

/// The stage called `name`, if any.
pub open spec fn stage_named(name: Seq<char>) -> Option<Stage> {
    if name == "lex"@ {
        Some(Stage::Lex)
    } else if name == "parse"@ {
        Some(Stage::Parse)
    } else if name == "eval"@ {
        Some(Stage::Eval)
    } else {
        None
    }
}

/// A name that is not a stage.
#[derive(Clone, Copy, Debug, PartialEq)]
pub struct UnknownStageError<'a>(pub &'a str);

impl<'a> UnknownStageError<'a> {
    /// What is printed for the error.
    pub fn message(&self) -> (r: String)
        ensures
            r@ == seq!['`'] + self.0@ + "` is not a recognized stage"@,
    {
        let mut r = to_string("`");
        push_str(&mut r, self.0);
        push_str(&mut r, "` is not a recognized stage");
        proof {
            reveal_strlit("`");
        }
        r
    }
}

impl Stage {
    /// The stage called `stage`.
    pub fn try_from<'a>(stage: &'a str) -> (r: Result<Stage, UnknownStageError<'a>>)
        ensures
            match stage_named(stage@) {
                Some(s) => r == Ok::<Stage, UnknownStageError<'a>>(s),
                None => r matches Err(e) && e.0@ == stage@,
            },
    {
        proof {
            reveal_strlit("lex");
            reveal_strlit("parse");
            reveal_strlit("eval");
        }
        if str_eq(stage, "lex") {
            Ok(Stage::Lex)
        } else if str_eq(stage, "parse") {
            Ok(Stage::Parse)
        } else if str_eq(stage, "eval") {
            Ok(Stage::Eval)
        } else {
            Err(UnknownStageError(stage))
        }
    }
}

/// Why the command line was refused.
#[derive(Clone, Debug)]
pub enum ConfigError<'a, E> {
    Arguments(ArgumentsError<'a, E>),
    /// A flag that takes a value has none.
    NoValue(Flag<'a>),
    UnknownFlag(Flag<'a>),
    UnknownStage(UnknownStageError<'a>),
}

impl<'a, E> ConfigError<'a, E> {
    /// What is printed for the error, `source` being the text of a source's
    /// error.
    pub fn message(&self, source: &str) -> (r: String)
        ensures
            match *self {
                ConfigError::Arguments(ArgumentsError::NonFlag(e)) => r@ == seq!['`'] + e.0@ + "` is not a flag"@,
                ConfigError::Arguments(ArgumentsError::Source(_)) => r@ == "failed to source argument: "@ + source@,
                ConfigError::NoValue(f) => r@ == "flag `"@ + crate::flag::flag_text(f@) + "` requires an argument"@,
                ConfigError::UnknownFlag(f) => r@ == "unknown flag `"@ + crate::flag::flag_text(f@) + seq!['`'],
                ConfigError::UnknownStage(e) => r@ == seq!['`'] + e.0@ + "` is not a recognized stage"@,
            },
    {
        match self {
            ConfigError::Arguments(e) => e.message(source),
            ConfigError::NoValue(f) => {
                let mut r = to_string("flag `");
                let t = f.text();
                push_str(&mut r, t.as_str());
                push_str(&mut r, "` requires an argument");
                r
            },
            ConfigError::UnknownFlag(f) => {
                let mut r = to_string("unknown flag `");
                let t = f.text();
                push_str(&mut r, t.as_str());
                push_str(&mut r, "`");
                proof {
                    reveal_strlit("`");
                }
                r
            },
            ConfigError::UnknownStage(e) => e.message(),
        }
    }
}

/// The mathematical value of a [ConfigError].
pub enum ConfigErrorModel<E> {
    Arguments(ArgumentsErrorModel<E>),
    NoValue(FlagModel),
    UnknownFlag(FlagModel),
    UnknownStage(Seq<char>),
}

impl<'a, E> View for ConfigError<'a, E> {
    type V = ConfigErrorModel<E>;

    open spec fn view(&self) -> ConfigErrorModel<E> {
        match self {
            ConfigError::Arguments(ArgumentsError::NonFlag(e)) => ConfigErrorModel::Arguments(
                ArgumentsErrorModel::NonFlag(e.0@),
            ),
            ConfigError::Arguments(ArgumentsError::Source(e)) => ConfigErrorModel::Arguments(
                ArgumentsErrorModel::Source(*e),
            ),
            ConfigError::NoValue(f) => ConfigErrorModel::NoValue(f@),
            ConfigError::UnknownFlag(f) => ConfigErrorModel::UnknownFlag(f@),
            ConfigError::UnknownStage(e) => ConfigErrorModel::UnknownStage(e.0@),
        }
    }
}

/// The settings of the interactive evaluator.
#[derive(Clone, Copy, Debug, PartialEq)]
pub struct Config {
    pub stage: Stage,
}

impl Default for Config {
    fn default() -> (r: Self)
        ensures
            r.stage == Stage::Eval,
    {
        Config { stage: Stage::Eval }
    }
}

/// Whether `f` is the stage flag, `-s` or `--stage`.
pub open spec fn is_stage_flag(f: FlagModel) -> bool {
    f == FlagModel::Short('s') || f == FlagModel::Long("stage"@)
}

/// The stage that the flags of `m` select, the current one being `stage`:
/// each `-s`/`--stage` sets it from its value; any other flag, a missing
/// value or an unknown stage is an error.
pub open spec fn repl_run<E>(m: ArgumentsModel<E>, stage: Stage) -> Result<Stage, ConfigErrorModel<E>>
    decreases m.src.len(), pending_size(m.arg),
{
    let (m1, f) = arguments_next(m);
    match f {
        None => Ok(stage),
        Some(Err(e)) => Err(ConfigErrorModel::Arguments(e)),
        Some(Ok(f)) => if is_stage_flag(f) {
            let (m2, v) = arguments_value(m1);
            match v {
                None => Err(ConfigErrorModel::NoValue(f)),
                Some(Err(e)) => Err(ConfigErrorModel::Arguments(ArgumentsErrorModel::Source(e))),
                Some(Ok(v)) => match stage_named(v) {
                    None => Err(ConfigErrorModel::UnknownStage(v)),
                    Some(s) => {
                        proof {
                            lemma_next_consumes(m);
                            lemma_value_consumes(m1);
                        }
                        repl_run(m2, s)
                    },
                },
            }
        } else {
            Err(ConfigErrorModel::UnknownFlag(f))
        },
    }
}

impl Config {
    /// The settings that the flags of `flags` give (see [repl_run]).
    pub fn new<'a, E>(flags: Arguments<'a, E>) -> (r: Result<Config, ConfigError<'a, E>>)
        ensures
            match repl_run(flags@, Stage::Eval) {
                Ok(s) => r matches Ok(c) && c.stage == s,
                Err(e) => r matches Err(err) && err@ == e,
            },
    {
        let ghost start = flags@;
        let mut args = flags;
        let mut config = Config::default();
        loop
            invariant
                repl_run(args@, config.stage) == repl_run(start, Stage::Eval),
                start == flags@,
            decreases args@.src.len(), pending_size(args@.arg),
        {
            let ghost m = args@;
            let next = args.next();
            proof {
                lemma_next_consumes(m);
                reveal_strlit("stage");
            }
            let flag = match next {
                None => {
                    return Ok(config);
                },
                Some(Err(e)) => {
                    return Err(ConfigError::Arguments(e));
                },
                Some(Ok(flag)) => flag,
            };
            let is_stage = match flag {
                Flag::Short(c) => c == 's',
                Flag::Long(l) => str_eq(l, "stage"),
            };
            assert(is_stage == is_stage_flag(flag@));
            if !is_stage {
                return Err(ConfigError::UnknownFlag(flag));
            }
            let ghost m1 = args@;
            proof {
                lemma_value_consumes(m1);
            }
            let value = match args.value() {
                None => {
                    return Err(ConfigError::NoValue(flag));
                },
                Some(Err(e)) => {
                    return Err(ConfigError::Arguments(ArgumentsError::Source(e)));
                },
                Some(Ok(v)) => v,
            };
            match Stage::try_from(value) {
                Ok(s) => {
                    config.stage = s;
                },
                Err(e) => {
                    return Err(ConfigError::UnknownStage(e));
                },
            }
        }
    }
}

} // verus!
