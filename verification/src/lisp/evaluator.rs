//! Evaluation of expressions of the configuration language.
//!
//! Names are looked up in a stack of frames, innermost first; applying a
//! function pushes a frame that its arguments and `let` bindings go into,
//! and pops it afterwards. Every application uses up one unit of a
//! budget, so that a program that would run forever stops with
//! [EvalError::OutOfFuel] instead; values, literals and names need none.

use vstd::prelude::*;
use crate::clisp::arity::Arity;
use crate::clisp::lexer::{Literal, LiteralModel};
use crate::config::{empty_config, ConfigModel, IntermediateConfig, UnknownKeyActionError};
use crate::config::lisp::{set_cfg, setting_of, InvalidColorError, InvalidColorModel};
use crate::lisp::ast::{expr_view, Expr, ExprModel, ExprTy};
use crate::text::{str_eq, to_string};

verus! {

/// The functions every environment starts with.
#[derive(Clone, Copy, Debug, PartialEq, Eq, Structural)]
pub enum Builtin {
    Add,
    Sub,
    Div,
    Mul,
    Rem,
    Concat,
    Cons,
    If,
    Lambda,
    Let,
    List,
    Nil,
    Not,
    Progn,
    SeqFilter,
    SeqFind,
    SeqFlatMap,
    SeqFold,
    SeqMap,
    SeqRev,
    Env,
    Path,
    PathChildren,
    PathExists,
    PathIsDir,
    PathIsFile,
    PathName,
    PathSeparator,
    TryCatch,
    SetCfg,
}

/// A function: built in, or made by `lambda` from parameter names and a
/// body.
#[derive(Debug)]
pub enum Function<'a> {
    Builtin(Builtin),
    Lambda(Vec<&'a str>, Vec<&'a Expr<'a>>),
}

/// A value of the language.
#[derive(Debug)]
pub enum Value<'a> {
    Unit,
    Bool(bool),
    Int(i32),
    String(String),
    Path(String),
    List(Vec<Value<'a>>),
    Fn(Function<'a>),
}

/// An argument handed to a function: an expression still to evaluate, or
/// a value.
#[derive(Debug)]
pub enum Term<'a> {
    Expr(&'a Expr<'a>),
    Value(Value<'a>),
}

/// The mathematical value of a [Function].
pub enum FnModel {
    Builtin(Builtin),
    Lambda(Seq<Seq<char>>, Seq<ExprModel>),
}

/// The mathematical value of a [Value].
pub enum ValueModel {
    Unit,
    Bool(bool),
    Int(i32),
    Str(Seq<char>),
    Path(Seq<char>),
    List(Seq<ValueModel>),
    Fn(FnModel),
}

/// The mathematical value of a [Term].
pub enum TermModel {
    Expr(ExprModel),
    Value(ValueModel),
}

/// The mathematical value of `v`.
pub open spec fn value_view(v: Value) -> ValueModel
    decreases v,
{
    match v {
        Value::Unit => ValueModel::Unit,
        Value::Bool(b) => ValueModel::Bool(b),
        Value::Int(i) => ValueModel::Int(i),
        Value::String(s) => ValueModel::Str(s@),
        Value::Path(s) => ValueModel::Path(s@),
        Value::List(items) => ValueModel::List(
            Seq::new(items@.len(), |i: int| if 0 <= i < items@.len() { value_view(items@[i]) } else { ValueModel::Unit }),
        ),
        Value::Fn(Function::Builtin(b)) => ValueModel::Fn(FnModel::Builtin(b)),
        Value::Fn(Function::Lambda(params, body)) => ValueModel::Fn(
            FnModel::Lambda(
                Seq::new(params@.len(), |i: int| params@[i]@),
                Seq::new(body@.len(), |i: int| expr_view(*body@[i])),
            ),
        ),
    }
}

/// The mathematical values of `vs`.
pub open spec fn values_view(vs: Seq<Value>) -> Seq<ValueModel> {
    Seq::new(vs.len(), |i: int| value_view(vs[i]))
}

/// The mathematical value of `t`.
pub open spec fn term_view(t: Term) -> TermModel {
    match t {
        Term::Expr(e) => TermModel::Expr(expr_view(*e)),
        Term::Value(v) => TermModel::Value(value_view(v)),
    }
}

/// The mathematical values of `ts`.
pub open spec fn terms_view(ts: Seq<Term>) -> Seq<TermModel> {
    Seq::new(ts.len(), |i: int| term_view(ts[i]))
}

/// The kinds of values that a function may insist on.
#[derive(Clone, Copy, Debug, PartialEq, Eq, Structural)]
pub enum ValueKind {
    Bool,
    Int,
    String,
    Path,
    List,
    Fn,
}

/// Why evaluation failed.
#[derive(Debug)]
pub enum EvalError<'a> {
    /// `()` was applied.
    EmptyApply,
    /// A `lambda` names this parameter twice.
    MultipleBindings(&'a str),
    /// A parameter or `let` binding is not a name but an expression of this
    /// kind.
    NonIdentListBinding(ExprTy),
    /// `let` was given no bindings.
    EmptyListBindings,
    /// The bindings of `let` are not a list of lists.
    NonListBindings,
    /// `lambda` or `let` was given no list of bindings.
    NoBindings,
    /// A body is empty.
    NoBody,
    /// Something other than a function was applied.
    NotAFunction,
    /// No value is bound to this name.
    NotFound(&'a str),
    /// An integer operation overflowed or divided by zero.
    Overflow,
    /// A value is not of the kind expected.
    WrongType(ValueKind),
    WrongArity(Arity),
    WrongBindingArity(Arity),
    /// The budget of evaluation steps ran out.
    OutOfFuel,
    /// A value given to `set-cfg!` is not a color.
    InvalidColor(InvalidColorError<'a>),
    /// `set-cfg!` knows no field of this name.
    UnknownCfgField(String),
    /// A key binding names an action that does not exist.
    UnknownKeyAction(UnknownKeyActionError<String>),
    /// A key's modifiers hold a letter that names no modifier.
    UnknownKeyModifier(char),
    /// A key binding names a key that does not exist.
    UnknownKeyCode(String),
    /// A list given to `set-cfg!` has the wrong length.
    WrongListArity(Arity),
    /// The environment variable of this name has no value to read.
    EnvVar(EnvVarError, String),
    /// The directory could not be read: why, and its path.
    ReadPath(String, String),
    /// Evaluation needs this answer from the world outside; evaluate again
    /// once it has been recorded with [Environment::answer].
    NeedsHost(HostQuery),
}

/// The mathematical value of an [EvalError].
pub enum ErrorModel {
    EmptyApply,
    MultipleBindings(Seq<char>),
    NonIdentListBinding(ExprTy),
    EmptyListBindings,
    NonListBindings,
    NoBindings,
    NoBody,
    NotAFunction,
    NotFound(Seq<char>),
    Overflow,
    WrongType(ValueKind),
    WrongArity(Arity),
    WrongBindingArity(Arity),
    OutOfFuel,
    InvalidColor(InvalidColorModel),
    UnknownCfgField(Seq<char>),
    UnknownKeyAction(Seq<char>),
    UnknownKeyModifier(char),
    UnknownKeyCode(Seq<char>),
    WrongListArity(Arity),
    EnvVar(EnvVarErrorModel, Seq<char>),
    ReadPath(Seq<char>, Seq<char>),
    NeedsHost(HostQueryModel),
}

impl<'a> View for EvalError<'a> {
    type V = ErrorModel;

    open spec fn view(&self) -> ErrorModel {
        match *self {
            EvalError::EmptyApply => ErrorModel::EmptyApply,
            EvalError::MultipleBindings(s) => ErrorModel::MultipleBindings(s@),
            EvalError::NonIdentListBinding(t) => ErrorModel::NonIdentListBinding(t),
            EvalError::EmptyListBindings => ErrorModel::EmptyListBindings,
            EvalError::NonListBindings => ErrorModel::NonListBindings,
            EvalError::NoBindings => ErrorModel::NoBindings,
            EvalError::NoBody => ErrorModel::NoBody,
            EvalError::NotAFunction => ErrorModel::NotAFunction,
            EvalError::NotFound(s) => ErrorModel::NotFound(s@),
            EvalError::Overflow => ErrorModel::Overflow,
            EvalError::WrongType(k) => ErrorModel::WrongType(k),
            EvalError::WrongArity(a) => ErrorModel::WrongArity(a),
            EvalError::WrongBindingArity(a) => ErrorModel::WrongBindingArity(a),
            EvalError::OutOfFuel => ErrorModel::OutOfFuel,
            EvalError::InvalidColor(e) => ErrorModel::InvalidColor(e@),
            EvalError::UnknownCfgField(s) => ErrorModel::UnknownCfgField(s@),
            EvalError::UnknownKeyAction(e) => ErrorModel::UnknownKeyAction(e.0@),
            EvalError::UnknownKeyModifier(c) => ErrorModel::UnknownKeyModifier(c),
            EvalError::UnknownKeyCode(s) => ErrorModel::UnknownKeyCode(s@),
            EvalError::WrongListArity(a) => ErrorModel::WrongListArity(a),
            EvalError::EnvVar(e, n) => ErrorModel::EnvVar(e@, n@),
            EvalError::ReadPath(e, p) => ErrorModel::ReadPath(e@, p@),
            EvalError::NeedsHost(q) => ErrorModel::NeedsHost(q@),
        }
    }
}

/// The mathematical value of an evaluation's outcome.
pub open spec fn outcome_view(r: Result<Value, EvalError>) -> Result<ValueModel, ErrorModel> {
    match r {
        Ok(v) => Ok(value_view(v)),
        Err(e) => Err(e@),
    }
}

/// A frame of bindings, the latest last.
pub type FrameModel = Seq<(Seq<char>, ValueModel)>;

/// A question about a path that evaluation may ask of the file system.
#[derive(Clone, Copy, Debug, PartialEq, Eq, Structural)]
pub enum PathQuestion {
    /// Whether something is there.
    Exists,
    /// Whether it is a directory.
    IsDir,
    /// Whether it is a file.
    IsFile,
}

/// What evaluation needs to know of the world outside, and has not been
/// told: the value of an environment variable, an answer about a path, or
/// the entries of a directory.
#[derive(Clone, Debug)]
pub enum HostQuery {
    EnvVar(String),
    PathFlag(PathQuestion, String),
    PathChildren(String),
}

/// The mathematical value of a [HostQuery].
pub enum HostQueryModel {
    EnvVar(Seq<char>),
    PathFlag(PathQuestion, Seq<char>),
    PathChildren(Seq<char>),
}

impl View for HostQuery {
    type V = HostQueryModel;

    open spec fn view(&self) -> HostQueryModel {
        match *self {
            HostQuery::EnvVar(n) => HostQueryModel::EnvVar(n@),
            HostQuery::PathFlag(q, p) => HostQueryModel::PathFlag(q, p@),
            HostQuery::PathChildren(p) => HostQueryModel::PathChildren(p@),
        }
    }
}

/// Why an environment variable has no value that can be read.
#[derive(Clone, Debug)]
pub enum EnvVarError {
    /// It is not set.
    NotPresent,
    /// Its value is not valid Unicode; the value, with the invalid parts
    /// replaced.
    NotUnicode(String),
}

/// The mathematical value of an [EnvVarError].
pub enum EnvVarErrorModel {
    NotPresent,
    NotUnicode(Seq<char>),
}

impl View for EnvVarError {
    type V = EnvVarErrorModel;

    open spec fn view(&self) -> EnvVarErrorModel {
        match *self {
            EnvVarError::NotPresent => EnvVarErrorModel::NotPresent,
            EnvVarError::NotUnicode(s) => EnvVarErrorModel::NotUnicode(s@),
        }
    }
}

/// An answer from the world outside to one question: the value of an
/// environment variable, an answer about a path, or the entries of a
/// directory (the reason, where it could not be read).
#[derive(Debug)]
pub enum HostFact {
    EnvVar(String, Result<String, EnvVarError>),
    PathFlag(PathQuestion, String, bool),
    PathChildren(String, Result<Vec<String>, String>),
}

/// The mathematical value of a [HostFact].
pub enum HostFactModel {
    EnvVar(Seq<char>, Result<Seq<char>, EnvVarErrorModel>),
    PathFlag(PathQuestion, Seq<char>, bool),
    PathChildren(Seq<char>, Result<Seq<Seq<char>>, Seq<char>>),
}

/// The mathematical value of a [HostFact].
pub open spec fn fact_view(f: HostFact) -> HostFactModel {
    match f {
        HostFact::EnvVar(n, r) => HostFactModel::EnvVar(
            n@,
            match r {
                Ok(v) => Ok(v@),
                Err(e) => Err(e@),
            },
        ),
        HostFact::PathFlag(q, p, b) => HostFactModel::PathFlag(q, p@, b),
        HostFact::PathChildren(p, r) => HostFactModel::PathChildren(
            p@,
            match r {
                Ok(names) => Ok(names@.map_values(|n: String| n@)),
                Err(e) => Err(e@),
            },
        ),
    }
}

/// The mathematical values of the facts `fs`.
pub open spec fn facts_view(fs: Seq<HostFact>) -> Seq<HostFactModel> {
    Seq::new(fs.len(), |i: int| fact_view(fs[i]))
}

/// The value of the environment variable `name` in the first fact about it
/// among `h`.
pub open spec fn env_var_fact(h: Seq<HostFactModel>, name: Seq<char>) -> Option<Result<Seq<char>, EnvVarErrorModel>>
    decreases h.len(),
{
    if h.len() == 0 {
        None
    } else {
        match h[0] {
            HostFactModel::EnvVar(n, r) => if n == name {
                Some(r)
            } else {
                env_var_fact(h.drop_first(), name)
            },
            _ => env_var_fact(h.drop_first(), name),
        }
    }
}

/// The answer to the question `q` about the path `p` in the first fact
/// about it among `h`.
pub open spec fn path_flag_fact(h: Seq<HostFactModel>, q: PathQuestion, p: Seq<char>) -> Option<bool>
    decreases h.len(),
{
    if h.len() == 0 {
        None
    } else {
        match h[0] {
            HostFactModel::PathFlag(q2, p2, b) => if q2 == q && p2 == p {
                Some(b)
            } else {
                path_flag_fact(h.drop_first(), q, p)
            },
            _ => path_flag_fact(h.drop_first(), q, p),
        }
    }
}

/// The entries of the directory `p` in the first fact about it among `h`.
pub open spec fn children_fact(h: Seq<HostFactModel>, p: Seq<char>) -> Option<Result<Seq<Seq<char>>, Seq<char>>>
    decreases h.len(),
{
    if h.len() == 0 {
        None
    } else {
        match h[0] {
            HostFactModel::PathChildren(p2, r) => if p2 == p {
                Some(r)
            } else {
                children_fact(h.drop_first(), p)
            },
            _ => children_fact(h.drop_first(), p),
        }
    }
}

/// The state of evaluation: frames of bindings, the innermost last; the
/// configuration that `set-cfg!` has set so far; what the world outside
/// has been found to say; and the platform's path separator.
pub struct EnvModel {
    pub frames: Seq<FrameModel>,
    pub config: ConfigModel,
    pub host: Seq<HostFactModel>,
    pub separator: Seq<char>,
}

/// The value bound to `name` in `frame`: the latest binding.
pub open spec fn frame_get(frame: FrameModel, name: Seq<char>) -> Option<ValueModel>
    decreases frame.len(),
{
    if frame.len() == 0 {
        None
    } else if frame.last().0 == name {
        Some(frame.last().1)
    } else {
        frame_get(frame.drop_last(), name)
    }
}

/// The value bound to `name` in `frames`: from the innermost frame that
/// binds it.
pub open spec fn frames_get(frames: Seq<FrameModel>, name: Seq<char>) -> Option<ValueModel>
    decreases frames.len(),
{
    if frames.len() == 0 {
        None
    } else {
        match frame_get(frames.last(), name) {
            Some(v) => Some(v),
            None => frames_get(frames.drop_last(), name),
        }
    }
}

/// The value bound to `name` in `env`.
pub open spec fn env_get(env: EnvModel, name: Seq<char>) -> Option<ValueModel> {
    frames_get(env.frames, name)
}

/// `env` with `name` bound to `v` in its innermost frame.
pub open spec fn env_insert(env: EnvModel, name: Seq<char>, v: ValueModel) -> EnvModel {
    if env.frames.len() == 0 {
        env
    } else {
        EnvModel { frames: env.frames.update(env.frames.len() - 1, env.frames.last().push((name, v))), ..env }
    }
}

/// `env` with a new, empty innermost frame.
pub open spec fn env_push(env: EnvModel) -> EnvModel {
    EnvModel { frames: env.frames.push(Seq::empty()), ..env }
}

/// `env` without its innermost frame, where it has more than one.
pub open spec fn env_pop(env: EnvModel) -> EnvModel {
    if env.frames.len() > 1 {
        EnvModel { frames: env.frames.drop_last(), ..env }
    } else {
        env
    }
}

/// `v` as a boolean.
pub open spec fn to_bool(v: ValueModel) -> Result<bool, ErrorModel> {
    match v {
        ValueModel::Bool(b) => Ok(b),
        _ => Err(ErrorModel::WrongType(ValueKind::Bool)),
    }
}

/// `v` as an integer.
pub open spec fn to_int(v: ValueModel) -> Result<i32, ErrorModel> {
    match v {
        ValueModel::Int(i) => Ok(i),
        _ => Err(ErrorModel::WrongType(ValueKind::Int)),
    }
}

/// `v` as text.
pub open spec fn to_str(v: ValueModel) -> Result<Seq<char>, ErrorModel> {
    match v {
        ValueModel::Str(s) => Ok(s),
        _ => Err(ErrorModel::WrongType(ValueKind::String)),
    }
}

/// `v` as a path.
pub open spec fn to_path(v: ValueModel) -> Result<Seq<char>, ErrorModel> {
    match v {
        ValueModel::Path(s) => Ok(s),
        _ => Err(ErrorModel::WrongType(ValueKind::Path)),
    }
}

/// `v` as a list.
pub open spec fn to_list(v: ValueModel) -> Result<Seq<ValueModel>, ErrorModel> {
    match v {
        ValueModel::List(l) => Ok(l),
        _ => Err(ErrorModel::WrongType(ValueKind::List)),
    }
}

/// `v` as a function.
pub open spec fn to_fn(v: ValueModel) -> Result<FnModel, ErrorModel> {
    match v {
        ValueModel::Fn(f) => Ok(f),
        _ => Err(ErrorModel::WrongType(ValueKind::Fn)),
    }
}

/// An integer operation of the language.
#[derive(Clone, Copy, Debug, PartialEq, Eq, Structural)]
pub enum MathOp {
    Add,
    Sub,
    Div,
    Mul,
    Rem,
}

/// `a op b`, where it neither overflows nor divides by zero.
pub open spec fn math(op: MathOp, a: i32, b: i32) -> Option<i32> {
    match op {
        MathOp::Add => i32::checked_add(a, b),
        MathOp::Sub => i32::checked_sub(a, b),
        MathOp::Div => i32::checked_div(a, b),
        MathOp::Mul => i32::checked_mul(a, b),
        MathOp::Rem => i32::checked_rem(a, b),
    }
}

/// The first error among `rs`, if any.
pub open spec fn first_err(rs: Seq<Result<ValueModel, ErrorModel>>) -> Option<ErrorModel>
    decreases rs.len(),
{
    if rs.len() == 0 {
        None
    } else {
        match rs[0] {
            Err(e) => Some(e),
            Ok(_) => first_err(rs.drop_first()),
        }
    }
}

/// The first name among `names` that an earlier one repeats.
pub open spec fn first_repeat(names: Seq<Seq<char>>) -> Option<Seq<char>>
    decreases names.len(),
{
    if names.len() == 0 {
        None
    } else {
        match first_repeat(names.drop_last()) {
            Some(n) => Some(n),
            None => if names.drop_last().contains(names.last()) {
                Some(names.last())
            } else {
                None
            },
        }
    }
}

/// The expressions `es`, as terms.
pub open spec fn expr_terms(es: Seq<ExprModel>) -> Seq<TermModel> {
    Seq::new(es.len(), |i: int| TermModel::Expr(es[i]))
}

/// The items of an application after the first, as terms.
pub open spec fn tail_terms(items: Seq<ExprModel>) -> Seq<TermModel> {
    Seq::new((items.len() - 1) as nat, |i: int| TermModel::Expr(items[i + 1]))
}

/// The outcome of a step of evaluation: the environment afterwards and
/// the value or error.
pub type Outcome = (EnvModel, Result<ValueModel, ErrorModel>);

/// Evaluates `t` in `env` with `fuel` levels of nested application left.
///
/// A value is itself; a literal stands for its value, a name for the value
/// bound to it, whatever the fuel. A list (with fuel left) applies the value of its first item, which must be a
/// function, to the rest of its items, in a new innermost frame that is
/// dropped afterwards.
pub open spec fn eval(env: EnvModel, t: TermModel, fuel: nat) -> Outcome
    decreases fuel, 0nat, 0nat,
{
    match t {
        TermModel::Value(v) => (env, Ok(v)),
        TermModel::Expr(ExprModel::Literal(LiteralModel::Bool(b))) => (env, Ok(ValueModel::Bool(b))),
        TermModel::Expr(ExprModel::Literal(LiteralModel::Int(i))) => (env, Ok(ValueModel::Int(i))),
        TermModel::Expr(ExprModel::Literal(LiteralModel::String(s))) => (env, Ok(ValueModel::Str(s))),
        TermModel::Expr(ExprModel::Literal(LiteralModel::Ident(id))) => match env_get(env, id) {
            Some(v) => (env, Ok(v)),
            None => (env, Err(ErrorModel::NotFound(id))),
        },
        TermModel::Expr(ExprModel::List(items)) => if items.len() == 0 {
            (env, Err(ErrorModel::EmptyApply))
        } else if fuel == 0 {
            (env, Err(ErrorModel::OutOfFuel))
        } else {
            let (env1, head) = eval(env, TermModel::Expr(items[0]), (fuel - 1) as nat);
            match head {
                Err(e) => (env1, Err(e)),
                Ok(ValueModel::Fn(f)) => {
                    let (env2, r) = apply(env_push(env1), f, tail_terms(items), (fuel - 1) as nat);
                    (env_pop(env2), r)
                },
                Ok(_) => (env1, Err(ErrorModel::NotAFunction)),
            }
        },
    }
}

/// Evaluates `t` in `env` as [eval] does, except that a function applied
/// at the top is applied in `env` as it is, with no frame of its own.
pub open spec fn eval_tail(env: EnvModel, t: TermModel, fuel: nat) -> Outcome {
    match t {
        TermModel::Expr(ExprModel::List(items)) => if items.len() == 0 {
            (env, Err(ErrorModel::EmptyApply))
        } else if fuel == 0 {
            (env, Err(ErrorModel::OutOfFuel))
        } else {
            let (env1, head) = eval(env, TermModel::Expr(items[0]), (fuel - 1) as nat);
            match head {
                Err(e) => (env1, Err(e)),
                Ok(ValueModel::Fn(f)) => apply(env1, f, tail_terms(items), (fuel - 1) as nat),
                Ok(_) => (env1, Err(ErrorModel::NotAFunction)),
            }
        },
        _ => eval(env, t, fuel),
    }
}

/// Evaluates `body` from item `i` on, in order, stopping at the first
/// error; the value is that of the last item (`last` where none is left).
pub open spec fn progn_from(env: EnvModel, body: Seq<TermModel>, i: int, last: ValueModel, fuel: nat) -> Outcome
    decreases fuel, 1nat, (if i < body.len() { body.len() - i } else { 0 }),
{
    if i < 0 || i >= body.len() {
        (env, Ok(last))
    } else {
        let (env1, r) = eval(env, body[i], fuel);
        match r {
            Err(e) => (env1, Err(e)),
            Ok(v) => progn_from(env1, body, i + 1, v, fuel),
        }
    }
}

/// Evaluates the arguments `args` from `i` on and binds them, in the
/// innermost frame, to the parameters `params` at the same places. Where
/// there are more arguments than parameters, or fewer, that is an error
/// once the pairs before have been bound.
pub open spec fn bind_from(env: EnvModel, args: Seq<TermModel>, params: Seq<Seq<char>>, i: int, fuel: nat) -> (
    EnvModel,
    Result<(), ErrorModel>,
)
    decreases fuel, 1nat, (if i < args.len() + params.len() { args.len() + params.len() - i } else { 0 }),
{
    if i < 0 || (i >= args.len() && i >= params.len()) {
        (env, Ok(()))
    } else if i >= args.len() || i >= params.len() {
        (env, Err(ErrorModel::WrongArity(Arity::Static(params.len() as usize))))
    } else {
        let (env1, r) = eval(env, args[i], fuel);
        match r {
            Err(e) => (env1, Err(e)),
            Ok(v) => bind_from(env_insert(env1, params[i], v), args, params, i + 1, fuel),
        }
    }
}

/// Evaluates `args` from `i` on, in order, keeping each outcome, up to
/// (not including) `n`.
pub open spec fn eval_each(env: EnvModel, args: Seq<TermModel>, i: int, n: int, fuel: nat) -> (
    EnvModel,
    Seq<Result<ValueModel, ErrorModel>>,
)
    decreases fuel, 1nat, (if i < n { n - i } else { 0 }),
{
    if i < 0 || i >= n || i >= args.len() {
        (env, Seq::empty())
    } else {
        let (env1, r) = eval(env, args[i], fuel);
        let (env2, rest) = eval_each(env1, args, i + 1, n, fuel);
        (env2, seq![r] + rest)
    }
}

/// Folds `op` over the values of `args` from `i` on, from `acc`; each must
/// be an integer.
pub open spec fn math_from(env: EnvModel, op: MathOp, args: Seq<TermModel>, i: int, acc: i32, fuel: nat) -> Outcome
    decreases fuel, 1nat, (if i < args.len() { args.len() - i } else { 0 }),
{
    if i < 0 || i >= args.len() {
        (env, Ok(ValueModel::Int(acc)))
    } else {
        let (env1, r) = eval(env, args[i], fuel);
        match r {
            Err(e) => (env1, Err(e)),
            Ok(v) => match to_int(v) {
                Err(e) => (env1, Err(e)),
                Ok(x) => match math(op, acc, x) {
                    None => (env1, Err(ErrorModel::Overflow)),
                    Some(y) => math_from(env1, op, args, i + 1, y, fuel),
                },
            },
        }
    }
}

/// Appends the texts of `args` from `i` on to `acc`.
pub open spec fn concat_from(env: EnvModel, args: Seq<TermModel>, i: int, acc: Seq<char>, fuel: nat) -> Outcome
    decreases fuel, 1nat, (if i < args.len() { args.len() - i } else { 0 }),
{
    if i < 0 || i >= args.len() {
        (env, Ok(ValueModel::Str(acc)))
    } else {
        let (env1, r) = eval(env, args[i], fuel);
        match r {
            Err(e) => (env1, Err(e)),
            Ok(v) => match to_str(v) {
                Err(e) => (env1, Err(e)),
                Ok(t) => concat_from(env1, args, i + 1, acc + t, fuel),
            },
        }
    }
}

/// Evaluates `args` from the last down to item `k - 1`, putting each value
/// in front of `acc`.
pub open spec fn list_from(env: EnvModel, args: Seq<TermModel>, k: int, acc: Seq<ValueModel>, fuel: nat) -> Outcome
    decreases fuel, 1nat, (if k > 0 { k } else { 0 }),
{
    if k <= 0 || k > args.len() {
        (env, Ok(ValueModel::List(acc)))
    } else {
        let (env1, r) = eval(env, args[k - 1], fuel);
        match r {
            Err(e) => (env1, Err(e)),
            Ok(v) => list_from(env1, args, k - 1, seq![v] + acc, fuel),
        }
    }
}

/// Binds the `let` bindings `bs` from `i` on, in order: each must be a
/// list of a name and an expression, whose value is bound to the name.
pub open spec fn let_from(env: EnvModel, bs: Seq<ExprModel>, i: int, fuel: nat) -> (EnvModel, Result<(), ErrorModel>)
    decreases fuel, 1nat, (if i < bs.len() { bs.len() - i } else { 0 }),
{
    if i < 0 || i >= bs.len() {
        (env, Ok(()))
    } else {
        match bs[i] {
            ExprModel::List(pair) => if pair.len() != 2 {
                (env, Err(ErrorModel::WrongBindingArity(Arity::Static(2))))
            } else {
                match pair[0] {
                    ExprModel::Literal(LiteralModel::Ident(name)) => {
                        let (env1, r) = eval(env, TermModel::Expr(pair[1]), fuel);
                        match r {
                            Err(e) => (env1, Err(e)),
                            Ok(v) => let_from(env_insert(env1, name, v), bs, i + 1, fuel),
                        }
                    },
                    _ => (env, Err(ErrorModel::NonIdentListBinding(expr_ty(pair[0])))),
                }
            },
            _ => (env, Err(ErrorModel::NonListBindings)),
        }
    }
}

/// Calls `f` on each item of `items` from `i` on, in order, collecting the
/// results.
pub open spec fn map_from(env: EnvModel, f: FnModel, items: Seq<ValueModel>, i: int, fuel: nat) -> (
    EnvModel,
    Result<Seq<ValueModel>, ErrorModel>,
)
    decreases fuel, 1nat, (if i < items.len() { items.len() - i } else { 0 }),
{
    if i < 0 || i >= items.len() {
        (env, Ok(Seq::empty()))
    } else if fuel == 0 {
        (env, Err(ErrorModel::OutOfFuel))
    } else {
        let (env1, r) = apply(env, f, seq![TermModel::Value(items[i])], (fuel - 1) as nat);
        match r {
            Err(e) => (env1, Err(e)),
            Ok(v) => {
                let (env2, rest) = map_from(env1, f, items, i + 1, fuel);
                match rest {
                    Err(e) => (env2, Err(e)),
                    Ok(vs) => (env2, Ok(seq![v] + vs)),
                }
            },
        }
    }
}

/// Finds the first item of `items` from `i` on that the predicate `f`
/// holds of.
pub open spec fn find_from(env: EnvModel, f: FnModel, items: Seq<ValueModel>, i: int, fuel: nat) -> Outcome
    decreases fuel, 1nat, (if i < items.len() { items.len() - i } else { 0 }),
{
    if i < 0 || i >= items.len() {
        (env, Ok(ValueModel::Unit))
    } else if fuel == 0 {
        (env, Err(ErrorModel::OutOfFuel))
    } else {
        let (env1, r) = apply(env, f, seq![TermModel::Value(items[i])], (fuel - 1) as nat);
        match r {
            Err(e) => (env1, Err(e)),
            Ok(v) => match to_bool(v) {
                Err(e) => (env1, Err(e)),
                Ok(true) => (env1, Ok(items[i])),
                Ok(false) => find_from(env1, f, items, i + 1, fuel),
            },
        }
    }
}

/// Folds `f` over `items` from `i` on, from `acc`.
pub open spec fn fold_from(env: EnvModel, f: FnModel, items: Seq<ValueModel>, i: int, acc: ValueModel, fuel: nat) -> Outcome
    decreases fuel, 1nat, (if i < items.len() { items.len() - i } else { 0 }),
{
    if i < 0 || i >= items.len() {
        (env, Ok(acc))
    } else if fuel == 0 {
        (env, Err(ErrorModel::OutOfFuel))
    } else {
        let (env1, r) = apply(env, f, seq![TermModel::Value(acc), TermModel::Value(items[i])], (fuel - 1) as nat);
        match r {
            Err(e) => (env1, Err(e)),
            Ok(v) => fold_from(env1, f, items, i + 1, v, fuel),
        }
    }
}

/// Keeps the items of `items` from `i` on that the predicate `f` holds of;
/// each answer must be a boolean.
pub open spec fn filter_from(env: EnvModel, f: FnModel, items: Seq<ValueModel>, i: int, fuel: nat) -> (
    EnvModel,
    Result<Seq<ValueModel>, ErrorModel>,
)
    decreases fuel, 1nat, (if i < items.len() { items.len() - i } else { 0 }),
{
    if i < 0 || i >= items.len() {
        (env, Ok(Seq::empty()))
    } else if fuel == 0 {
        (env, Err(ErrorModel::OutOfFuel))
    } else {
        let (env1, r) = apply(env, f, seq![TermModel::Value(items[i])], (fuel - 1) as nat);
        match r {
            Err(e) => (env1, Err(e)),
            Ok(v) => match to_bool(v) {
                Err(e) => (env1, Err(e)),
                Ok(keep) => {
                    let (env2, rest) = filter_from(env1, f, items, i + 1, fuel);
                    match rest {
                        Err(e) => (env2, Err(e)),
                        Ok(vs) => (env2, Ok(if keep { seq![items[i]] + vs } else { vs })),
                    }
                },
            },
        }
    }
}

/// Concatenates the lists that `f` maps the items of `items` from `i` on
/// to; each must be a list.
pub open spec fn flat_map_from(env: EnvModel, f: FnModel, items: Seq<ValueModel>, i: int, fuel: nat) -> (
    EnvModel,
    Result<Seq<ValueModel>, ErrorModel>,
)
    decreases fuel, 1nat, (if i < items.len() { items.len() - i } else { 0 }),
{
    if i < 0 || i >= items.len() {
        (env, Ok(Seq::empty()))
    } else if fuel == 0 {
        (env, Err(ErrorModel::OutOfFuel))
    } else {
        let (env1, r) = apply(env, f, seq![TermModel::Value(items[i])], (fuel - 1) as nat);
        match r {
            Err(e) => (env1, Err(e)),
            Ok(v) => match to_list(v) {
                Err(e) => (env1, Err(e)),
                Ok(l) => {
                    let (env2, rest) = flat_map_from(env1, f, items, i + 1, fuel);
                    match rest {
                        Err(e) => (env2, Err(e)),
                        Ok(vs) => (env2, Ok(l + vs)),
                    }
                },
            },
        }
    }
}

/// The outcome of a function that makes a list of the values in `r`.
pub open spec fn list_outcome(r: (EnvModel, Result<Seq<ValueModel>, ErrorModel>)) -> Outcome {
    (r.0, match r.1 {
        Ok(vs) => Ok(ValueModel::List(vs)),
        Err(e) => Err(e),
    })
}

/// `pre` put in front of the list in `r`, where `r` holds one.
pub open spec fn prefixed(pre: Seq<ValueModel>, r: (EnvModel, Result<Seq<ValueModel>, ErrorModel>)) -> (
    EnvModel,
    Result<Seq<ValueModel>, ErrorModel>,
) {
    (r.0, match r.1 {
        Ok(vs) => Ok(pre + vs),
        Err(e) => Err(e),
    })
}

/// Paths with the names `names`.
pub open spec fn paths_of(names: Seq<Seq<char>>) -> Seq<ValueModel> {
    names.map_values(|n: Seq<char>| ValueModel::Path(n))
}

/// The question that the path predicate `b` asks.
pub open spec fn question_of(b: Builtin) -> PathQuestion {
    if b == Builtin::PathIsDir {
        PathQuestion::IsDir
    } else if b == Builtin::PathIsFile {
        PathQuestion::IsFile
    } else {
        PathQuestion::Exists
    }
}

/// Whether the answer to `q` is yes for each path among `args` from `i`
/// on: each is evaluated in turn, and the first `false` answer stops.
pub open spec fn path_flags_from(env: EnvModel, q: PathQuestion, args: Seq<TermModel>, i: int, fuel: nat) -> Outcome
    decreases fuel, 1nat, (if i < args.len() { args.len() - i } else { 0 }),
{
    if i < 0 || i >= args.len() {
        (env, Ok(ValueModel::Bool(true)))
    } else {
        let (env1, r) = eval(env, args[i], fuel);
        match r {
            Err(e) => (env1, Err(e)),
            Ok(v) => match to_path(v) {
                Err(e) => (env1, Err(e)),
                Ok(p) => match path_flag_fact(env1.host, q, p) {
                    None => (env1, Err(ErrorModel::NeedsHost(HostQueryModel::PathFlag(q, p)))),
                    Some(false) => (env1, Ok(ValueModel::Bool(false))),
                    Some(true) => path_flags_from(env1, q, args, i + 1, fuel),
                },
            },
        }
    }
}

/// Whether `e` is a name.
pub open spec fn is_name(e: ExprModel) -> bool {
    e matches ExprModel::Literal(LiteralModel::Ident(_))
}

/// The kind of the expression `e`.
pub open spec fn expr_ty(e: ExprModel) -> ExprTy {
    match e {
        ExprModel::List(_) => ExprTy::List,
        ExprModel::Literal(_) => ExprTy::Literal,
    }
}

/// Whether `i` is the first place in `bs` that holds no name.
pub open spec fn first_non_name(bs: Seq<ExprModel>, i: int) -> bool {
    &&& 0 <= i < bs.len()
    &&& !is_name(bs[i])
    &&& forall|j: int| 0 <= j < i ==> is_name(#[trigger] bs[j])
}

/// The names of the parameters `bs` of a `lambda`: each must be a name;
/// the first that is not is refused with its kind.
pub open spec fn params_of(bs: Seq<ExprModel>) -> Result<Seq<Seq<char>>, ErrorModel> {
    if exists|i: int| 0 <= i < bs.len() && !is_name(#[trigger] bs[i]) {
        Err(ErrorModel::NonIdentListBinding(expr_ty(bs[choose|i: int| first_non_name(bs, i)])))
    } else {
        Ok(Seq::new(bs.len(), |i: int| bs[i]->Literal_0->Ident_0))
    }
}

/// The expressions of `ts`, where all are expressions.
pub open spec fn body_exprs(ts: Seq<TermModel>) -> Option<Seq<ExprModel>> {
    if forall|i: int| 0 <= i < ts.len() ==> ts[i] is Expr {
        Some(Seq::new(ts.len(), |i: int| ts[i]->Expr_0))
    } else {
        None
    }
}

/// What `lambda` makes of `args`: a function with the names of the first
/// argument's list as parameters, none of them twice, and the rest of the
/// arguments as its body, which must not be empty. (The body is made only
/// of expressions when the parameter list is one; a value there would be
/// refused as a missing body.)
pub open spec fn lambda_of(args: Seq<TermModel>) -> Result<ValueModel, ErrorModel> {
    if args.len() == 0 {
        Err(ErrorModel::WrongArity(Arity::RangeFrom(2)))
    } else {
        match args[0] {
            TermModel::Expr(ExprModel::List(bs)) => match params_of(bs) {
                Err(e) => Err(e),
                Ok(names) => match first_repeat(names) {
                    Some(n) => Err(ErrorModel::MultipleBindings(n)),
                    None => if args.len() < 2 {
                        Err(ErrorModel::NoBody)
                    } else {
                        match body_exprs(args.drop_first()) {
                            None => Err(ErrorModel::NoBody),
                            Some(body) => Ok(ValueModel::Fn(FnModel::Lambda(names, body))),
                        }
                    },
                },
            },
            _ => Err(ErrorModel::NoBindings),
        }
    }
}

/// The integer operation of a built-in arithmetic function.
pub open spec fn op_of(b: Builtin) -> MathOp {
    match b {
        Builtin::Add => MathOp::Add,
        Builtin::Sub => MathOp::Sub,
        Builtin::Div => MathOp::Div,
        Builtin::Mul => MathOp::Mul,
        _ => MathOp::Rem,
    }
}

/// Whether `b` is one of the sequence functions, which take a function and
/// a list (and, for folding, a start).
pub open spec fn is_seq_fn(b: Builtin) -> bool {
    b == Builtin::SeqFilter || b == Builtin::SeqFind || b == Builtin::SeqFlatMap || b == Builtin::SeqFold
        || b == Builtin::SeqMap
}

/// Calls the built-in function `b` on `args`.
///
/// Arithmetic folds its operation over two or more integers; `concat` joins
/// one or more texts; `cons` puts a value in front of a list; `if` takes a
/// condition, a branch and an optional other branch; `lambda` makes a
/// function; `let` binds names, then evaluates a body; `list` makes a list
/// of its values, evaluated from the last; `nil` is the empty list; `not`
/// negates a boolean; `progn` evaluates a body; the sequence functions map,
/// filter, search, flat-map and fold a list with a function; `seq-rev`
/// reverses a list; `path` turns text into a path; `path-name` gives the
/// last part of a path's name; `path-separator` is the platform's
/// separator; `env` reads an environment variable, and `path-children`,
/// `path-exists`, `path-is-dir` and `path-is-file` ask the file system,
/// through the answers recorded in the environment (see [HostFact]);
/// `try-catch`
/// calls its first function, and its second where the first fails;
/// `set-cfg!` sets a field of the configuration (see [setting_of]).
pub open spec fn builtin(env: EnvModel, b: Builtin, args: Seq<TermModel>, fuel: nat) -> Outcome
    decreases fuel, 2nat, 0nat,
{
    match b {
        Builtin::Add | Builtin::Sub | Builtin::Div | Builtin::Mul | Builtin::Rem => if args.len() == 0 {
            (env, Err(ErrorModel::WrongArity(Arity::RangeFrom(2))))
        } else {
            let (env1, r) = eval(env, args[0], fuel);
            match r {
                Err(e) => (env1, Err(e)),
                Ok(v) => match to_int(v) {
                    Err(e) => (env1, Err(e)),
                    Ok(x) => if args.len() < 2 {
                        (env1, Err(ErrorModel::WrongArity(Arity::RangeFrom(2))))
                    } else {
                        math_from(env1, op_of(b), args, 1, x, fuel)
                    },
                },
            }
        },
        Builtin::Concat => if args.len() == 0 {
            (env, Err(ErrorModel::WrongArity(Arity::RangeFrom(2))))
        } else {
            let (env1, r) = eval(env, args[0], fuel);
            match r {
                Err(e) => (env1, Err(e)),
                Ok(v) => match to_str(v) {
                    Err(e) => (env1, Err(e)),
                    Ok(t) => concat_from(env1, args, 1, t, fuel),
                },
            }
        },
        Builtin::Cons => {
            let n = if args.len() < 3 { args.len() as int } else { 3 };
            let (env1, rs) = eval_each(env, args, 0, n, fuel);
            if args.len() != 2 {
                (env1, Err(ErrorModel::WrongArity(Arity::Static(2))))
            } else {
                match first_err(rs) {
                    Some(e) => (env1, Err(e)),
                    None => match to_list(rs[1]->Ok_0) {
                        Err(e) => (env1, Err(e)),
                        Ok(l) => (env1, Ok(ValueModel::List(seq![rs[0]->Ok_0] + l))),
                    },
                }
            }
        },
        Builtin::If => if args.len() < 2 || args.len() > 3 {
            (env, Err(ErrorModel::WrongArity(Arity::Range(2..3))))
        } else {
            let (env1, r) = eval(env, args[0], fuel);
            match r {
                Err(e) => (env1, Err(e)),
                Ok(v) => match to_bool(v) {
                    Err(e) => (env1, Err(e)),
                    Ok(true) => eval(env1, args[1], fuel),
                    Ok(false) => if args.len() == 3 {
                        eval(env1, args[2], fuel)
                    } else {
                        (env1, Ok(ValueModel::Unit))
                    },
                },
            }
        },
        Builtin::Lambda => (env, lambda_of(args)),
        Builtin::Let => if args.len() == 0 {
            (env, Err(ErrorModel::NoBindings))
        } else {
            match args[0] {
                TermModel::Expr(ExprModel::List(bs)) => if bs.len() == 0 {
                    (env, Err(ErrorModel::EmptyListBindings))
                } else {
                    let (env1, r) = let_from(env, bs, 0, fuel);
                    match r {
                        Err(e) => (env1, Err(e)),
                        Ok(_) => if args.len() < 2 {
                            (env1, Err(ErrorModel::NoBody))
                        } else {
                            progn_from(env1, args, 1, ValueModel::Unit, fuel)
                        },
                    }
                },
                _ => (env, Err(ErrorModel::NonListBindings)),
            }
        },
        Builtin::List => list_from(env, args, args.len() as int, Seq::empty(), fuel),
        Builtin::Nil => (env, Ok(ValueModel::List(Seq::empty()))),
        Builtin::Not => if args.len() != 1 {
            (env, Err(ErrorModel::WrongArity(Arity::Static(1))))
        } else {
            let (env1, r) = eval(env, args[0], fuel);
            match r {
                Err(e) => (env1, Err(e)),
                Ok(v) => match to_bool(v) {
                    Err(e) => (env1, Err(e)),
                    Ok(x) => (env1, Ok(ValueModel::Bool(!x))),
                },
            }
        },
        Builtin::Progn => if args.len() == 0 {
            (env, Err(ErrorModel::NoBody))
        } else {
            progn_from(env, args, 0, ValueModel::Unit, fuel)
        },
        Builtin::SeqRev => if args.len() != 1 {
            (env, Err(ErrorModel::WrongArity(Arity::Static(1))))
        } else {
            let (env1, r) = eval(env, args[0], fuel);
            match r {
                Err(e) => (env1, Err(e)),
                Ok(v) => match to_list(v) {
                    Err(e) => (env1, Err(e)),
                    Ok(l) => (env1, Ok(ValueModel::List(l.reverse()))),
                },
            }
        },
        Builtin::Env => {
            let n = if args.len() < 2 { args.len() as int } else { 2 };
            let (env1, rs) = eval_each(env, args, 0, n, fuel);
            if args.len() != 1 {
                (env1, Err(ErrorModel::WrongArity(Arity::Static(1))))
            } else {
                match rs[0] {
                    Err(e) => (env1, Err(e)),
                    Ok(v) => match to_str(v) {
                        Err(e) => (env1, Err(e)),
                        Ok(name) => match env_var_fact(env1.host, name) {
                            None => (env1, Err(ErrorModel::NeedsHost(HostQueryModel::EnvVar(name)))),
                            Some(Ok(value)) => (env1, Ok(ValueModel::Str(value))),
                            Some(Err(e)) => (env1, Err(ErrorModel::EnvVar(e, name))),
                        },
                    },
                }
            }
        },
        Builtin::PathChildren => {
            let n = if args.len() < 2 { args.len() as int } else { 2 };
            let (env1, rs) = eval_each(env, args, 0, n, fuel);
            if args.len() != 1 {
                (env1, Err(ErrorModel::WrongArity(Arity::Static(1))))
            } else {
                match rs[0] {
                    Err(e) => (env1, Err(e)),
                    Ok(v) => match to_path(v) {
                        Err(e) => (env1, Err(e)),
                        Ok(p) => match children_fact(env1.host, p) {
                            None => (env1, Err(ErrorModel::NeedsHost(HostQueryModel::PathChildren(p)))),
                            Some(Ok(names)) => (env1, Ok(ValueModel::List(paths_of(names)))),
                            Some(Err(e)) => (env1, Err(ErrorModel::ReadPath(e, p))),
                        },
                    },
                }
            }
        },
        Builtin::PathExists | Builtin::PathIsDir | Builtin::PathIsFile => if args.len() == 0 {
            (env, Err(ErrorModel::WrongArity(Arity::RangeFrom(1))))
        } else {
            path_flags_from(env, question_of(b), args, 0, fuel)
        },
        Builtin::PathSeparator => (env, Ok(ValueModel::Str(env.separator))),
        Builtin::Path => {
            let n = if args.len() < 2 { args.len() as int } else { 2 };
            let (env1, rs) = eval_each(env, args, 0, n, fuel);
            if args.len() != 1 {
                (env1, Err(ErrorModel::WrongArity(Arity::Static(1))))
            } else {
                match rs[0] {
                    Err(e) => (env1, Err(e)),
                    Ok(v) => match to_str(v) {
                        Err(e) => (env1, Err(e)),
                        Ok(t) => (env1, Ok(ValueModel::Path(t))),
                    },
                }
            }
        },
        Builtin::PathName => {
            let n = if args.len() < 2 { args.len() as int } else { 2 };
            let (env1, rs) = eval_each(env, args, 0, n, fuel);
            if args.len() != 1 {
                (env1, Err(ErrorModel::WrongArity(Arity::Static(1))))
            } else {
                match rs[0] {
                    Err(e) => (env1, Err(e)),
                    Ok(v) => match to_path(v) {
                        Err(e) => (env1, Err(e)),
                        Ok(p) => (env1, Ok(ValueModel::Str(file_name_of(p)))),
                    },
                }
            }
        },
        Builtin::TryCatch => if args.len() != 2 {
            (env, Err(ErrorModel::WrongArity(Arity::Static(2))))
        } else {
            let (env1, rs) = eval_each(env, args, 0, 2, fuel);
            let c0 = match rs[0] { Ok(v) => to_fn(v), Err(e) => Err(e) };
            let c1 = match rs[1] { Ok(v) => to_fn(v), Err(e) => Err(e) };
            match (c0, c1) {
                (Err(e), _) => (env1, Err(e)),
                (_, Err(e)) => (env1, Err(e)),
                (Ok(success), Ok(failure)) => if fuel == 0 {
                    (env1, Err(ErrorModel::OutOfFuel))
                } else {
                    let (env2, r) = apply(env1, success, Seq::empty(), (fuel - 1) as nat);
                    match r {
                        Ok(v) => (env2, Ok(v)),
                        Err(_) => apply(env2, failure, Seq::empty(), (fuel - 1) as nat),
                    }
                },
            }
        },
        Builtin::SetCfg => if args.len() != 2 {
            (env, Err(ErrorModel::WrongArity(Arity::Static(2))))
        } else {
            let (env1, r) = eval(env, args[0], fuel);
            match r {
                Err(e) => (env1, Err(e)),
                Ok(fv) => match to_str(fv) {
                    Err(e) => (env1, Err(e)),
                    Ok(field) => {
                        let (env2, r2) = eval(env1, args[1], fuel);
                        match r2 {
                            Err(e) => (env2, Err(e)),
                            Ok(v) => match setting_of(env2.config, field, v) {
                                Err(e) => (env2, Err(e)),
                                Ok(c) => (EnvModel { config: c, ..env2 }, Ok(ValueModel::Unit)),
                            },
                        }
                    },
                },
            }
        },
        _ => {
            let arity = if b == Builtin::SeqFold { Arity::Static(3) } else { Arity::Static(2) };
            let k: int = if b == Builtin::SeqFold { 3 } else { 2 };
            if args.len() == 0 {
                (env, Err(ErrorModel::WrongArity(arity)))
            } else {
                let (env1, r) = eval(env, args[0], fuel);
                match r {
                    Err(e) => (env1, Err(e)),
                    Ok(fv) => match to_fn(fv) {
                        Err(e) => (env1, Err(e)),
                        Ok(f) => if args.len() < 2 {
                            (env1, Err(ErrorModel::WrongArity(arity)))
                        } else {
                            let (env2, r2) = eval(env1, args[1], fuel);
                            match r2 {
                                Err(e) => (env2, Err(e)),
                                Ok(lv) => match to_list(lv) {
                                    Err(e) => (env2, Err(e)),
                                    Ok(items) => if b == Builtin::SeqFold {
                                        if args.len() < 3 {
                                            (env2, Err(ErrorModel::WrongArity(arity)))
                                        } else {
                                            let (env3, r3) = eval(env2, args[2], fuel);
                                            match r3 {
                                                Err(e) => (env3, Err(e)),
                                                Ok(acc) => if args.len() > 3 {
                                                    (env3, Err(ErrorModel::WrongArity(arity)))
                                                } else {
                                                    fold_from(env3, f, items, 0, acc, fuel)
                                                },
                                            }
                                        }
                                    } else if args.len() > k {
                                        (env2, Err(ErrorModel::WrongArity(arity)))
                                    } else if b == Builtin::SeqFilter {
                                        list_outcome(filter_from(env2, f, items, 0, fuel))
                                    } else if b == Builtin::SeqFind {
                                        find_from(env2, f, items, 0, fuel)
                                    } else if b == Builtin::SeqFlatMap {
                                        list_outcome(flat_map_from(env2, f, items, 0, fuel))
                                    } else {
                                        list_outcome(map_from(env2, f, items, 0, fuel))
                                    },
                                },
                            }
                        },
                    },
                }
            }
        },
    }
}

/// Calls `f` on `args` in the environment `env`: a built-in function by
/// [builtin]; a `lambda` function binds its parameters to the values of the
/// arguments in the innermost frame, then evaluates its body.
pub open spec fn apply(env: EnvModel, f: FnModel, args: Seq<TermModel>, fuel: nat) -> Outcome
    decreases fuel, 3nat, 0nat,
{
    match f {
        FnModel::Builtin(b) => builtin(env, b, args, fuel),
        FnModel::Lambda(params, body) => {
            let (env1, r) = bind_from(env, args, params, 0, fuel);
            match r {
                Err(e) => (env1, Err(e)),
                Ok(_) => if body.len() == 0 {
                    (env1, Err(ErrorModel::NoBody))
                } else {
                    progn_from(env1, expr_terms(body), 0, ValueModel::Unit, fuel)
                },
            }
        },
    }
}

/// The mathematical value of a function.
pub open spec fn fn_view(f: Function) -> FnModel {
    match value_view(Value::Fn(f)) {
        ValueModel::Fn(m) => m,
        _ => FnModel::Builtin(Builtin::Nil),
    }
}

/// The mathematical value of a frame.
pub open spec fn frame_view(frame: Seq<(&str, Value)>) -> FrameModel {
    Seq::new(frame.len(), |j: int| (frame[j].0@, value_view(frame[j].1)))
}

/// A copy of `v`.
pub fn clone_value<'a>(v: &Value<'a>) -> (r: Value<'a>)
    ensures
        value_view(r) == value_view(*v),
    decreases v,
{
    match v {
        Value::Unit => Value::Unit,
        Value::Bool(b) => Value::Bool(*b),
        Value::Int(i) => Value::Int(*i),
        Value::String(s) => Value::String(to_string(s.as_str())),
        Value::Path(s) => Value::Path(to_string(s.as_str())),
        Value::List(items) => {
            let mut out: Vec<Value<'a>> = Vec::new();
            let mut i: usize = 0;
            while i < items.len()
                invariant
                    *v is List,
                    v->List_0 == *items,
                    i <= items@.len(),
                    out@.len() == i,
                    forall|j: int| 0 <= j < i ==> value_view(#[trigger] out@[j]) == value_view(items@[j]),
                decreases items@.len() - i,
            {
                assert(decreases_to!(*v => v->List_0));
                assert(decreases_to!(v->List_0 => v->List_0@));
                assert(decreases_to!(v->List_0@ => v->List_0@[i as int]));
                let c = clone_value(&items[i]);
                out.push(c);
                i = i + 1;
            }
            let r = Value::List(out);
            assert(value_view(r)->List_0 =~= value_view(*v)->List_0);
            r
        },
        Value::Fn(Function::Builtin(b)) => Value::Fn(Function::Builtin(*b)),
        Value::Fn(Function::Lambda(params, body)) => {
            let mut ps: Vec<&'a str> = Vec::new();
            let mut i: usize = 0;
            while i < params.len()
                invariant
                    i <= params@.len(),
                    ps@ == params@.take(i as int),
                decreases params@.len() - i,
            {
                ps.push(params[i]);
                assert(ps@ =~= params@.take(i + 1));
                i = i + 1;
            }
            let mut bs: Vec<&'a Expr<'a>> = Vec::new();
            let mut k: usize = 0;
            while k < body.len()
                invariant
                    k <= body@.len(),
                    bs@ == body@.take(k as int),
                decreases body@.len() - k,
            {
                bs.push(body[k]);
                assert(bs@ =~= body@.take(k + 1));
                k = k + 1;
            }
            assert(ps@ =~= params@);
            assert(bs@ =~= body@);
            Value::Fn(Function::Lambda(ps, bs))
        },
    }
}

/// Names bound to values, in frames, the innermost last, and the
/// configuration that `set-cfg!` has set.
pub struct Environment<'a> {
    frames: Vec<Vec<(&'a str, Value<'a>)>>,
    config: IntermediateConfig,
    host: Vec<HostFact>,
    separator: &'static str,
}

/// The mathematical value of the frames `frames`.
pub open spec fn frames_view(frames: Seq<Vec<(&str, Value)>>) -> Seq<FrameModel> {
    Seq::new(frames.len(), |i: int| frame_view(frames[i]@))
}

impl<'a> View for Environment<'a> {
    type V = EnvModel;

    closed spec fn view(&self) -> EnvModel {
        EnvModel {
            frames: frames_view(self.frames@),
            config: self.config@,
            host: facts_view(self.host@),
            separator: self.separator@,
        }
    }
}

/// The names of the built-in functions and the functions they name, in
/// the order they are bound.
pub open spec fn prelude() -> FrameModel {
    seq![
        ("+"@, ValueModel::Fn(FnModel::Builtin(Builtin::Add))),
        ("-"@, ValueModel::Fn(FnModel::Builtin(Builtin::Sub))),
        ("/"@, ValueModel::Fn(FnModel::Builtin(Builtin::Div))),
        ("*"@, ValueModel::Fn(FnModel::Builtin(Builtin::Mul))),
        ("%"@, ValueModel::Fn(FnModel::Builtin(Builtin::Rem))),
        ("concat"@, ValueModel::Fn(FnModel::Builtin(Builtin::Concat))),
        ("cons"@, ValueModel::Fn(FnModel::Builtin(Builtin::Cons))),
        ("env"@, ValueModel::Fn(FnModel::Builtin(Builtin::Env))),
        ("if"@, ValueModel::Fn(FnModel::Builtin(Builtin::If))),
        ("lambda"@, ValueModel::Fn(FnModel::Builtin(Builtin::Lambda))),
        ("let"@, ValueModel::Fn(FnModel::Builtin(Builtin::Let))),
        ("list"@, ValueModel::Fn(FnModel::Builtin(Builtin::List))),
        ("nil"@, ValueModel::Fn(FnModel::Builtin(Builtin::Nil))),
        ("not"@, ValueModel::Fn(FnModel::Builtin(Builtin::Not))),
        ("path"@, ValueModel::Fn(FnModel::Builtin(Builtin::Path))),
        ("path-children"@, ValueModel::Fn(FnModel::Builtin(Builtin::PathChildren))),
        ("path-exists"@, ValueModel::Fn(FnModel::Builtin(Builtin::PathExists))),
        ("path-is-dir"@, ValueModel::Fn(FnModel::Builtin(Builtin::PathIsDir))),
        ("path-is-file"@, ValueModel::Fn(FnModel::Builtin(Builtin::PathIsFile))),
        ("path-name"@, ValueModel::Fn(FnModel::Builtin(Builtin::PathName))),
        ("path-separator"@, ValueModel::Fn(FnModel::Builtin(Builtin::PathSeparator))),
        ("progn"@, ValueModel::Fn(FnModel::Builtin(Builtin::Progn))),
        ("seq-filter"@, ValueModel::Fn(FnModel::Builtin(Builtin::SeqFilter))),
        ("seq-find"@, ValueModel::Fn(FnModel::Builtin(Builtin::SeqFind))),
        ("seq-flat-map"@, ValueModel::Fn(FnModel::Builtin(Builtin::SeqFlatMap))),
        ("seq-fold"@, ValueModel::Fn(FnModel::Builtin(Builtin::SeqFold))),
        ("seq-map"@, ValueModel::Fn(FnModel::Builtin(Builtin::SeqMap))),
        ("seq-rev"@, ValueModel::Fn(FnModel::Builtin(Builtin::SeqRev))),
        ("try-catch"@, ValueModel::Fn(FnModel::Builtin(Builtin::TryCatch))),
    ]
}

/// The frame of the built-in functions (see [prelude]).
fn prelude_frame<'a>() -> (r: Vec<(&'a str, Value<'a>)>)
    ensures
        frame_view(r@) == prelude(),
{
    let mut frame: Vec<(&'a str, Value<'a>)> = Vec::new();
    frame.push(("+", Value::Fn(Function::Builtin(Builtin::Add))));
    frame.push(("-", Value::Fn(Function::Builtin(Builtin::Sub))));
    frame.push(("/", Value::Fn(Function::Builtin(Builtin::Div))));
    frame.push(("*", Value::Fn(Function::Builtin(Builtin::Mul))));
    frame.push(("%", Value::Fn(Function::Builtin(Builtin::Rem))));
    frame.push(("concat", Value::Fn(Function::Builtin(Builtin::Concat))));
    frame.push(("cons", Value::Fn(Function::Builtin(Builtin::Cons))));
    frame.push(("env", Value::Fn(Function::Builtin(Builtin::Env))));
    frame.push(("if", Value::Fn(Function::Builtin(Builtin::If))));
    frame.push(("lambda", Value::Fn(Function::Builtin(Builtin::Lambda))));
    frame.push(("let", Value::Fn(Function::Builtin(Builtin::Let))));
    frame.push(("list", Value::Fn(Function::Builtin(Builtin::List))));
    frame.push(("nil", Value::Fn(Function::Builtin(Builtin::Nil))));
    frame.push(("not", Value::Fn(Function::Builtin(Builtin::Not))));
    frame.push(("path", Value::Fn(Function::Builtin(Builtin::Path))));
    frame.push(("path-children", Value::Fn(Function::Builtin(Builtin::PathChildren))));
    frame.push(("path-exists", Value::Fn(Function::Builtin(Builtin::PathExists))));
    frame.push(("path-is-dir", Value::Fn(Function::Builtin(Builtin::PathIsDir))));
    frame.push(("path-is-file", Value::Fn(Function::Builtin(Builtin::PathIsFile))));
    frame.push(("path-name", Value::Fn(Function::Builtin(Builtin::PathName))));
    frame.push(("path-separator", Value::Fn(Function::Builtin(Builtin::PathSeparator))));
    frame.push(("progn", Value::Fn(Function::Builtin(Builtin::Progn))));
    frame.push(("seq-filter", Value::Fn(Function::Builtin(Builtin::SeqFilter))));
    frame.push(("seq-find", Value::Fn(Function::Builtin(Builtin::SeqFind))));
    frame.push(("seq-flat-map", Value::Fn(Function::Builtin(Builtin::SeqFlatMap))));
    frame.push(("seq-fold", Value::Fn(Function::Builtin(Builtin::SeqFold))));
    frame.push(("seq-map", Value::Fn(Function::Builtin(Builtin::SeqMap))));
    frame.push(("seq-rev", Value::Fn(Function::Builtin(Builtin::SeqRev))));
    frame.push(("try-catch", Value::Fn(Function::Builtin(Builtin::TryCatch))));
    assert(frame_view(frame@) =~= prelude());
    frame
}

impl<'a> Environment<'a> {
    /// There is always a frame to bind names in.
    #[verifier::type_invariant]
    spec fn has_a_frame(self) -> bool {
        self.frames.len() >= 1
    }

    /// The environment with the built-in functions, in one frame; nothing
    /// is known yet of the world outside.
    pub fn new() -> (r: Self)
        ensures
            r@.frames == seq![prelude()],
            r@.config == empty_config(),
            r@.host == Seq::<HostFactModel>::empty(),
    {
        let mut frames: Vec<Vec<(&'a str, Value<'a>)>> = Vec::new();
        frames.push(prelude_frame());
        let r = Environment { frames, config: IntermediateConfig::new(), host: Vec::new(), separator: path_separator() };
        assert(r@.host =~= Seq::<HostFactModel>::empty());
        assert(r@.frames =~= seq![prelude()]);
        r
    }

    /// The environment with the built-in functions and then `syms`, in one
    /// frame.
    pub fn with_symbols(syms: Vec<(&'a str, Value<'a>)>) -> (r: Self)
        ensures
            r@.frames == seq![prelude() + frame_view(syms@)],
            r@.config == empty_config(),
            r@.host == Seq::<HostFactModel>::empty(),
    {
        let mut frame = prelude_frame();
        let ghost sv = frame_view(syms@);
        let mut syms = syms;
        frame.append(&mut syms);
        assert(frame_view(frame@) =~= prelude() + sv);
        let mut frames: Vec<Vec<(&'a str, Value<'a>)>> = Vec::new();
        frames.push(frame);
        let r = Environment { frames, config: IntermediateConfig::new(), host: Vec::new(), separator: path_separator() };
        assert(r@.frames =~= seq![prelude() + sv]);
        assert(r@.host =~= Seq::<HostFactModel>::empty());
        r
    }

    /// The configuration set so far.
    pub fn config(&self) -> (r: &IntermediateConfig)
        ensures
            r@ == self@.config,
    {
        &self.config
    }

    /// Takes the configuration set so far, leaving the empty one.
    pub fn take_config(&mut self) -> (r: IntermediateConfig)
        ensures
            r@ == old(self)@.config,
            final(self)@ == (EnvModel { config: empty_config(), ..old(self)@ }),
    {
        let mut c = IntermediateConfig::new();
        proof {
            use_type_invariant(&*self);
        }
        std::mem::swap(&mut c, &mut self.config);
        c
    }

    /// Records `fact`, an answer from the world outside, after those known.
    pub fn answer(&mut self, fact: HostFact)
        ensures
            final(self)@ == (EnvModel { host: old(self)@.host.push(fact_view(fact)), ..old(self)@ }),
    {
        let ghost before = self@;
        let mut host: Vec<HostFact> = Vec::new();
        proof {
            use_type_invariant(&*self);
        }
        std::mem::swap(&mut host, &mut self.host);
        host.push(fact);
        self.host = host;
        assert(self@.host =~= before.host.push(fact_view(fact)));
    }

    /// The value bound to `name` (see [env_get]).
    pub fn get(&self, name: &str) -> (r: Option<&Value<'a>>)
        ensures
            match env_get(self@, name@) {
                Some(v) => r matches Some(x) && value_view(*x) == v,
                None => r is None,
            },
    {
        let ghost fs = self@.frames;
        let mut i = self.frames.len();
        assert(fs.take(i as int) =~= fs);
        while i > 0
            invariant
                fs == self@.frames,
                i <= self.frames@.len(),
                env_get(self@, name@) == frames_get(fs.take(i as int), name@),
            decreases i,
        {
            let frame = &self.frames[i - 1];
            let ghost fm = fs[i - 1];
            assert(fm == frame_view(frame@));
            let mut j = frame.len();
            assert(fm.take(j as int) =~= fm);
            while j > 0
                invariant
                    j <= frame@.len(),
                    0 < i <= self.frames@.len(),
                    fs == self@.frames,
                    fm == fs[i - 1],
                    env_get(self@, name@) == frames_get(fs.take(i as int), name@),
                    fm == frame_view(frame@),
                    frame_get(fm, name@) == frame_get(fm.take(j as int), name@),
                decreases j,
            {
                assert(fm.take(j as int).last() == fm[j - 1]);
                assert(fm.take(j as int).drop_last() =~= fm.take(j - 1));
                if str_eq(frame[j - 1].0, name) {
                    proof {
                        assert(fs.take(i as int).last() == fm);
                    }
                    return Some(&frame[j - 1].1);
                }
                j = j - 1;
            }
            assert(fm.take(0) =~= Seq::<(Seq<char>, ValueModel)>::empty());
            assert(fs.take(i as int).last() == fm);
            assert(fs.take(i as int).drop_last() =~= fs.take(i - 1));
            i = i - 1;
        }
        assert(fs.take(0) =~= Seq::<FrameModel>::empty());
        None
    }

    /// Binds `name` to `v` in the innermost frame (see [env_insert]).
    pub fn insert(&mut self, name: &'a str, v: Value<'a>)
        ensures
            final(self)@ == env_insert(old(self)@, name@, value_view(v)),
    {
        if self.frames.len() == 0 {
            return;
        }
        let ghost before = self@;
        let mut frames = self.take_frames();
        let mut frame = frames.pop().unwrap();
        let ghost fv = frame_view(frame@);
        frame.push((name, v));
        assert(frame_view(frame@) =~= fv.push((name@, value_view(v))));
        frames.push(frame);
        self.frames = frames;
        assert(self@.frames =~= env_insert(before, name@, value_view(v)).frames);
    }

    /// Adds an empty innermost frame.
    fn push_frame(&mut self)
        ensures
            final(self)@ == env_push(old(self)@),
    {
        let ghost before = self@;
        let mut frames = self.take_frames();
        frames.push(Vec::new());
        self.frames = frames;
        assert(self@.frames[before.frames.len() as int] =~= Seq::<(Seq<char>, ValueModel)>::empty());
        assert(self@.frames =~= before.frames.push(Seq::empty()));
    }

    /// Takes the frames out, leaving one empty frame in their place.
    fn take_frames(&mut self) -> (r: Vec<Vec<(&'a str, Value<'a>)>>)
        ensures
            r@ == old(self).frames@,
            final(self).frames@.len() == 1,
            final(self).config == old(self).config,
            final(self).host == old(self).host,
            final(self).separator == old(self).separator,
    {
        let mut frames: Vec<Vec<(&'a str, Value<'a>)>> = Vec::new();
        frames.push(Vec::new());
        std::mem::swap(&mut frames, &mut self.frames);
        frames
    }

    /// Drops the innermost frame, where there is more than one.
    fn pop_frame(&mut self)
        ensures
            final(self)@ == env_pop(old(self)@),
    {
        if self.frames.len() > 1 {
            let ghost before = self@;
            let mut frames = self.take_frames();
            let _ = frames.pop();
            self.frames = frames;
            assert(self@.frames =~= before.frames.drop_last());
        }
    }
}

/// The mathematical values of evaluation outcomes.
pub open spec fn results_view(rs: Seq<Result<Value, EvalError>>) -> Seq<Result<ValueModel, ErrorModel>> {
    Seq::new(rs.len(), |i: int| outcome_view(rs[i]))
}

pub(crate) fn as_int<'a>(v: Value<'a>) -> (r: Result<i32, EvalError<'a>>)
    ensures
        match to_int(value_view(v)) {
            Ok(x) => r == Ok::<i32, EvalError<'a>>(x),
            Err(e) => r matches Err(err) && err@ == e,
        },
{
    match v {
        Value::Int(i) => Ok(i),
        _ => Err(EvalError::WrongType(ValueKind::Int)),
    }
}

pub(crate) fn as_bool<'a>(v: Value<'a>) -> (r: Result<bool, EvalError<'a>>)
    ensures
        match to_bool(value_view(v)) {
            Ok(x) => r == Ok::<bool, EvalError<'a>>(x),
            Err(e) => r matches Err(err) && err@ == e,
        },
{
    match v {
        Value::Bool(b) => Ok(b),
        _ => Err(EvalError::WrongType(ValueKind::Bool)),
    }
}

pub(crate) fn as_string<'a>(v: Value<'a>) -> (r: Result<String, EvalError<'a>>)
    ensures
        match to_str(value_view(v)) {
            Ok(x) => r matches Ok(s) && s@ == x,
            Err(e) => r matches Err(err) && err@ == e,
        },
{
    match v {
        Value::String(s) => Ok(s),
        _ => Err(EvalError::WrongType(ValueKind::String)),
    }
}

pub(crate) fn as_list<'a>(v: Value<'a>) -> (r: Result<Vec<Value<'a>>, EvalError<'a>>)
    ensures
        match to_list(value_view(v)) {
            Ok(x) => r matches Ok(l) && values_view(l@) == x,
            Err(e) => r matches Err(err) && err@ == e,
        },
{
    match v {
        Value::List(l) => {
            assert(values_view(l@) =~= value_view(Value::List(l))->List_0);
            Ok(l)
        },
        _ => Err(EvalError::WrongType(ValueKind::List)),
    }
}

pub(crate) fn as_fn<'a>(v: Value<'a>) -> (r: Result<Function<'a>, EvalError<'a>>)
    ensures
        match to_fn(value_view(v)) {
            Ok(x) => r matches Ok(f) && fn_view(f) == x,
            Err(e) => r matches Err(err) && err@ == e,
        },
{
    match v {
        Value::Fn(f) => Ok(f),
        _ => Err(EvalError::WrongType(ValueKind::Fn)),
    }
}

fn apply_math(op: MathOp, a: i32, b: i32) -> (r: Option<i32>)
    ensures
        r == math(op, a, b),
{
    match op {
        MathOp::Add => a.checked_add(b),
        MathOp::Sub => a.checked_sub(b),
        MathOp::Div => a.checked_div(b),
        MathOp::Mul => a.checked_mul(b),
        MathOp::Rem => a.checked_rem(b),
    }
}

fn math_op(b: Builtin) -> (r: MathOp)
    ensures
        r == op_of(b),
{
    match b {
        Builtin::Add => MathOp::Add,
        Builtin::Sub => MathOp::Sub,
        Builtin::Div => MathOp::Div,
        Builtin::Mul => MathOp::Mul,
        _ => MathOp::Rem,
    }
}

/// The last part of the name of the path `p`, as [std::path::Path::file_name]
/// gives it: nothing where it has none (the root, or a name ending in
/// `..`).
pub uninterp spec fn file_name_of(p: Seq<char>) -> Seq<char>;

/// [std::path::Path::file_name] of `p`, empty where there is none; the
/// contract names the result and says nothing more of it.
#[verifier::external_body]
fn file_name(p: &str) -> (r: String)
    ensures
        r@ == file_name_of(p@),
{
    std::path::Path::new(p).file_name().map(|n| n.to_string_lossy().into_owned()).unwrap_or_default()
}

/// [std::path::MAIN_SEPARATOR_STR], the platform's separator of path
/// components; its value is not stated.
#[verifier::external_body]
fn path_separator() -> (r: &'static str) {
    std::path::MAIN_SEPARATOR_STR
}

fn literal_text<'a>(s: &std::borrow::Cow<'a, str>) -> (r: String)
    ensures
        r@ == s@,
{
    match s {
        std::borrow::Cow::Borrowed(b) => to_string(b),
        std::borrow::Cow::Owned(o) => to_string(o.as_str()),
    }
}

/// The items of an application after the first, as terms.
fn tail_args<'a>(items: &'a Vec<Expr<'a>>) -> (r: Vec<Term<'a>>)
    requires
        items@.len() > 0,
    ensures
        terms_view(r@) == tail_terms(Seq::new(items@.len(), |k: int| expr_view(items@[k]))),
{
    let ghost im = Seq::new(items@.len(), |k: int| expr_view(items@[k]));
    let mut args: Vec<Term<'a>> = Vec::new();
    let mut i: usize = 1;
    while i < items.len()
        invariant
            1 <= i <= items@.len(),
            im == Seq::new(items@.len(), |k: int| expr_view(items@[k])),
            args@.len() == i - 1,
            terms_view(args@) == Seq::new((i - 1) as nat, |k: int| TermModel::Expr(im[k + 1])),
        decreases items@.len() - i,
    {
        let ghost before = args@;
        args.push(Term::Expr(&items[i]));
        assert forall|k: int| 0 <= k < i - 1 implies #[trigger] terms_view(args@)[k] == TermModel::Expr(im[k + 1]) by {
            assert(terms_view(before)[k] == TermModel::Expr(im[k + 1]));
            assert(args@[k] == before[k]);
        }
        assert(terms_view(args@) =~= Seq::new(i as nat, |k: int| TermModel::Expr(im[k + 1])));
        i = i + 1;
    }
    assert(terms_view(args@) =~= tail_terms(im));
    args
}

impl<'a> Environment<'a> {
    /// Evaluates `t` with `fuel` levels of nesting left (see [eval]).
    pub fn eval(&mut self, t: &Term<'a>, fuel: u64) -> (r: Result<Value<'a>, EvalError<'a>>)
        ensures
            (final(self)@, outcome_view(r)) == eval(old(self)@, term_view(*t), fuel as nat),
            final(self)@.frames == old(self)@.frames,
        decreases fuel, 0nat, 0nat,
    {
        proof {
            use_type_invariant(&*self);
            law_eval_restores_frames(self@, term_view(*t), fuel as nat);
        }
        match t {
            Term::Value(v) => Ok(clone_value(v)),
            Term::Expr(e) => {
                let e: &'a Expr<'a> = *e;
                match e {
                    Expr::Literal(Literal::Bool(b)) => Ok(Value::Bool(*b)),
                    Expr::Literal(Literal::Int(i)) => Ok(Value::Int(*i)),
                    Expr::Literal(Literal::String(s)) => Ok(Value::String(literal_text(s))),
                    Expr::Literal(Literal::Ident(id)) => match self.get(id) {
                        Some(v) => Ok(clone_value(v)),
                        None => Err(EvalError::NotFound(id)),
                    },
                    Expr::List(items) => {
                        let ghost im = expr_view(*e)->List_0;
                        assert(im =~= Seq::new(items@.len(), |k: int| expr_view(items@[k])));
                        if items.len() == 0 {
                            return Err(EvalError::EmptyApply);
                        }
                        if fuel == 0 {
                            return Err(EvalError::OutOfFuel);
                        }
                        let head_term = Term::Expr(&items[0]);
                        assert(term_view(head_term) == TermModel::Expr(im[0]));
                        let head = self.eval(&head_term, fuel - 1);
                        let f = match head {
                            Err(err) => {
                                return Err(err);
                            },
                            Ok(Value::Fn(f)) => f,
                            Ok(_) => {
                                return Err(EvalError::NotAFunction);
                            },
                        };
                        let args = tail_args(items);
                        self.push_frame();
                        let r = self.apply(&f, args.as_slice(), fuel - 1);
                        self.pop_frame();
                        r
                    },
                }
            },
        }
    }

    /// Evaluates `t` as [Environment::eval] does, except that a function
    /// applied at the top is applied in the innermost frame as it is, with
    /// no frame of its own (see [eval_tail]).
    pub fn eval_tail_call(&mut self, t: &Term<'a>, fuel: u64) -> (r: Result<Value<'a>, EvalError<'a>>)
        ensures
            (final(self)@, outcome_view(r)) == eval_tail(old(self)@, term_view(*t), fuel as nat),
    {
        let e: &'a Expr<'a> = match t {
            Term::Expr(e) => *e,
            Term::Value(_) => {
                return self.eval(t, fuel);
            },
        };
        let items = match e {
            Expr::List(items) => items,
            _ => {
                return self.eval(t, fuel);
            },
        };
        let ghost im = expr_view(*e)->List_0;
        assert(im =~= Seq::new(items@.len(), |k: int| expr_view(items@[k])));
        if items.len() == 0 {
            return Err(EvalError::EmptyApply);
        }
        if fuel == 0 {
            return Err(EvalError::OutOfFuel);
        }
        let head_term = Term::Expr(&items[0]);
        assert(term_view(head_term) == TermModel::Expr(im[0]));
        let head = self.eval(&head_term, fuel - 1);
        let f = match head {
            Err(err) => {
                return Err(err);
            },
            Ok(Value::Fn(f)) => f,
            Ok(_) => {
                return Err(EvalError::NotAFunction);
            },
        };
        let args = tail_args(items);
        self.apply(&f, args.as_slice(), fuel - 1)
    }

    /// Calls `f` on `args` (see [apply]).
    pub fn apply(&mut self, f: &Function<'a>, args: &[Term<'a>], fuel: u64) -> (r: Result<Value<'a>, EvalError<'a>>)
        ensures
            (final(self)@, outcome_view(r)) == apply(old(self)@, fn_view(*f), terms_view(args@), fuel as nat),
        decreases fuel, 4nat, 0nat,
    {
        match f {
            Function::Builtin(b) => self.call_builtin(*b, args, fuel),
            Function::Lambda(params, body) => {
                let ghost a = terms_view(args@);
                let ghost p = fn_view(*f)->Lambda_0;
                let ghost bm = fn_view(*f)->Lambda_1;
                assert(p =~= Seq::new(params@.len(), |i: int| params@[i]@));
                let ghost env0 = self@;
                let mut i: usize = 0;
                loop
                    invariant_except_break
                        a == terms_view(args@),
                        p == Seq::new(params@.len(), |k: int| params@[k]@),
                        env0 == old(self)@,
                        fn_view(*f) == FnModel::Lambda(p, bm),
                        i <= args@.len() + params@.len(),
                        bind_from(self@, a, p, i as int, fuel as nat) == bind_from(env0, a, p, 0, fuel as nat),
                    ensures
                        bind_from(env0, a, p, 0, fuel as nat) == (self@, Ok::<(), ErrorModel>(())),
                    decreases args@.len() + params@.len() - i,
                {
                    if i >= args.len() && i >= params.len() {
                        break;
                    }
                    if i >= args.len() || i >= params.len() {
                        return Err(EvalError::WrongArity(Arity::Static(params.len())));
                    }
                    assert(a[i as int] == term_view(args@[i as int]));
                    let v = match self.eval(&args[i], fuel) {
                        Err(err) => {
                            return Err(err);
                        },
                        Ok(v) => v,
                    };
                    assert(p[i as int] == params@[i as int]@);
                    self.insert(params[i], v);
                    i = i + 1;
                }
                if body.len() == 0 {
                    return Err(EvalError::NoBody);
                }
                let ghost bt = expr_terms(bm);
                let ghost env1 = self@;
                let mut last = Value::Unit;
                let mut k: usize = 0;
                while k < body.len()
                    invariant
                        k <= body@.len(),
                        a == terms_view(args@),
                        env0 == old(self)@,
                        fn_view(*f) == FnModel::Lambda(p, bm),
                        bind_from(env0, a, p, 0, fuel as nat) == (env1, Ok::<(), ErrorModel>(())),
                        bm.len() > 0,
                        bm == Seq::new(body@.len(), |j: int| expr_view(*body@[j])),
                        bt == expr_terms(bm),
                        progn_from(self@, bt, k as int, value_view(last), fuel as nat) == progn_from(env1, bt, 0, ValueModel::Unit, fuel as nat),
                    decreases body@.len() - k,
                {
                    let term = Term::Expr(body[k]);
                    assert(term_view(term) == bt[k as int]);
                    match self.eval(&term, fuel) {
                        Err(err) => {
                            return Err(err);
                        },
                        Ok(v) => {
                            last = v;
                        },
                    }
                    k = k + 1;
                }
                Ok(last)
            },
        }
    }

    fn call_builtin(&mut self, b: Builtin, args: &[Term<'a>], fuel: u64) -> (r: Result<Value<'a>, EvalError<'a>>)
        ensures
            (final(self)@, outcome_view(r)) == builtin(old(self)@, b, terms_view(args@), fuel as nat),
        decreases fuel, 3nat, 0nat,
    {
        match b {
            Builtin::Add | Builtin::Sub | Builtin::Div | Builtin::Mul | Builtin::Rem => self.call_math(b, args, fuel),
            Builtin::Concat => self.call_concat(args, fuel),
            Builtin::Cons => self.call_cons(args, fuel),
            Builtin::If => self.call_if(args, fuel),
            Builtin::Lambda => call_lambda(args),
            Builtin::Let => self.call_let(args, fuel),
            Builtin::List => self.call_list(args, fuel),
            Builtin::Nil => {
                let empty: Vec<Value<'a>> = Vec::new();
                let r = Value::List(empty);
                assert(value_view(r)->List_0 =~= Seq::<ValueModel>::empty());
                Ok(r)
            },
            Builtin::Not => self.call_not(args, fuel),
            Builtin::Progn => {
                if args.len() == 0 {
                    return Err(EvalError::NoBody);
                }
                self.progn_terms(args, 0, fuel)
            },
            Builtin::SeqRev => self.call_seq_rev(args, fuel),
            Builtin::Path => self.call_path(args, fuel),
            Builtin::Env => self.call_env(args, fuel),
            Builtin::PathChildren => self.call_path_children(args, fuel),
            Builtin::PathExists | Builtin::PathIsDir | Builtin::PathIsFile => self.call_path_flags(b, args, fuel),
            Builtin::PathSeparator => Ok(Value::String(to_string(self.separator))),
            Builtin::PathName => self.call_path_name(args, fuel),
            Builtin::TryCatch => self.call_try_catch(args, fuel),
            Builtin::SetCfg => self.call_set_cfg(args, fuel),
            Builtin::SeqFilter | Builtin::SeqFind | Builtin::SeqFlatMap | Builtin::SeqFold | Builtin::SeqMap => self.call_seq(
                b,
                args,
                fuel,
            ),
        }
    }

    fn call_math(&mut self, b: Builtin, args: &[Term<'a>], fuel: u64) -> (r: Result<Value<'a>, EvalError<'a>>)
        requires
            b == Builtin::Add || b == Builtin::Sub || b == Builtin::Div || b == Builtin::Mul || b == Builtin::Rem,
        ensures
            (final(self)@, outcome_view(r)) == builtin(old(self)@, b, terms_view(args@), fuel as nat),
        decreases fuel, 2nat, 0nat,
    {
        let ghost a = terms_view(args@);
        if args.len() == 0 {
            return Err(EvalError::WrongArity(Arity::RangeFrom(2)));
        }
        assert(a[0] == term_view(args@[0]));
        let first = match self.eval(&args[0], fuel) {
            Err(err) => {
                return Err(err);
            },
            Ok(v) => v,
        };
        let mut acc = match as_int(first) {
            Err(err) => {
                return Err(err);
            },
            Ok(x) => x,
        };
        if args.len() < 2 {
            return Err(EvalError::WrongArity(Arity::RangeFrom(2)));
        }
        let op = math_op(b);
        let ghost env1 = self@;
        let ghost acc1 = acc;
        let mut i: usize = 1;
        while i < args.len()
            invariant
                a == terms_view(args@),
                1 <= i <= args@.len(),
                op == op_of(b),
                math_from(self@, op, a, i as int, acc, fuel as nat) == math_from(env1, op, a, 1, acc1, fuel as nat),
                builtin(old(self)@, b, a, fuel as nat) == math_from(env1, op, a, 1, acc1, fuel as nat),
            decreases args@.len() - i,
        {
            assert(a[i as int] == term_view(args@[i as int]));
            let v = match self.eval(&args[i], fuel) {
                Err(err) => {
                    return Err(err);
                },
                Ok(v) => v,
            };
            let x = match as_int(v) {
                Err(err) => {
                    return Err(err);
                },
                Ok(x) => x,
            };
            acc = match apply_math(op, acc, x) {
                None => {
                    return Err(EvalError::Overflow);
                },
                Some(y) => y,
            };
            i = i + 1;
        }
        Ok(Value::Int(acc))
    }
}

/// The first repeat of a list is the first repeat of any start of it that
/// has one.
proof fn lemma_first_repeat_prefix(s: Seq<Seq<char>>, k: int)
    requires
        0 <= k <= s.len(),
        first_repeat(s.take(k)) is Some,
    ensures
        first_repeat(s) == first_repeat(s.take(k)),
    decreases s.len() - k,
{
    if k < s.len() {
        assert(s.take(k + 1).drop_last() =~= s.take(k));
        lemma_first_repeat_prefix(s, k + 1);
    } else {
        assert(s.take(k) =~= s);
    }
}

/// What `lambda` makes of `args` (see [lambda_of]).
fn call_lambda<'a>(args: &[Term<'a>]) -> (r: Result<Value<'a>, EvalError<'a>>)
    ensures
        outcome_view(r) == lambda_of(terms_view(args@)),
{
    let ghost a = terms_view(args@);
    if args.len() == 0 {
        return Err(EvalError::WrongArity(Arity::RangeFrom(2)));
    }
    assert(a[0] == term_view(args@[0]));
    let e: &'a Expr<'a> = match &args[0] {
        Term::Expr(e) => *e,
        Term::Value(_) => {
            return Err(EvalError::NoBindings);
        },
    };
    let bs = match e {
        Expr::List(bs) => bs,
        _ => {
            return Err(EvalError::NoBindings);
        },
    };
    let ghost bsm = expr_view(*e)->List_0;
    let mut names: Vec<&'a str> = Vec::new();
    let mut i: usize = 0;
    while i < bs.len()
        invariant
            a == terms_view(args@),
            a.len() > 0,
            a[0] == TermModel::Expr(expr_view(*e)),
            bsm == expr_view(*e)->List_0,
            *e == Expr::List(*bs),
            bsm.len() == bs@.len(),
            i <= bs@.len(),
            names@.len() == i,
            forall|k: int| 0 <= k < i ==> is_name(#[trigger] bsm[k]) && names@[k]@ == bsm[k]->Literal_0->Ident_0,
        decreases bs@.len() - i,
    {
        assert(bsm[i as int] == expr_view(bs@[i as int]));
        match &bs[i] {
            Expr::Literal(Literal::Ident(n)) => {
                names.push(n);
            },
            _ => {
                assert(!is_name(bsm[i as int]));
                assert(first_non_name(bsm, i as int));
                let ghost k = choose|k: int| first_non_name(bsm, k);
                assert(k == i) by {
                    if k < i {
                        assert(is_name(bsm[k]));
                    } else if k > i {
                        assert(is_name(bsm[i as int]));
                    }
                }
                return Err(EvalError::NonIdentListBinding(ExprTy::from(&bs[i])));
            },
        }
        i = i + 1;
    }
    let ghost nv = Seq::new(bsm.len(), |k: int| bsm[k]->Literal_0->Ident_0);
    assert(params_of(bsm) == Ok::<Seq<Seq<char>>, ErrorModel>(nv));
    let mut i: usize = 0;
    assert(nv.take(0) =~= Seq::<Seq<char>>::empty());
    while i < names.len()
        invariant
            a == terms_view(args@),
            a.len() > 0,
            a[0] == TermModel::Expr(ExprModel::List(bsm)),
            params_of(bsm) == Ok::<Seq<Seq<char>>, ErrorModel>(nv),
            nv.len() == names@.len(),
            forall|k: int| 0 <= k < names@.len() ==> #[trigger] nv[k] == names@[k]@,
            i <= names@.len(),
            first_repeat(nv.take(i as int)) is None,
        decreases names@.len() - i,
    {
        let mut j: usize = 0;
        while j < i
            invariant
                a == terms_view(args@),
                a.len() > 0,
                a[0] == TermModel::Expr(ExprModel::List(bsm)),
                params_of(bsm) == Ok::<Seq<Seq<char>>, ErrorModel>(nv),
                nv.len() == names@.len(),
                forall|k: int| 0 <= k < names@.len() ==> #[trigger] nv[k] == names@[k]@,
                i < names@.len(),
                j <= i,
                first_repeat(nv.take(i as int)) is None,
                forall|k: int| 0 <= k < j ==> nv[k] != nv[i as int],
            decreases i - j,
        {
            if str_eq(names[j], names[i]) {
                proof {
                    assert(nv.take(i + 1).drop_last() =~= nv.take(i as int));
                    assert(nv.take(i + 1).last() == nv[i as int]);
                    assert(nv.take(i as int)[j as int] == nv[i as int]);
                    assert(nv.take(i as int).contains(nv[i as int]));
                    lemma_first_repeat_prefix(nv, i + 1);
                }
                return Err(EvalError::MultipleBindings(names[i]));
            }
            j = j + 1;
        }
        proof {
            assert(nv.take(i + 1).drop_last() =~= nv.take(i as int));
            assert(nv.take(i + 1).last() == nv[i as int]);
            assert(!nv.take(i as int).contains(nv[i as int]));
        }
        i = i + 1;
    }
    assert(nv.take(names@.len() as int) =~= nv);
    if args.len() < 2 {
        return Err(EvalError::NoBody);
    }
    let ghost ts = a.drop_first();
    let mut body: Vec<&'a Expr<'a>> = Vec::new();
    let mut k: usize = 1;
    while k < args.len()
        invariant
            a == terms_view(args@),
            a[0] == TermModel::Expr(ExprModel::List(bsm)),
            params_of(bsm) == Ok::<Seq<Seq<char>>, ErrorModel>(nv),
            first_repeat(nv) is None,
            ts == a.drop_first(),
            1 <= k <= args@.len(),
            body@.len() == k - 1,
            forall|m: int| 0 <= m < k - 1 ==> #[trigger] ts[m] is Expr && ts[m]->Expr_0 == expr_view(*body@[m]),
        decreases args@.len() - k,
    {
        assert(ts[k - 1] == term_view(args@[k as int]));
        match &args[k] {
            Term::Expr(x) => {
                body.push(*x);
            },
            Term::Value(_) => {
                assert(!(ts[k - 1] is Expr));
                return Err(EvalError::NoBody);
            },
        }
        k = k + 1;
    }
    let ghost bv = Seq::new(ts.len(), |m: int| ts[m]->Expr_0);
    assert(body_exprs(ts) == Some(bv));
    let r = Value::Fn(Function::Lambda(names, body));
    proof {
        let m = fn_view(Function::Lambda(names, body));
        assert(value_view(r)->Fn_0->Lambda_0 =~= nv);
        assert(value_view(r)->Fn_0->Lambda_1 =~= bv);
    }
    Ok(r)
}

impl<'a> Environment<'a> {
    /// Evaluates `args` up to `n`, keeping each outcome (see [eval_each]).
    fn eval_each(&mut self, args: &[Term<'a>], n: usize, fuel: u64) -> (r: Vec<Result<Value<'a>, EvalError<'a>>>)
        requires
            n <= args@.len(),
        ensures
            (final(self)@, results_view(r@)) == eval_each(old(self)@, terms_view(args@), 0, n as int, fuel as nat),
            r@.len() == n,
        decreases fuel, 1nat, 0nat,
    {
        let ghost a = terms_view(args@);
        let ghost env0 = self@;
        let mut out: Vec<Result<Value<'a>, EvalError<'a>>> = Vec::new();
        let mut i: usize = 0;
        assert(results_view(out@) =~= Seq::<Result<ValueModel, ErrorModel>>::empty());
        while i < n
            invariant
                a == terms_view(args@),
                n <= args@.len(),
                i <= n,
                out@.len() == i,
                eval_each(env0, a, 0, n as int, fuel as nat) == (
                    eval_each(self@, a, i as int, n as int, fuel as nat).0,
                    results_view(out@) + eval_each(self@, a, i as int, n as int, fuel as nat).1,
                ),
            decreases n - i,
        {
            let ghost before = out@;
            let ghost cur = self@;
            assert(a[i as int] == term_view(args@[i as int]));
            let r = self.eval(&args[i], fuel);
            out.push(r);
            assert(results_view(out@) =~= results_view(before) + seq![outcome_view(r)]);
            assert(results_view(before) + (seq![outcome_view(r)] + eval_each(self@, a, i + 1, n as int, fuel as nat).1)
                =~= results_view(out@) + eval_each(self@, a, i + 1, n as int, fuel as nat).1);
            i = i + 1;
        }
        assert(results_view(out@) + Seq::<Result<ValueModel, ErrorModel>>::empty() =~= results_view(out@));
        out
    }

    /// Evaluates `args` from `start` on, in order, the last value being the
    /// outcome (see [progn_from]).
    fn progn_terms(&mut self, args: &[Term<'a>], start: usize, fuel: u64) -> (r: Result<Value<'a>, EvalError<'a>>)
        ensures
            (final(self)@, outcome_view(r)) == progn_from(old(self)@, terms_view(args@), start as int, ValueModel::Unit, fuel as nat),
        decreases fuel, 1nat, 0nat,
    {
        let ghost a = terms_view(args@);
        let ghost env0 = self@;
        let mut last = Value::Unit;
        let mut k: usize = start;
        if k >= args.len() {
            return Ok(last);
        }
        while k < args.len()
            invariant
                a == terms_view(args@),
                env0 == old(self)@,
                start <= k <= args@.len(),
                progn_from(self@, a, k as int, value_view(last), fuel as nat) == progn_from(env0, a, start as int, ValueModel::Unit, fuel as nat),
            decreases args@.len() - k,
        {
            assert(a[k as int] == term_view(args@[k as int]));
            match self.eval(&args[k], fuel) {
                Err(err) => {
                    return Err(err);
                },
                Ok(v) => {
                    last = v;
                },
            }
            k = k + 1;
        }
        Ok(last)
    }

    fn call_concat(&mut self, args: &[Term<'a>], fuel: u64) -> (r: Result<Value<'a>, EvalError<'a>>)
        ensures
            (final(self)@, outcome_view(r)) == builtin(old(self)@, Builtin::Concat, terms_view(args@), fuel as nat),
        decreases fuel, 2nat, 0nat,
    {
        let ghost a = terms_view(args@);
        if args.len() == 0 {
            return Err(EvalError::WrongArity(Arity::RangeFrom(2)));
        }
        assert(a[0] == term_view(args@[0]));
        let first = match self.eval(&args[0], fuel) {
            Err(err) => {
                return Err(err);
            },
            Ok(v) => v,
        };
        let mut acc = match as_string(first) {
            Err(err) => {
                return Err(err);
            },
            Ok(t) => t,
        };
        let ghost env1 = self@;
        let ghost acc1 = acc@;
        let mut i: usize = 1;
        while i < args.len()
            invariant
                a == terms_view(args@),
                1 <= i <= args@.len(),
                concat_from(self@, a, i as int, acc@, fuel as nat) == concat_from(env1, a, 1, acc1, fuel as nat),
                builtin(old(self)@, Builtin::Concat, a, fuel as nat) == concat_from(env1, a, 1, acc1, fuel as nat),
            decreases args@.len() - i,
        {
            assert(a[i as int] == term_view(args@[i as int]));
            let v = match self.eval(&args[i], fuel) {
                Err(err) => {
                    return Err(err);
                },
                Ok(v) => v,
            };
            let t = match as_string(v) {
                Err(err) => {
                    return Err(err);
                },
                Ok(t) => t,
            };
            crate::text::push_str(&mut acc, t.as_str());
            i = i + 1;
        }
        Ok(Value::String(acc))
    }

    fn call_cons(&mut self, args: &[Term<'a>], fuel: u64) -> (r: Result<Value<'a>, EvalError<'a>>)
        ensures
            (final(self)@, outcome_view(r)) == builtin(old(self)@, Builtin::Cons, terms_view(args@), fuel as nat),
        decreases fuel, 2nat, 0nat,
    {
        let n = if args.len() < 3 {
            args.len()
        } else {
            3
        };
        let mut rs = self.eval_each(args, n, fuel);
        if args.len() != 2 {
            return Err(EvalError::WrongArity(Arity::Static(2)));
        }
        let ghost rv = results_view(rs@);
        let r1 = rs.pop().unwrap();
        let r0 = rs.pop().unwrap();
        proof {
            assert(rv[0] == outcome_view(r0));
            assert(rv[1] == outcome_view(r1));
            reveal_with_fuel(first_err, 3);
            assert(rv.drop_first().drop_first() =~= Seq::<Result<ValueModel, ErrorModel>>::empty());
        }
        match r0 {
            Err(err) => Err(err),
            Ok(car) => match r1 {
                Err(err) => Err(err),
                Ok(cdr) => match as_list(cdr) {
                    Err(err) => Err(err),
                    Ok(l) => {
                        let ghost lv = values_view(l@);
                        let mut l = l;
                        let ghost cv = value_view(car);
                        l.insert(0, car);
                        assert(values_view(l@) =~= seq![cv] + lv);
                        let r = Value::List(l);
                        assert(value_view(r)->List_0 =~= values_view(l@));
                        Ok(r)
                    },
                },
            },
        }
    }

    fn call_if(&mut self, args: &[Term<'a>], fuel: u64) -> (r: Result<Value<'a>, EvalError<'a>>)
        ensures
            (final(self)@, outcome_view(r)) == builtin(old(self)@, Builtin::If, terms_view(args@), fuel as nat),
        decreases fuel, 2nat, 0nat,
    {
        let ghost a = terms_view(args@);
        if args.len() < 2 || args.len() > 3 {
            return Err(EvalError::WrongArity(Arity::Range(2..3)));
        }
        assert(a[0] == term_view(args@[0]));
        assert(a[1] == term_view(args@[1]));
        let v = match self.eval(&args[0], fuel) {
            Err(err) => {
                return Err(err);
            },
            Ok(v) => v,
        };
        match as_bool(v) {
            Err(err) => Err(err),
            Ok(true) => self.eval(&args[1], fuel),
            Ok(false) => if args.len() == 3 {
                assert(a[2] == term_view(args@[2]));
                self.eval(&args[2], fuel)
            } else {
                Ok(Value::Unit)
            },
        }
    }

    fn call_not(&mut self, args: &[Term<'a>], fuel: u64) -> (r: Result<Value<'a>, EvalError<'a>>)
        ensures
            (final(self)@, outcome_view(r)) == builtin(old(self)@, Builtin::Not, terms_view(args@), fuel as nat),
        decreases fuel, 2nat, 0nat,
    {
        let ghost a = terms_view(args@);
        if args.len() != 1 {
            return Err(EvalError::WrongArity(Arity::Static(1)));
        }
        assert(a[0] == term_view(args@[0]));
        let v = match self.eval(&args[0], fuel) {
            Err(err) => {
                return Err(err);
            },
            Ok(v) => v,
        };
        match as_bool(v) {
            Err(err) => Err(err),
            Ok(x) => Ok(Value::Bool(!x)),
        }
    }

    fn call_list(&mut self, args: &[Term<'a>], fuel: u64) -> (r: Result<Value<'a>, EvalError<'a>>)
        ensures
            (final(self)@, outcome_view(r)) == builtin(old(self)@, Builtin::List, terms_view(args@), fuel as nat),
        decreases fuel, 2nat, 0nat,
    {
        let ghost a = terms_view(args@);
        let ghost env0 = self@;
        let mut out: Vec<Value<'a>> = Vec::new();
        let mut k: usize = args.len();
        assert(values_view(out@) =~= Seq::<ValueModel>::empty());
        while k > 0
            invariant
                a == terms_view(args@),
                env0 == old(self)@,
                k <= args@.len(),
                list_from(self@, a, k as int, values_view(out@), fuel as nat) == list_from(env0, a, a.len() as int, Seq::empty(), fuel as nat),
            decreases k,
        {
            assert(a[k - 1] == term_view(args@[k - 1]));
            let v = match self.eval(&args[k - 1], fuel) {
                Err(err) => {
                    return Err(err);
                },
                Ok(v) => v,
            };
            let ghost before = values_view(out@);
            let ghost vv = value_view(v);
            out.insert(0, v);
            assert(values_view(out@) =~= seq![vv] + before);
            k = k - 1;
        }
        let r = Value::List(out);
        assert(value_view(r)->List_0 =~= values_view(out@));
        Ok(r)
    }

    fn call_let(&mut self, args: &[Term<'a>], fuel: u64) -> (r: Result<Value<'a>, EvalError<'a>>)
        ensures
            (final(self)@, outcome_view(r)) == builtin(old(self)@, Builtin::Let, terms_view(args@), fuel as nat),
        decreases fuel, 2nat, 0nat,
    {
        let ghost a = terms_view(args@);
        if args.len() == 0 {
            return Err(EvalError::NoBindings);
        }
        assert(a[0] == term_view(args@[0]));
        let e: &'a Expr<'a> = match &args[0] {
            Term::Expr(e) => *e,
            Term::Value(_) => {
                return Err(EvalError::NonListBindings);
            },
        };
        let bs = match e {
            Expr::List(bs) => bs,
            _ => {
                return Err(EvalError::NonListBindings);
            },
        };
        let ghost bsm = expr_view(*e)->List_0;
        if bs.len() == 0 {
            return Err(EvalError::EmptyListBindings);
        }
        let ghost env0 = self@;
        let mut i: usize = 0;
        while i < bs.len()
            invariant
                a == terms_view(args@),
                a.len() > 0,
                a[0] == TermModel::Expr(expr_view(*e)),
                bsm == expr_view(*e)->List_0,
                *e == Expr::List(*bs),
                bsm.len() == bs@.len(),
                bsm.len() > 0,
                env0 == old(self)@,
                i <= bs@.len(),
                let_from(self@, bsm, i as int, fuel as nat) == let_from(env0, bsm, 0, fuel as nat),
            decreases bs@.len() - i,
        {
            assert(bsm[i as int] == expr_view(bs@[i as int]));
            let b: &'a Expr<'a> = &bs[i];
            let pair = match b {
                Expr::List(pair) => pair,
                _ => {
                    return Err(EvalError::NonListBindings);
                },
            };
            let ghost pm = expr_view(*b)->List_0;
            assert(pm.len() == pair@.len());
            if pair.len() != 2 {
                return Err(EvalError::WrongBindingArity(Arity::Static(2)));
            }
            assert(pm[0] == expr_view(pair@[0]));
            assert(pm[1] == expr_view(pair@[1]));
            let name: &'a str = match &pair[0] {
                Expr::Literal(Literal::Ident(n)) => *n,
                _ => {
                    return Err(EvalError::NonIdentListBinding(ExprTy::from(&pair[0])));
                },
            };
            let value_term = Term::Expr(&pair[1]);
            let v = match self.eval(&value_term, fuel) {
                Err(err) => {
                    return Err(err);
                },
                Ok(v) => v,
            };
            self.insert(name, v);
            i = i + 1;
        }
        if args.len() < 2 {
            return Err(EvalError::NoBody);
        }
        self.progn_terms(args, 1, fuel)
    }

    fn call_seq_rev(&mut self, args: &[Term<'a>], fuel: u64) -> (r: Result<Value<'a>, EvalError<'a>>)
        ensures
            (final(self)@, outcome_view(r)) == builtin(old(self)@, Builtin::SeqRev, terms_view(args@), fuel as nat),
        decreases fuel, 2nat, 0nat,
    {
        let ghost a = terms_view(args@);
        if args.len() != 1 {
            return Err(EvalError::WrongArity(Arity::Static(1)));
        }
        assert(a[0] == term_view(args@[0]));
        let v = match self.eval(&args[0], fuel) {
            Err(err) => {
                return Err(err);
            },
            Ok(v) => v,
        };
        let mut l = match as_list(v) {
            Err(err) => {
                return Err(err);
            },
            Ok(l) => l,
        };
        let ghost orig = values_view(l@);
        let mut out: Vec<Value<'a>> = Vec::new();
        while l.len() > 0
            invariant
                l@.len() <= orig.len(),
                values_view(l@) == orig.take(l@.len() as int),
                values_view(out@) == orig.skip(l@.len() as int).reverse(),
            decreases l@.len(),
        {
            let ghost lb = l@;
            let ghost ob = out@;
            let x = l.pop().unwrap();
            assert(values_view(l@) =~= orig.take(l@.len() as int)) by {
                assert(values_view(lb) == orig.take(lb.len() as int));
                assert forall|k: int| 0 <= k < l@.len() implies values_view(l@)[k] == orig.take(l@.len() as int)[k] by {
                    assert(values_view(lb)[k] == value_view(lb[k]));
                }
            }
            let ghost xv = value_view(x);
            assert(xv == orig[l@.len() as int]) by {
                assert(values_view(lb)[l@.len() as int] == value_view(lb[l@.len() as int]));
            }
            out.push(x);
            assert(values_view(out@) =~= orig.skip(l@.len() as int).reverse()) by {
                assert(values_view(out@) =~= values_view(ob).push(xv));
            }
        }
        assert(orig.skip(0) =~= orig);
        let r = Value::List(out);
        assert(value_view(r)->List_0 =~= values_view(out@));
        Ok(r)
    }

    fn call_path(&mut self, args: &[Term<'a>], fuel: u64) -> (r: Result<Value<'a>, EvalError<'a>>)
        ensures
            (final(self)@, outcome_view(r)) == builtin(old(self)@, Builtin::Path, terms_view(args@), fuel as nat),
        decreases fuel, 2nat, 0nat,
    {
        let n = if args.len() < 2 {
            args.len()
        } else {
            2
        };
        let mut rs = self.eval_each(args, n, fuel);
        if args.len() != 1 {
            return Err(EvalError::WrongArity(Arity::Static(1)));
        }
        let ghost rv = results_view(rs@);
        let r0 = rs.pop().unwrap();
        assert(rv[0] == outcome_view(r0));
        match r0 {
            Err(err) => Err(err),
            Ok(v) => match as_string(v) {
                Err(err) => Err(err),
                Ok(t) => Ok(Value::Path(t)),
            },
        }
    }

    fn call_path_name(&mut self, args: &[Term<'a>], fuel: u64) -> (r: Result<Value<'a>, EvalError<'a>>)
        ensures
            (final(self)@, outcome_view(r)) == builtin(old(self)@, Builtin::PathName, terms_view(args@), fuel as nat),
        decreases fuel, 2nat, 0nat,
    {
        let n = if args.len() < 2 {
            args.len()
        } else {
            2
        };
        let mut rs = self.eval_each(args, n, fuel);
        if args.len() != 1 {
            return Err(EvalError::WrongArity(Arity::Static(1)));
        }
        let ghost rv = results_view(rs@);
        let r0 = rs.pop().unwrap();
        assert(rv[0] == outcome_view(r0));
        match r0 {
            Err(err) => Err(err),
            Ok(Value::Path(p)) => Ok(Value::String(file_name(p.as_str()))),
            Ok(_) => Err(EvalError::WrongType(ValueKind::Path)),
        }
    }

    fn call_try_catch(&mut self, args: &[Term<'a>], fuel: u64) -> (r: Result<Value<'a>, EvalError<'a>>)
        ensures
            (final(self)@, outcome_view(r)) == builtin(old(self)@, Builtin::TryCatch, terms_view(args@), fuel as nat),
        decreases fuel, 2nat, 0nat,
    {
        if args.len() != 2 {
            return Err(EvalError::WrongArity(Arity::Static(2)));
        }
        let mut rs = self.eval_each(args, 2, fuel);
        let ghost rv = results_view(rs@);
        let r1 = rs.pop().unwrap();
        let r0 = rs.pop().unwrap();
        assert(rv[0] == outcome_view(r0));
        assert(rv[1] == outcome_view(r1));
        let c0 = match r0 {
            Ok(v) => as_fn(v),
            Err(err) => Err(err),
        };
        let c1 = match r1 {
            Ok(v) => as_fn(v),
            Err(err) => Err(err),
        };
        let (success, failure) = match (c0, c1) {
            (Err(err), _) => {
                return Err(err);
            },
            (_, Err(err)) => {
                return Err(err);
            },
            (Ok(s), Ok(f)) => (s, f),
        };
        if fuel == 0 {
            return Err(EvalError::OutOfFuel);
        }
        let none: Vec<Term<'a>> = Vec::new();
        assert(terms_view(none@) =~= Seq::<TermModel>::empty());
        match self.apply(&success, none.as_slice(), fuel - 1) {
            Ok(v) => Ok(v),
            Err(_) => self.apply(&failure, none.as_slice(), fuel - 1),
        }
    }
}


impl<'a> Environment<'a> {
    /// Calls `f` on the one value `x`.
    fn call_one(&mut self, f: &Function<'a>, x: &Value<'a>, fuel: u64) -> (r: Result<Value<'a>, EvalError<'a>>)
        ensures
            (final(self)@, outcome_view(r)) == apply(old(self)@, fn_view(*f), seq![TermModel::Value(value_view(*x))], fuel as nat),
        decreases fuel, 5nat, 0nat,
    {
        let mut args: Vec<Term<'a>> = Vec::new();
        args.push(Term::Value(clone_value(x)));
        assert(terms_view(args@) =~= seq![TermModel::Value(value_view(*x))]);
        self.apply(f, args.as_slice(), fuel)
    }

    /// Calls `f` on the two values `x` and `y`.
    fn call_two(&mut self, f: &Function<'a>, x: Value<'a>, y: &Value<'a>, fuel: u64) -> (r: Result<Value<'a>, EvalError<'a>>)
        ensures
            (final(self)@, outcome_view(r)) == apply(
                old(self)@,
                fn_view(*f),
                seq![TermModel::Value(value_view(x)), TermModel::Value(value_view(*y))],
                fuel as nat,
            ),
        decreases fuel, 5nat, 0nat,
    {
        let ghost xv = value_view(x);
        let mut args: Vec<Term<'a>> = Vec::new();
        args.push(Term::Value(x));
        args.push(Term::Value(clone_value(y)));
        assert(terms_view(args@) =~= seq![TermModel::Value(xv), TermModel::Value(value_view(*y))]);
        self.apply(f, args.as_slice(), fuel)
    }

    /// Maps `f` over `items` (see [map_from]).
    fn seq_map(&mut self, f: &Function<'a>, items: &Vec<Value<'a>>, fuel: u64) -> (r: Result<Value<'a>, EvalError<'a>>)
        ensures
            (final(self)@, outcome_view(r)) == list_outcome(map_from(old(self)@, fn_view(*f), values_view(items@), 0, fuel as nat)),
        decreases fuel, 1nat, 0nat,
    {
        let ghost fm = fn_view(*f);
        let ghost im = values_view(items@);
        let ghost env0 = self@;
        let mut out: Vec<Value<'a>> = Vec::new();
        let mut i: usize = 0;
        assert(values_view(out@) =~= Seq::<ValueModel>::empty());
        while i < items.len()
            invariant
                fm == fn_view(*f),
                im == values_view(items@),
                env0 == old(self)@,
                i <= items@.len(),
                map_from(env0, fm, im, 0, fuel as nat) == prefixed(values_view(out@), map_from(self@, fm, im, i as int, fuel as nat)),
            decreases items@.len() - i,
        {
            if fuel == 0 {
                return Err(EvalError::OutOfFuel);
            }
            assert(im[i as int] == value_view(items@[i as int]));
            let ghost ob = values_view(out@);
            match self.call_one(f, &items[i], fuel - 1) {
                Err(err) => {
                    return Err(err);
                },
                Ok(v) => {
                    let ghost vv = value_view(v);
                    out.push(v);
                    assert(values_view(out@) =~= ob + seq![vv]);
                    proof {
                        let rest = map_from(self@, fm, im, i + 1, fuel as nat);
                        if let Ok(vs) = rest.1 {
                            assert(ob + (seq![vv] + vs) =~= (ob + seq![vv]) + vs);
                        }
                    }
                },
            }
            i = i + 1;
        }
        assert(values_view(out@) + Seq::<ValueModel>::empty() =~= values_view(out@));
        let r = Value::List(out);
        assert(value_view(r)->List_0 =~= values_view(out@));
        Ok(r)
    }

    /// Keeps the items of `items` that `f` holds of (see [filter_from]).
    fn seq_filter(&mut self, f: &Function<'a>, items: &Vec<Value<'a>>, fuel: u64) -> (r: Result<Value<'a>, EvalError<'a>>)
        ensures
            (final(self)@, outcome_view(r)) == list_outcome(filter_from(old(self)@, fn_view(*f), values_view(items@), 0, fuel as nat)),
        decreases fuel, 1nat, 0nat,
    {
        let ghost fm = fn_view(*f);
        let ghost im = values_view(items@);
        let ghost env0 = self@;
        let mut out: Vec<Value<'a>> = Vec::new();
        let mut i: usize = 0;
        assert(values_view(out@) =~= Seq::<ValueModel>::empty());
        while i < items.len()
            invariant
                fm == fn_view(*f),
                im == values_view(items@),
                env0 == old(self)@,
                i <= items@.len(),
                filter_from(env0, fm, im, 0, fuel as nat) == prefixed(values_view(out@), filter_from(self@, fm, im, i as int, fuel as nat)),
            decreases items@.len() - i,
        {
            if fuel == 0 {
                return Err(EvalError::OutOfFuel);
            }
            assert(im[i as int] == value_view(items@[i as int]));
            let ghost ob = values_view(out@);
            let v = match self.call_one(f, &items[i], fuel - 1) {
                Err(err) => {
                    return Err(err);
                },
                Ok(v) => v,
            };
            let keep = match as_bool(v) {
                Err(err) => {
                    return Err(err);
                },
                Ok(keep) => keep,
            };
            if keep {
                out.push(clone_value(&items[i]));
                assert(values_view(out@) =~= ob + seq![im[i as int]]);
                proof {
                    let rest = filter_from(self@, fm, im, i + 1, fuel as nat);
                    if let Ok(vs) = rest.1 {
                        assert(ob + (seq![im[i as int]] + vs) =~= (ob + seq![im[i as int]]) + vs);
                    }
                }
            }
            i = i + 1;
        }
        assert(values_view(out@) + Seq::<ValueModel>::empty() =~= values_view(out@));
        let r = Value::List(out);
        assert(value_view(r)->List_0 =~= values_view(out@));
        Ok(r)
    }

    /// Joins the lists that `f` maps the items of `items` to (see
    /// [flat_map_from]).
    fn seq_flat_map(&mut self, f: &Function<'a>, items: &Vec<Value<'a>>, fuel: u64) -> (r: Result<Value<'a>, EvalError<'a>>)
        ensures
            (final(self)@, outcome_view(r)) == list_outcome(flat_map_from(old(self)@, fn_view(*f), values_view(items@), 0, fuel as nat)),
        decreases fuel, 1nat, 0nat,
    {
        let ghost fm = fn_view(*f);
        let ghost im = values_view(items@);
        let ghost env0 = self@;
        let mut out: Vec<Value<'a>> = Vec::new();
        let mut i: usize = 0;
        assert(values_view(out@) =~= Seq::<ValueModel>::empty());
        while i < items.len()
            invariant
                fm == fn_view(*f),
                im == values_view(items@),
                env0 == old(self)@,
                i <= items@.len(),
                flat_map_from(env0, fm, im, 0, fuel as nat) == prefixed(values_view(out@), flat_map_from(self@, fm, im, i as int, fuel as nat)),
            decreases items@.len() - i,
        {
            if fuel == 0 {
                return Err(EvalError::OutOfFuel);
            }
            assert(im[i as int] == value_view(items@[i as int]));
            let ghost ob = values_view(out@);
            let v = match self.call_one(f, &items[i], fuel - 1) {
                Err(err) => {
                    return Err(err);
                },
                Ok(v) => v,
            };
            let mut l = match as_list(v) {
                Err(err) => {
                    return Err(err);
                },
                Ok(l) => l,
            };
            let ghost lv = values_view(l@);
            out.append(&mut l);
            assert(values_view(out@) =~= ob + lv);
            proof {
                let rest = flat_map_from(self@, fm, im, i + 1, fuel as nat);
                if let Ok(vs) = rest.1 {
                    assert(ob + (lv + vs) =~= (ob + lv) + vs);
                }
            }
            i = i + 1;
        }
        assert(values_view(out@) + Seq::<ValueModel>::empty() =~= values_view(out@));
        let r = Value::List(out);
        assert(value_view(r)->List_0 =~= values_view(out@));
        Ok(r)
    }

    /// The first item of `items` that `f` holds of (see [find_from]).
    fn seq_find(&mut self, f: &Function<'a>, items: &Vec<Value<'a>>, fuel: u64) -> (r: Result<Value<'a>, EvalError<'a>>)
        ensures
            (final(self)@, outcome_view(r)) == find_from(old(self)@, fn_view(*f), values_view(items@), 0, fuel as nat),
        decreases fuel, 1nat, 0nat,
    {
        let ghost fm = fn_view(*f);
        let ghost im = values_view(items@);
        let mut i: usize = 0;
        while i < items.len()
            invariant
                fm == fn_view(*f),
                im == values_view(items@),
                i <= items@.len(),
                find_from(old(self)@, fm, im, 0, fuel as nat) == find_from(self@, fm, im, i as int, fuel as nat),
            decreases items@.len() - i,
        {
            if fuel == 0 {
                return Err(EvalError::OutOfFuel);
            }
            assert(im[i as int] == value_view(items@[i as int]));
            let v = match self.call_one(f, &items[i], fuel - 1) {
                Err(err) => {
                    return Err(err);
                },
                Ok(v) => v,
            };
            match as_bool(v) {
                Err(err) => {
                    return Err(err);
                },
                Ok(true) => {
                    return Ok(clone_value(&items[i]));
                },
                Ok(false) => {},
            }
            i = i + 1;
        }
        Ok(Value::Unit)
    }

    /// Folds `f` over `items` from `acc` (see [fold_from]).
    fn seq_fold(&mut self, f: &Function<'a>, items: &Vec<Value<'a>>, init: Value<'a>, fuel: u64) -> (r: Result<Value<'a>, EvalError<'a>>)
        ensures
            (final(self)@, outcome_view(r)) == fold_from(old(self)@, fn_view(*f), values_view(items@), 0, value_view(init), fuel as nat),
        decreases fuel, 1nat, 0nat,
    {
        let ghost fm = fn_view(*f);
        let ghost im = values_view(items@);
        let ghost acc0 = value_view(init);
        let mut acc = init;
        let mut i: usize = 0;
        while i < items.len()
            invariant
                fm == fn_view(*f),
                im == values_view(items@),
                i <= items@.len(),
                acc0 == value_view(init),
                fold_from(old(self)@, fm, im, 0, acc0, fuel as nat) == fold_from(self@, fm, im, i as int, value_view(acc), fuel as nat),
            decreases items@.len() - i,
        {
            if fuel == 0 {
                return Err(EvalError::OutOfFuel);
            }
            assert(im[i as int] == value_view(items@[i as int]));
            acc = match self.call_two(f, acc, &items[i], fuel - 1) {
                Err(err) => {
                    return Err(err);
                },
                Ok(v) => v,
            };
            i = i + 1;
        }
        Ok(acc)
    }

    /// The sequence functions (see the last case of [builtin]).
    fn call_seq(&mut self, b: Builtin, args: &[Term<'a>], fuel: u64) -> (r: Result<Value<'a>, EvalError<'a>>)
        requires
            is_seq_fn(b),
        ensures
            (final(self)@, outcome_view(r)) == builtin(old(self)@, b, terms_view(args@), fuel as nat),
        decreases fuel, 2nat, 0nat,
    {
        let ghost a = terms_view(args@);
        let fold = b == Builtin::SeqFold;
        let arity = if fold {
            Arity::Static(3)
        } else {
            Arity::Static(2)
        };
        let k: usize = if fold {
            3
        } else {
            2
        };
        if args.len() == 0 {
            return Err(EvalError::WrongArity(arity));
        }
        assert(a[0] == term_view(args@[0]));
        let fv = match self.eval(&args[0], fuel) {
            Err(err) => {
                return Err(err);
            },
            Ok(v) => v,
        };
        let f = match as_fn(fv) {
            Err(err) => {
                return Err(err);
            },
            Ok(f) => f,
        };
        if args.len() < 2 {
            return Err(EvalError::WrongArity(arity));
        }
        assert(a[1] == term_view(args@[1]));
        let lv = match self.eval(&args[1], fuel) {
            Err(err) => {
                return Err(err);
            },
            Ok(v) => v,
        };
        let items = match as_list(lv) {
            Err(err) => {
                return Err(err);
            },
            Ok(l) => l,
        };
        if fold {
            if args.len() < 3 {
                return Err(EvalError::WrongArity(arity));
            }
            assert(a[2] == term_view(args@[2]));
            let acc = match self.eval(&args[2], fuel) {
                Err(err) => {
                    return Err(err);
                },
                Ok(v) => v,
            };
            if args.len() > 3 {
                return Err(EvalError::WrongArity(arity));
            }
            return self.seq_fold(&f, &items, acc, fuel);
        }
        if args.len() > k {
            return Err(EvalError::WrongArity(arity));
        }
        match b {
            Builtin::SeqFilter => self.seq_filter(&f, &items, fuel),
            Builtin::SeqFind => self.seq_find(&f, &items, fuel),
            Builtin::SeqFlatMap => self.seq_flat_map(&f, &items, fuel),
            _ => self.seq_map(&f, &items, fuel),
        }
    }
}


impl<'a> Environment<'a> {
    fn call_set_cfg(&mut self, args: &[Term<'a>], fuel: u64) -> (r: Result<Value<'a>, EvalError<'a>>)
        ensures
            (final(self)@, outcome_view(r)) == builtin(old(self)@, Builtin::SetCfg, terms_view(args@), fuel as nat),
        decreases fuel, 2nat, 0nat,
    {
        let ghost a = terms_view(args@);
        if args.len() != 2 {
            return Err(EvalError::WrongArity(Arity::Static(2)));
        }
        assert(a[0] == term_view(args@[0]));
        assert(a[1] == term_view(args@[1]));
        let fv = match self.eval(&args[0], fuel) {
            Err(err) => {
                return Err(err);
            },
            Ok(v) => v,
        };
        let field = match as_string(fv) {
            Err(err) => {
                return Err(err);
            },
            Ok(t) => t,
        };
        let v = match self.eval(&args[1], fuel) {
            Err(err) => {
                return Err(err);
            },
            Ok(v) => v,
        };
        let mut config = IntermediateConfig::new();
        proof {
            use_type_invariant(&*self);
        }
        std::mem::swap(&mut config, &mut self.config);
        let r = set_cfg(&mut config, field.as_str(), &v);
        self.config = config;
        match r {
            Err(err) => Err(err),
            Ok(()) => Ok(Value::Unit),
        }
    }
}


/// `b` has the frames of `a`, but for the innermost one, which may differ.
pub open spec fn same_outer(a: EnvModel, b: EnvModel) -> bool {
    &&& a.frames.len() >= 1
    &&& b.frames.len() == a.frames.len()
    &&& b.frames.drop_last() == a.frames.drop_last()
}

proof fn lemma_insert_same_outer(env: EnvModel, name: Seq<char>, v: ValueModel)
    requires
        env.frames.len() >= 1,
    ensures
        same_outer(env, env_insert(env, name, v)),
{
    assert(env_insert(env, name, v).frames.drop_last() =~= env.frames.drop_last());
}

/// Evaluation leaves the frames of bindings as they were: an application
/// binds its names in a frame of its own, which is dropped when it
/// returns. (Only the configuration that `set-cfg!` sets may change.)
pub proof fn law_eval_restores_frames(env: EnvModel, t: TermModel, fuel: nat)
    requires
        env.frames.len() >= 1,
    ensures
        eval(env, t, fuel).0.frames == env.frames,
    decreases fuel, 0nat, 0nat,
{
    if fuel > 0 {
        if let TermModel::Expr(ExprModel::List(items)) = t {
            if items.len() > 0 {
                let h = eval(env, TermModel::Expr(items[0]), (fuel - 1) as nat);
                law_eval_restores_frames(env, TermModel::Expr(items[0]), (fuel - 1) as nat);
                if let Ok(ValueModel::Fn(f)) = h.1 {
                    let e1 = env_push(h.0);
                    lemma_apply_frames(e1, f, tail_terms(items), (fuel - 1) as nat);
                    let e2 = apply(e1, f, tail_terms(items), (fuel - 1) as nat).0;
                    assert(e1.frames.drop_last() =~= h.0.frames);
                    assert(env_pop(e2).frames =~= env.frames);
                }
            }
        }
    }
}

proof fn lemma_progn_frames(env: EnvModel, body: Seq<TermModel>, i: int, last: ValueModel, fuel: nat)
    requires
        env.frames.len() >= 1,
    ensures
        progn_from(env, body, i, last, fuel).0.frames == env.frames,
    decreases fuel, 1nat, (if i < body.len() { body.len() - i } else { 0 }),
{
    if 0 <= i < body.len() {
        let (env1, r) = eval(env, body[i], fuel);
        law_eval_restores_frames(env, body[i], fuel);
        if let Ok(v) = r {
            lemma_progn_frames(env1, body, i + 1, v, fuel);
        }
    }
}

proof fn lemma_eval_each_frames(env: EnvModel, args: Seq<TermModel>, i: int, n: int, fuel: nat)
    requires
        env.frames.len() >= 1,
    ensures
        eval_each(env, args, i, n, fuel).0.frames == env.frames,
    decreases fuel, 1nat, (if i < n { n - i } else { 0 }),
{
    if 0 <= i && i < n && i < args.len() {
        let (env1, r) = eval(env, args[i], fuel);
        law_eval_restores_frames(env, args[i], fuel);
        lemma_eval_each_frames(env1, args, i + 1, n, fuel);
    }
}

proof fn lemma_math_frames(env: EnvModel, op: MathOp, args: Seq<TermModel>, i: int, acc: i32, fuel: nat)
    requires
        env.frames.len() >= 1,
    ensures
        math_from(env, op, args, i, acc, fuel).0.frames == env.frames,
    decreases fuel, 1nat, (if i < args.len() { args.len() - i } else { 0 }),
{
    if 0 <= i < args.len() {
        let (env1, r) = eval(env, args[i], fuel);
        law_eval_restores_frames(env, args[i], fuel);
        if let Ok(v) = r {
            if let Ok(x) = to_int(v) {
                if let Some(y) = math(op, acc, x) {
                    lemma_math_frames(env1, op, args, i + 1, y, fuel);
                }
            }
        }
    }
}

proof fn lemma_concat_frames(env: EnvModel, args: Seq<TermModel>, i: int, acc: Seq<char>, fuel: nat)
    requires
        env.frames.len() >= 1,
    ensures
        concat_from(env, args, i, acc, fuel).0.frames == env.frames,
    decreases fuel, 1nat, (if i < args.len() { args.len() - i } else { 0 }),
{
    if 0 <= i < args.len() {
        let (env1, r) = eval(env, args[i], fuel);
        law_eval_restores_frames(env, args[i], fuel);
        if let Ok(v) = r {
            if let Ok(t) = to_str(v) {
                lemma_concat_frames(env1, args, i + 1, acc + t, fuel);
            }
        }
    }
}

proof fn lemma_list_frames(env: EnvModel, args: Seq<TermModel>, k: int, acc: Seq<ValueModel>, fuel: nat)
    requires
        env.frames.len() >= 1,
    ensures
        list_from(env, args, k, acc, fuel).0.frames == env.frames,
    decreases fuel, 1nat, (if k > 0 { k } else { 0 }),
{
    if 0 < k <= args.len() {
        let (env1, r) = eval(env, args[k - 1], fuel);
        law_eval_restores_frames(env, args[k - 1], fuel);
        if let Ok(v) = r {
            lemma_list_frames(env1, args, k - 1, seq![v] + acc, fuel);
        }
    }
}

proof fn lemma_bind_frames(env: EnvModel, args: Seq<TermModel>, params: Seq<Seq<char>>, i: int, fuel: nat)
    requires
        env.frames.len() >= 1,
    ensures
        same_outer(env, bind_from(env, args, params, i, fuel).0),
    decreases fuel, 1nat, (if i < args.len() + params.len() { args.len() + params.len() - i } else { 0 }),
{
    if 0 <= i && i < args.len() && i < params.len() {
        let (env1, r) = eval(env, args[i], fuel);
        law_eval_restores_frames(env, args[i], fuel);
        if let Ok(v) = r {
            let env2 = env_insert(env1, params[i], v);
            lemma_insert_same_outer(env1, params[i], v);
            lemma_bind_frames(env2, args, params, i + 1, fuel);
        }
    }
}

proof fn lemma_let_frames(env: EnvModel, bs: Seq<ExprModel>, i: int, fuel: nat)
    requires
        env.frames.len() >= 1,
    ensures
        same_outer(env, let_from(env, bs, i, fuel).0),
    decreases fuel, 1nat, (if i < bs.len() { bs.len() - i } else { 0 }),
{
    if 0 <= i < bs.len() {
        if let ExprModel::List(pair) = bs[i] {
            if pair.len() == 2 {
                if let ExprModel::Literal(LiteralModel::Ident(name)) = pair[0] {
                    let (env1, r) = eval(env, TermModel::Expr(pair[1]), fuel);
                    law_eval_restores_frames(env, TermModel::Expr(pair[1]), fuel);
                    if let Ok(v) = r {
                        let env2 = env_insert(env1, name, v);
                        lemma_insert_same_outer(env1, name, v);
                        lemma_let_frames(env2, bs, i + 1, fuel);
                    }
                }
            }
        }
    }
}

proof fn lemma_map_frames(env: EnvModel, f: FnModel, items: Seq<ValueModel>, i: int, fuel: nat)
    requires
        env.frames.len() >= 1,
    ensures
        same_outer(env, map_from(env, f, items, i, fuel).0),
    decreases fuel, 1nat, (if i < items.len() { items.len() - i } else { 0 }),
{
    if 0 <= i < items.len() && fuel > 0 {
        let (env1, r) = apply(env, f, seq![TermModel::Value(items[i])], (fuel - 1) as nat);
        lemma_apply_frames(env, f, seq![TermModel::Value(items[i])], (fuel - 1) as nat);
        if let Ok(v) = r {
            lemma_map_frames(env1, f, items, i + 1, fuel);
        }
    }
}

proof fn lemma_find_frames(env: EnvModel, f: FnModel, items: Seq<ValueModel>, i: int, fuel: nat)
    requires
        env.frames.len() >= 1,
    ensures
        same_outer(env, find_from(env, f, items, i, fuel).0),
    decreases fuel, 1nat, (if i < items.len() { items.len() - i } else { 0 }),
{
    if 0 <= i < items.len() && fuel > 0 {
        let (env1, r) = apply(env, f, seq![TermModel::Value(items[i])], (fuel - 1) as nat);
        lemma_apply_frames(env, f, seq![TermModel::Value(items[i])], (fuel - 1) as nat);
        if let Ok(v) = r {
            if let Ok(false) = to_bool(v) {
                lemma_find_frames(env1, f, items, i + 1, fuel);
            }
        }
    }
}

proof fn lemma_fold_frames(env: EnvModel, f: FnModel, items: Seq<ValueModel>, i: int, acc: ValueModel, fuel: nat)
    requires
        env.frames.len() >= 1,
    ensures
        same_outer(env, fold_from(env, f, items, i, acc, fuel).0),
    decreases fuel, 1nat, (if i < items.len() { items.len() - i } else { 0 }),
{
    if 0 <= i < items.len() && fuel > 0 {
        let a = seq![TermModel::Value(acc), TermModel::Value(items[i])];
        let (env1, r) = apply(env, f, a, (fuel - 1) as nat);
        lemma_apply_frames(env, f, a, (fuel - 1) as nat);
        if let Ok(v) = r {
            lemma_fold_frames(env1, f, items, i + 1, v, fuel);
        }
    }
}

proof fn lemma_filter_frames(env: EnvModel, f: FnModel, items: Seq<ValueModel>, i: int, fuel: nat)
    requires
        env.frames.len() >= 1,
    ensures
        same_outer(env, filter_from(env, f, items, i, fuel).0),
    decreases fuel, 1nat, (if i < items.len() { items.len() - i } else { 0 }),
{
    if 0 <= i < items.len() && fuel > 0 {
        let (env1, r) = apply(env, f, seq![TermModel::Value(items[i])], (fuel - 1) as nat);
        lemma_apply_frames(env, f, seq![TermModel::Value(items[i])], (fuel - 1) as nat);
        if let Ok(v) = r {
            if let Ok(keep) = to_bool(v) {
                lemma_filter_frames(env1, f, items, i + 1, fuel);
            }
        }
    }
}

proof fn lemma_flat_map_frames(env: EnvModel, f: FnModel, items: Seq<ValueModel>, i: int, fuel: nat)
    requires
        env.frames.len() >= 1,
    ensures
        same_outer(env, flat_map_from(env, f, items, i, fuel).0),
    decreases fuel, 1nat, (if i < items.len() { items.len() - i } else { 0 }),
{
    if 0 <= i < items.len() && fuel > 0 {
        let (env1, r) = apply(env, f, seq![TermModel::Value(items[i])], (fuel - 1) as nat);
        lemma_apply_frames(env, f, seq![TermModel::Value(items[i])], (fuel - 1) as nat);
        if let Ok(v) = r {
            if let Ok(l) = to_list(v) {
                lemma_flat_map_frames(env1, f, items, i + 1, fuel);
            }
        }
    }
}

proof fn lemma_apply_frames(env: EnvModel, f: FnModel, args: Seq<TermModel>, fuel: nat)
    requires
        env.frames.len() >= 1,
    ensures
        same_outer(env, apply(env, f, args, fuel).0),
    decreases fuel, 3nat, 0nat,
{
    match f {
        FnModel::Builtin(b) => lemma_builtin_frames(env, b, args, fuel),
        FnModel::Lambda(params, body) => {
            let (env1, r) = bind_from(env, args, params, 0, fuel);
            lemma_bind_frames(env, args, params, 0, fuel);
            if r is Ok && body.len() > 0 {
                lemma_progn_frames(env1, expr_terms(body), 0, ValueModel::Unit, fuel);
            }
        },
    }
}

proof fn lemma_builtin_frames(env: EnvModel, b: Builtin, args: Seq<TermModel>, fuel: nat)
    requires
        env.frames.len() >= 1,
    ensures
        same_outer(env, builtin(env, b, args, fuel).0),
    decreases fuel, 2nat, 0nat,
{
    if args.len() > 0 {
        law_eval_restores_frames(env, args[0], fuel);
    }
    match b {
        Builtin::Add | Builtin::Sub | Builtin::Div | Builtin::Mul | Builtin::Rem => if args.len() >= 2 {
            let (env1, r) = eval(env, args[0], fuel);
            if let Ok(v) = r {
                if let Ok(x) = to_int(v) {
                    lemma_math_frames(env1, op_of(b), args, 1, x, fuel);
                }
            }
        },
        Builtin::Concat => if args.len() > 0 {
            let (env1, r) = eval(env, args[0], fuel);
            if let Ok(v) = r {
                if let Ok(t) = to_str(v) {
                    lemma_concat_frames(env1, args, 1, t, fuel);
                }
            }
        },
        Builtin::Cons => {
            let n = if args.len() < 3 { args.len() as int } else { 3 };
            lemma_eval_each_frames(env, args, 0, n, fuel);
        },
        Builtin::If => if 2 <= args.len() <= 3 {
            let (env1, r) = eval(env, args[0], fuel);
            law_eval_restores_frames(env1, args[1], fuel);
            if args.len() == 3 {
                law_eval_restores_frames(env1, args[2], fuel);
            }
        },
        Builtin::Let => if args.len() > 0 {
            if let TermModel::Expr(ExprModel::List(bs)) = args[0] {
                if bs.len() > 0 {
                    let (env1, r) = let_from(env, bs, 0, fuel);
                    lemma_let_frames(env, bs, 0, fuel);
                    if r is Ok && args.len() >= 2 {
                        lemma_progn_frames(env1, args, 1, ValueModel::Unit, fuel);
                    }
                }
            }
        },
        Builtin::List => lemma_list_frames(env, args, args.len() as int, Seq::empty(), fuel),
        Builtin::Progn => if args.len() > 0 {
            lemma_progn_frames(env, args, 0, ValueModel::Unit, fuel);
        },
        Builtin::Path | Builtin::PathName | Builtin::Env | Builtin::PathChildren => {
            let n = if args.len() < 2 { args.len() as int } else { 2 };
            lemma_eval_each_frames(env, args, 0, n, fuel);
        },
        Builtin::TryCatch => if args.len() == 2 {
            let (env1, rs) = eval_each(env, args, 0, 2, fuel);
            lemma_eval_each_frames(env, args, 0, 2, fuel);
            assert(rs.len() == 2) by {
                reveal_with_fuel(eval_each, 3);
            }
            let c0 = match rs[0] { Ok(v) => to_fn(v), Err(e) => Err(e) };
            let c1 = match rs[1] { Ok(v) => to_fn(v), Err(e) => Err(e) };
            if let (Ok(success), Ok(failure)) = (c0, c1) {
                if fuel > 0 {
                    let (env2, r) = apply(env1, success, Seq::empty(), (fuel - 1) as nat);
                    lemma_apply_frames(env1, success, Seq::empty(), (fuel - 1) as nat);
                    lemma_apply_frames(env2, failure, Seq::empty(), (fuel - 1) as nat);
                }
            }
        },
        Builtin::SetCfg => if args.len() == 2 {
            let (env1, r) = eval(env, args[0], fuel);
            law_eval_restores_frames(env1, args[1], fuel);
        },
        Builtin::PathExists | Builtin::PathIsDir | Builtin::PathIsFile => if args.len() > 0 {
            lemma_path_flags_frames(env, question_of(b), args, 0, fuel);
        },
        Builtin::Lambda | Builtin::Nil | Builtin::Not | Builtin::SeqRev | Builtin::PathSeparator => {},
        _ => if args.len() >= 2 {
            let (env1, r) = eval(env, args[0], fuel);
            law_eval_restores_frames(env1, args[1], fuel);
            let (env2, r2) = eval(env1, args[1], fuel);
            if let (Ok(fv), Ok(lv)) = (r, r2) {
                if let (Ok(f), Ok(items)) = (to_fn(fv), to_list(lv)) {
                    if b == Builtin::SeqFold {
                        if args.len() >= 3 {
                            let (env3, r3) = eval(env2, args[2], fuel);
                            law_eval_restores_frames(env2, args[2], fuel);
                            if let Ok(acc) = r3 {
                                lemma_fold_frames(env3, f, items, 0, acc, fuel);
                            }
                        }
                    } else {
                        lemma_filter_frames(env2, f, items, 0, fuel);
                        lemma_find_frames(env2, f, items, 0, fuel);
                        lemma_flat_map_frames(env2, f, items, 0, fuel);
                        lemma_map_frames(env2, f, items, 0, fuel);
                    }
                }
            }
        },
    }
}


/// The terms that hand the values `vs` to a function.
pub open spec fn value_terms(vs: Seq<ValueModel>) -> Seq<TermModel> {
    Seq::new(vs.len(), |i: int| TermModel::Value(vs[i]))
}

/// `seq-fold` calls its function with the accumulator first and the item
/// second, and each call's value is the accumulator of the next: folding
/// `f` over `(x)` from `acc` has the outcome of `(f acc x)`, and over
/// `(x y)` that of `(f (f acc x) y)`, the second call made in the
/// environment the first one left.
pub proof fn law_fold_accumulator_first(env: EnvModel, f: FnModel, x: ValueModel, y: ValueModel, acc: ValueModel, fuel: nat)
    requires
        fuel > 0,
    ensures
        builtin(env, Builtin::SeqFold, value_terms(seq![ValueModel::Fn(f), ValueModel::List(seq![x]), acc]), fuel)
            == apply(env, f, value_terms(seq![acc, x]), (fuel - 1) as nat),
        builtin(env, Builtin::SeqFold, value_terms(seq![ValueModel::Fn(f), ValueModel::List(seq![x, y]), acc]), fuel)
            == (match apply(env, f, value_terms(seq![acc, x]), (fuel - 1) as nat) {
                (env1, Ok(v)) => apply(env1, f, value_terms(seq![v, y]), (fuel - 1) as nat),
                (env1, Err(e)) => (env1, Err(e)),
            }),
{
    reveal_with_fuel(fold_from, 3);
    let one = value_terms(seq![ValueModel::Fn(f), ValueModel::List(seq![x]), acc]);
    let two = value_terms(seq![ValueModel::Fn(f), ValueModel::List(seq![x, y]), acc]);
    assert(value_terms(seq![acc, x]) =~= seq![TermModel::Value(acc), TermModel::Value(x)]);
    assert(one[0] == TermModel::Value(ValueModel::Fn(f)));
    assert(one[1] == TermModel::Value(ValueModel::List(seq![x])));
    assert(one[2] == TermModel::Value(acc));
    assert(two[0] == TermModel::Value(ValueModel::Fn(f)));
    assert(two[1] == TermModel::Value(ValueModel::List(seq![x, y])));
    assert(two[2] == TermModel::Value(acc));
    assert(eval(env, one[0], fuel) == (env, Ok::<ValueModel, ErrorModel>(ValueModel::Fn(f))));
    assert(eval(env, one[1], fuel) == (env, Ok::<ValueModel, ErrorModel>(ValueModel::List(seq![x]))));
    assert(eval(env, one[2], fuel) == (env, Ok::<ValueModel, ErrorModel>(acc)));
    assert(builtin(env, Builtin::SeqFold, one, fuel) == fold_from(env, f, seq![x], 0, acc, fuel));
    assert(eval(env, two[0], fuel) == (env, Ok::<ValueModel, ErrorModel>(ValueModel::Fn(f))));
    assert(eval(env, two[1], fuel) == (env, Ok::<ValueModel, ErrorModel>(ValueModel::List(seq![x, y]))));
    assert(eval(env, two[2], fuel) == (env, Ok::<ValueModel, ErrorModel>(acc)));
    assert(builtin(env, Builtin::SeqFold, two, fuel) == fold_from(env, f, seq![x, y], 0, acc, fuel));
    let (env1, r) = apply(env, f, value_terms(seq![acc, x]), (fuel - 1) as nat);
    assert(seq![x][0] == x && seq![x, y][0] == x && seq![x, y][1] == y);
    if let Ok(v) = r {
        assert(value_terms(seq![v, y]) =~= seq![TermModel::Value(v), TermModel::Value(y)]);
    }
}

/// A name bound by [env_insert] is then found with the value it was bound
/// to; every other name keeps the value it had.
pub proof fn law_get_after_insert(env: EnvModel, name: Seq<char>, other: Seq<char>, v: ValueModel)
    requires
        env.frames.len() >= 1,
    ensures
        env_get(env_insert(env, name, v), name) == Some(v),
        other != name ==> env_get(env_insert(env, name, v), other) == env_get(env, other),
{
    let fs = env.frames;
    let last = fs.last().push((name, v));
    let after = env_insert(env, name, v).frames;
    assert(after.last() == last);
    assert(after.drop_last() =~= fs.drop_last());
    assert(last.last() == (name, v));
    assert(last.drop_last() =~= fs.last());
}


/// Whether two values are equal: units, booleans, integers, texts and
/// paths by what they hold, lists item by item; functions are never equal,
/// not even to themselves.
pub open spec fn value_eq(a: ValueModel, b: ValueModel) -> bool
    decreases a, 0nat,
{
    match a {
        ValueModel::Unit => b is Unit,
        ValueModel::Bool(x) => b matches ValueModel::Bool(y) && x == y,
        ValueModel::Int(x) => b matches ValueModel::Int(y) && x == y,
        ValueModel::Str(x) => b matches ValueModel::Str(y) && x == y,
        ValueModel::Path(x) => b matches ValueModel::Path(y) && x == y,
        ValueModel::List(l) => match b {
            ValueModel::List(r) => l.len() == r.len() && items_eq_from(l, r, 0),
            _ => false,
        },
        ValueModel::Fn(_) => false,
    }
}

/// Whether the items of `l` and `r` from `i` on are equal, pair by pair
/// (see [value_eq]).
pub open spec fn items_eq_from(l: Seq<ValueModel>, r: Seq<ValueModel>, i: int) -> bool
    decreases l, (if i < l.len() { l.len() - i } else { 0 }),
{
    if i < 0 || i >= l.len() || i >= r.len() {
        true
    } else {
        value_eq(l[i], r[i]) && items_eq_from(l, r, i + 1)
    }
}

impl<'a> Value<'a> {
    /// Whether `self` and `other` are equal (see [value_eq]).
    pub fn equals(&self, other: &Value<'a>) -> (r: bool)
        ensures
            r == value_eq(value_view(*self), value_view(*other)),
        decreases self,
    {
        match (self, other) {
            (Value::Unit, Value::Unit) => true,
            (Value::Bool(x), Value::Bool(y)) => *x == *y,
            (Value::Int(x), Value::Int(y)) => *x == *y,
            (Value::String(x), Value::String(y)) => str_eq(x.as_str(), y.as_str()),
            (Value::Path(x), Value::Path(y)) => str_eq(x.as_str(), y.as_str()),
            (Value::List(l), Value::List(r)) => {
                let ghost lv = value_view(*self)->List_0;
                let ghost rv = value_view(*other)->List_0;
                assert(lv =~= values_view(l@));
                assert(rv =~= values_view(r@));
                assert(value_view(*self) == ValueModel::List(lv));
                assert(value_view(*other) == ValueModel::List(rv));
                if l.len() != r.len() {
                    return false;
                }
                let mut i: usize = 0;
                while i < l.len()
                    invariant
                        *self is List,
                        self->List_0 == *l,
                        lv == values_view(l@),
                        rv == values_view(r@),
                        value_view(*self) == ValueModel::List(lv),
                        value_view(*other) == ValueModel::List(rv),
                        l@.len() == r@.len(),
                        i <= l@.len(),
                        items_eq_from(lv, rv, 0) == items_eq_from(lv, rv, i as int),
                    decreases l@.len() - i,
                {
                    assert(decreases_to!(*self => self->List_0));
                    assert(decreases_to!(self->List_0 => self->List_0@));
                    assert(decreases_to!(self->List_0@ => self->List_0@[i as int]));
                    assert(lv[i as int] == value_view(l@[i as int]));
                    assert(rv[i as int] == value_view(r@[i as int]));
                    if !l[i].equals(&r[i]) {
                        return false;
                    }
                    i = i + 1;
                }
                true
            },
            _ => false,
        }
    }
}


proof fn lemma_path_flags_frames(env: EnvModel, q: PathQuestion, args: Seq<TermModel>, i: int, fuel: nat)
    requires
        env.frames.len() >= 1,
    ensures
        path_flags_from(env, q, args, i, fuel).0.frames == env.frames,
    decreases fuel, 1nat, (if i < args.len() { args.len() - i } else { 0 }),
{
    if 0 <= i < args.len() {
        let (env1, r) = eval(env, args[i], fuel);
        law_eval_restores_frames(env, args[i], fuel);
        if let Ok(v) = r {
            if let Ok(p) = to_path(v) {
                if path_flag_fact(env1.host, q, p) == Some(true) {
                    lemma_path_flags_frames(env1, q, args, i + 1, fuel);
                }
            }
        }
    }
}

fn question_eq(a: PathQuestion, b: PathQuestion) -> (r: bool)
    ensures
        r == (a == b),
{
    match (a, b) {
        (PathQuestion::Exists, PathQuestion::Exists) => true,
        (PathQuestion::IsDir, PathQuestion::IsDir) => true,
        (PathQuestion::IsFile, PathQuestion::IsFile) => true,
        _ => false,
    }
}

fn question_for(b: Builtin) -> (r: PathQuestion)
    ensures
        r == question_of(b),
{
    match b {
        Builtin::PathIsDir => PathQuestion::IsDir,
        Builtin::PathIsFile => PathQuestion::IsFile,
        _ => PathQuestion::Exists,
    }
}

fn clone_env_var_error(e: &EnvVarError) -> (r: EnvVarError)
    ensures
        r@ == e@,
{
    match e {
        EnvVarError::NotPresent => EnvVarError::NotPresent,
        EnvVarError::NotUnicode(s) => EnvVarError::NotUnicode(to_string(s.as_str())),
    }
}

impl<'a> Environment<'a> {
    /// The value of the environment variable `name` in the first fact about
    /// it (see [env_var_fact]).
    fn lookup_env_var(&self, name: &str) -> (r: Option<Result<String, EnvVarError>>)
        ensures
            match env_var_fact(self@.host, name@) {
                None => r is None,
                Some(Ok(v)) => r matches Some(Ok(x)) && x@ == v,
                Some(Err(e)) => r matches Some(Err(x)) && x@ == e,
            },
    {
        let ghost h = self@.host;
        let mut i: usize = 0;
        assert(h.skip(0) =~= h);
        while i < self.host.len()
            invariant
                h == self@.host,
                h == facts_view(self.host@),
                i <= self.host@.len(),
                env_var_fact(h, name@) == env_var_fact(h.skip(i as int), name@),
            decreases self.host@.len() - i,
        {
            assert(h.skip(i as int).drop_first() =~= h.skip(i + 1));
            assert(h.skip(i as int)[0] == fact_view(self.host@[i as int]));
            match &self.host[i] {
                HostFact::EnvVar(n, r) => if str_eq(n.as_str(), name) {
                    return match r {
                        Ok(v) => Some(Ok(to_string(v.as_str()))),
                        Err(e) => Some(Err(clone_env_var_error(e))),
                    };
                },
                _ => {},
            }
            i = i + 1;
        }
        assert(h.skip(i as int) =~= Seq::<HostFactModel>::empty());
        None
    }

    /// The answer to `q` about `p` in the first fact about it (see
    /// [path_flag_fact]).
    fn lookup_path_flag(&self, q: PathQuestion, p: &str) -> (r: Option<bool>)
        ensures
            r == path_flag_fact(self@.host, q, p@),
    {
        let ghost h = self@.host;
        let mut i: usize = 0;
        assert(h.skip(0) =~= h);
        while i < self.host.len()
            invariant
                h == self@.host,
                h == facts_view(self.host@),
                i <= self.host@.len(),
                path_flag_fact(h, q, p@) == path_flag_fact(h.skip(i as int), q, p@),
            decreases self.host@.len() - i,
        {
            assert(h.skip(i as int).drop_first() =~= h.skip(i + 1));
            assert(h.skip(i as int)[0] == fact_view(self.host@[i as int]));
            match &self.host[i] {
                HostFact::PathFlag(q2, p2, b) => if question_eq(*q2, q) && str_eq(p2.as_str(), p) {
                    return Some(*b);
                },
                _ => {},
            }
            i = i + 1;
        }
        assert(h.skip(i as int) =~= Seq::<HostFactModel>::empty());
        None
    }

    /// The entries of the directory `p` as paths, in the first fact about it
    /// (see [children_fact]).
    fn lookup_children(&self, p: &str) -> (r: Option<Result<Vec<Value<'a>>, String>>)
        ensures
            match children_fact(self@.host, p@) {
                None => r is None,
                Some(Ok(names)) => r matches Some(Ok(x)) && values_view(x@) == paths_of(names),
                Some(Err(e)) => r matches Some(Err(x)) && x@ == e,
            },
    {
        let ghost h = self@.host;
        let mut i: usize = 0;
        assert(h.skip(0) =~= h);
        while i < self.host.len()
            invariant
                h == self@.host,
                h == facts_view(self.host@),
                i <= self.host@.len(),
                children_fact(h, p@) == children_fact(h.skip(i as int), p@),
            decreases self.host@.len() - i,
        {
            assert(h.skip(i as int).drop_first() =~= h.skip(i + 1));
            assert(h.skip(i as int)[0] == fact_view(self.host@[i as int]));
            match &self.host[i] {
                HostFact::PathChildren(p2, r) => if str_eq(p2.as_str(), p) {
                    match r {
                        Err(e) => {
                            return Some(Err(to_string(e.as_str())));
                        },
                        Ok(names) => {
                            let ghost nv = names@.map_values(|n: String| n@);
                            let mut out: Vec<Value<'a>> = Vec::new();
                            let mut k: usize = 0;
                            while k < names.len()
                                invariant
                                    k <= names@.len(),
                                    nv == names@.map_values(|n: String| n@),
                                    values_view(out@) == paths_of(nv.take(k as int)),
                                decreases names@.len() - k,
                            {
                                let ghost before = values_view(out@);
                                out.push(Value::Path(to_string(names[k].as_str())));
                                assert(values_view(out@) =~= paths_of(nv.take(k + 1))) by {
                                    assert(values_view(out@) =~= before.push(ValueModel::Path(nv[k as int])));
                                }
                                k = k + 1;
                            }
                            assert(nv.take(k as int) =~= nv);
                            return Some(Ok(out));
                        },
                    }
                },
                _ => {},
            }
            i = i + 1;
        }
        assert(h.skip(i as int) =~= Seq::<HostFactModel>::empty());
        None
    }

    fn call_env(&mut self, args: &[Term<'a>], fuel: u64) -> (r: Result<Value<'a>, EvalError<'a>>)
        ensures
            (final(self)@, outcome_view(r)) == builtin(old(self)@, Builtin::Env, terms_view(args@), fuel as nat),
        decreases fuel, 2nat, 0nat,
    {
        let n = if args.len() < 2 {
            args.len()
        } else {
            2
        };
        let mut rs = self.eval_each(args, n, fuel);
        if args.len() != 1 {
            return Err(EvalError::WrongArity(Arity::Static(1)));
        }
        let ghost rv = results_view(rs@);
        let r0 = rs.pop().unwrap();
        assert(rv[0] == outcome_view(r0));
        let name = match r0 {
            Err(err) => {
                return Err(err);
            },
            Ok(v) => match as_string(v) {
                Err(err) => {
                    return Err(err);
                },
                Ok(t) => t,
            },
        };
        match self.lookup_env_var(name.as_str()) {
            None => Err(EvalError::NeedsHost(HostQuery::EnvVar(name))),
            Some(Ok(value)) => Ok(Value::String(value)),
            Some(Err(e)) => Err(EvalError::EnvVar(e, name)),
        }
    }

    fn call_path_children(&mut self, args: &[Term<'a>], fuel: u64) -> (r: Result<Value<'a>, EvalError<'a>>)
        ensures
            (final(self)@, outcome_view(r)) == builtin(old(self)@, Builtin::PathChildren, terms_view(args@), fuel as nat),
        decreases fuel, 2nat, 0nat,
    {
        let n = if args.len() < 2 {
            args.len()
        } else {
            2
        };
        let mut rs = self.eval_each(args, n, fuel);
        if args.len() != 1 {
            return Err(EvalError::WrongArity(Arity::Static(1)));
        }
        let ghost rv = results_view(rs@);
        let r0 = rs.pop().unwrap();
        assert(rv[0] == outcome_view(r0));
        let p = match r0 {
            Err(err) => {
                return Err(err);
            },
            Ok(Value::Path(p)) => p,
            Ok(_) => {
                return Err(EvalError::WrongType(ValueKind::Path));
            },
        };
        match self.lookup_children(p.as_str()) {
            None => Err(EvalError::NeedsHost(HostQuery::PathChildren(p))),
            Some(Ok(items)) => {
                let r = Value::List(items);
                assert(value_view(r)->List_0 =~= values_view(items@));
                Ok(r)
            },
            Some(Err(e)) => Err(EvalError::ReadPath(e, p)),
        }
    }

    fn call_path_flags(&mut self, b: Builtin, args: &[Term<'a>], fuel: u64) -> (r: Result<Value<'a>, EvalError<'a>>)
        requires
            b == Builtin::PathExists || b == Builtin::PathIsDir || b == Builtin::PathIsFile,
        ensures
            (final(self)@, outcome_view(r)) == builtin(old(self)@, b, terms_view(args@), fuel as nat),
        decreases fuel, 2nat, 0nat,
    {
        let ghost a = terms_view(args@);
        if args.len() == 0 {
            return Err(EvalError::WrongArity(Arity::RangeFrom(1)));
        }
        let q = question_for(b);
        let ghost env0 = self@;
        let mut i: usize = 0;
        while i < args.len()
            invariant
                a == terms_view(args@),
                env0 == old(self)@,
                q == question_of(b),
                a.len() > 0,
                b == Builtin::PathExists || b == Builtin::PathIsDir || b == Builtin::PathIsFile,
                i <= args@.len(),
                path_flags_from(self@, q, a, i as int, fuel as nat) == path_flags_from(env0, q, a, 0, fuel as nat),
            decreases args@.len() - i,
        {
            assert(a[i as int] == term_view(args@[i as int]));
            let v = match self.eval(&args[i], fuel) {
                Err(err) => {
                    return Err(err);
                },
                Ok(v) => v,
            };
            let p = match v {
                Value::Path(p) => p,
                _ => {
                    return Err(EvalError::WrongType(ValueKind::Path));
                },
            };
            match self.lookup_path_flag(q, p.as_str()) {
                None => {
                    return Err(EvalError::NeedsHost(HostQuery::PathFlag(q, p)));
                },
                Some(false) => {
                    return Ok(Value::Bool(false));
                },
                Some(true) => {},
            }
            i = i + 1;
        }
        Ok(Value::Bool(true))
    }
}


impl HostFact {
    /// A copy of this fact.
    pub fn copy(&self) -> (r: HostFact)
        ensures
            fact_view(r) == fact_view(*self),
    {
        match self {
            HostFact::EnvVar(n, r) => HostFact::EnvVar(
                to_string(n.as_str()),
                match r {
                    Ok(v) => Ok(to_string(v.as_str())),
                    Err(e) => Err(clone_env_var_error(e)),
                },
            ),
            HostFact::PathFlag(q, p, b) => HostFact::PathFlag(*q, to_string(p.as_str()), *b),
            HostFact::PathChildren(p, r) => HostFact::PathChildren(
                to_string(p.as_str()),
                match r {
                    Err(e) => Err(to_string(e.as_str())),
                    Ok(names) => {
                        let mut out: Vec<String> = Vec::new();
                        let mut k: usize = 0;
                        while k < names.len()
                            invariant
                                k <= names@.len(),
                                out@.len() == k,
                                forall|j: int| 0 <= j < k ==> (#[trigger] out@[j])@ == names@[j]@,
                            decreases names@.len() - k,
                        {
                            out.push(to_string(names[k].as_str()));
                            k = k + 1;
                        }
                        assert(out@.map_values(|n: String| n@) =~= names@.map_values(|n: String| n@));
                        Ok(out)
                    },
                },
            ),
        }
    }
}

} // verus!
