//! Description of a Rust function registered with Guile as a procedure
//! ("subr"): how many required and optional arguments it takes, whether it
//! takes a rest list, and the names it is known by.

use vstd::prelude::*;
use crate::text::{find_char, str_eq, to_string};

verus! {

/// The type of a parameter (or of the result) of a function, as far as the
/// registration cares.
#[derive(Clone, Copy, Debug, PartialEq, Eq, Structural)]
pub enum ParamType {
    /// `Scm`
    Scm,
    /// `Option<Scm>`
    OptionScm,
    /// `[Scm; n]`
    ScmArray(usize),
    /// `[Option<Scm>; n]`
    OptionScmArray(usize),
    /// Anything else.
    Other,
}

/// The parts of a function's signature that the registration checks.
pub struct FnSignature {
    pub name: String,
    pub is_const: bool,
    pub is_async: bool,
    pub is_unsafe: bool,
    pub is_variadic: bool,
    pub is_generic: bool,
    /// The ABI named by an `extern` qualifier, if any.
    pub abi: Option<String>,
    pub params: Vec<ParamType>,
    /// The result type; `None` for `()`.
    pub output: Option<ParamType>,
}

/// One `name = value` argument of the registration attribute; `value` is
/// `None` where it is not a string literal.
pub struct ConfigArg {
    pub name: String,
    pub value: Option<String>,
}

/// How a procedure is called from Scheme.
#[derive(Clone, Copy, Debug, PartialEq, Eq, Structural)]
pub struct Inputs {
    pub required: usize,
    pub optional: usize,
    pub rest: bool,
}

/// A procedure ready to be registered.
pub struct SubrDescriptor {
    /// The name of the Rust type that stands for the procedure.
    pub struct_ident: String,
    /// The name of the procedure in Scheme.
    pub guile_ident: String,
    pub inputs: Inputs,
}

/// Why a function cannot be registered.
#[derive(Debug, PartialEq, Eq)]
pub enum SubrError {
    Const,
    Async,
    Unsafe,
    Variadic,
    Generic,
    /// The result type is not `Scm`.
    ReturnType,
    /// The function is not `extern "C"`.
    Abi,
    /// An attribute argument is not a string literal.
    NotStringLiteral,
    /// An attribute argument, at this index, other than `struct_ident` and
    /// `guile_ident`.
    UnknownArgument(usize),
    /// A parameter of a type that cannot follow the ones before it.
    UnexpectedType(ParamType),
    /// The Scheme name holds a nul character.
    NulByte,
}

/// The number of leading elements of `s` equal to `kind`.
pub open spec fn leading_count(s: Seq<ParamType>, kind: ParamType) -> nat
    decreases s.len(),
{
    if s.len() > 0 && s[0] == kind {
        1 + leading_count(s.drop_first(), kind)
    } else {
        0
    }
}

/// The inputs of a function that takes its arguments one by one: the
/// leading `Scm` parameters are required, the `Option<Scm>` ones after them
/// optional, and one more `Scm` is the rest list. Each run ends at, and uses
/// up, the first parameter that does not belong to it; a parameter left
/// over after the rest list is refused.
///
/// Note: the parameter that ends a run is used up without being counted.
/// So the first `Option<Scm>` after the required ones is not counted as
/// optional, and the `Scm` that ends the optional ones is not the rest
/// list: the rest list is the parameter after it, if that one is an `Scm`,
/// and anything else in that place is dropped without an error. For
/// example, `(Scm, Option<Scm>)` counts one required input and no optional
/// one.
pub open spec fn raw_inputs(params: Seq<ParamType>) -> Result<Inputs, ParamType> {
    let len = params.len();
    let required = leading_count(params, ParamType::Scm);
    let p1 = if required < len { required + 1 } else { len };
    let optional = leading_count(params.skip(p1 as int), ParamType::OptionScm);
    let p2 = if p1 + optional < len { p1 + optional + 1 } else { len };
    let rest = p2 < len && params[p2 as int] == ParamType::Scm;
    let p3 = if p2 < len { p2 + 1 } else { len };
    if p3 < len {
        Err(params[p3 as int])
    } else {
        Ok(Inputs { required: required as usize, optional: optional as usize, rest })
    }
}

/// The inputs of a function that takes its arguments as arrays:
/// `[Scm; n]` required ones, `[Option<Scm>; m]` optional ones, and an
/// optional `Scm` rest list.
pub open spec fn array_inputs(params: Seq<ParamType>) -> Result<Inputs, ParamType> {
    if params.len() < 2 {
        Err(ParamType::Other)
    } else {
        match (params[0], params[1]) {
            (ParamType::ScmArray(n), ParamType::OptionScmArray(m)) => {
                if params.len() == 2 {
                    Ok(Inputs { required: n, optional: m, rest: false })
                } else if params[2] == ParamType::Scm && params.len() == 3 {
                    Ok(Inputs { required: n, optional: m, rest: true })
                } else if params[2] == ParamType::Scm {
                    Err(params[3])
                } else {
                    Err(params[2])
                }
            },
            (ParamType::ScmArray(_), other) => Err(other),
            (other, _) => Err(other),
        }
    }
}

/// `c` with ASCII lower case letters made upper case.
pub open spec fn ascii_upper(c: char) -> char {
    if 'a' <= c && c <= 'z' {
        ((c as u32) - 32) as char
    } else {
        c
    }
}

/// A `snake_case` name in `kebab-case`: each `_` becomes `-`.
pub open spec fn kebab_case(field: Seq<char>) -> Seq<char> {
    field.map_values(|c: char| if c == '_' { '-' } else { c })
}

/// The Scheme name made from a Rust name has the same length and no `_`.
pub proof fn law_kebab_case_shape(field: Seq<char>)
    ensures
        kebab_case(field).len() == field.len(),
        !kebab_case(field).contains('_'),
{
}

/// A `snake_case` name in `PascalCase`, from a point where the next letter
/// is to be capitalized or not: `_` is dropped and makes the next character
/// upper case.
pub open spec fn pascal_case_from(field: Seq<char>, capitalize: bool) -> Seq<char>
    decreases field.len(),
{
    if field.len() == 0 {
        Seq::empty()
    } else if field[0] == '_' {
        pascal_case_from(field.drop_first(), true)
    } else if capitalize {
        seq![ascii_upper(field[0])] + pascal_case_from(field.drop_first(), false)
    } else {
        seq![field[0]] + pascal_case_from(field.drop_first(), false)
    }
}

/// A `snake_case` name in `PascalCase`.
pub open spec fn pascal_case(field: Seq<char>) -> Seq<char> {
    pascal_case_from(field, true)
}

/// `ident_case::RenameRule::KebabCase.apply_to_field`: the crate replaces
/// each `_` of the field name by `-`.
#[verifier::external_body]
fn kebab_case_field(field: &str) -> (r: String)
    ensures
        r@ == kebab_case(field@),
{
    ident_case::RenameRule::KebabCase.apply_to_field(field)
}

/// `ident_case::RenameRule::PascalCase.apply_to_field`: the crate drops
/// each `_` and makes the character after it, and the first one, ASCII
/// upper case.
#[verifier::external_body]
fn pascal_case_field(field: &str) -> (r: String)
    ensures
        r@ == pascal_case(field@),
{
    ident_case::RenameRule::PascalCase.apply_to_field(field)
}

/// The names that the attribute arguments set, later ones winning.
pub open spec fn config_names(args: Seq<(Seq<char>, Option<Seq<char>>)>) -> Result<
    (Option<Seq<char>>, Option<Seq<char>>),
    SubrError,
>
    decreases args.len(),
{
    if args.len() == 0 {
        Ok((None, None))
    } else {
        let (name, value) = args.last();
        match config_names(args.drop_last()) {
            Err(e) => Err(e),
            Ok((struct_ident, guile_ident)) => match value {
                None => Err(SubrError::NotStringLiteral),
                Some(v) => if name == "struct_ident"@ {
                    Ok((Some(v), guile_ident))
                } else if name == "guile_ident"@ {
                    Ok((struct_ident, Some(v)))
                } else {
                    Err(SubrError::UnknownArgument((args.len() - 1) as usize))
                },
            },
        }
    }
}

/// The view of the attribute arguments.
pub open spec fn config_view(args: Seq<ConfigArg>) -> Seq<(Seq<char>, Option<Seq<char>>)> {
    args.map_values(
        |a: ConfigArg|
            (
                a.name@,
                match a.value {
                    Some(v) => Some(v@),
                    None => None,
                },
            ),
    )
}

/// The names of a procedure: those the attribute sets, else the function's
/// name in `PascalCase` for the type and in `kebab-case` for Scheme.
pub open spec fn subr_names(
    fn_name: Seq<char>,
    struct_ident: Option<Seq<char>>,
    guile_ident: Option<Seq<char>>,
) -> Result<(Seq<char>, Seq<char>), SubrError> {
    let guile = match guile_ident {
        Some(g) => g,
        None => kebab_case(fn_name),
    };
    let st = match struct_ident {
        Some(s) => s,
        None => pascal_case(fn_name),
    };
    if guile.contains('\0') {
        Err(SubrError::NulByte)
    } else {
        Ok((st, guile))
    }
}

/// The first qualifier of `sig` that a procedure cannot have.
pub open spec fn qualifier_error(sig: FnSignature) -> Option<SubrError> {
    if sig.is_const {
        Some(SubrError::Const)
    } else if sig.is_async {
        Some(SubrError::Async)
    } else if sig.is_unsafe {
        Some(SubrError::Unsafe)
    } else if sig.is_variadic {
        Some(SubrError::Variadic)
    } else if sig.is_generic {
        Some(SubrError::Generic)
    } else if sig.output != Some(ParamType::Scm) {
        Some(SubrError::ReturnType)
    } else {
        None
    }
}

impl SubrDescriptor {
    pub open spec fn model(self) -> (Seq<char>, Seq<char>, Inputs) {
        (self.struct_ident@, self.guile_ident@, self.inputs)
    }
}

/// What registering `sig` with the attribute arguments `args` gives, the
/// parameters being read by `inputs`.
pub open spec fn describe(
    sig: FnSignature,
    args: Seq<ConfigArg>,
    inputs: Result<Inputs, ParamType>,
    needs_c_abi: bool,
) -> Result<(Seq<char>, Seq<char>, Inputs), SubrError> {
    match qualifier_error(sig) {
        Some(e) => Err(e),
        None => if needs_c_abi && !(sig.abi matches Some(a) && a@ == "C"@) {
            Err(SubrError::Abi)
        } else {
            match config_names(config_view(args)) {
                Err(e) => Err(e),
                Ok((st, gu)) => match inputs {
                    Err(p) => Err(SubrError::UnexpectedType(p)),
                    Ok(inputs) => match subr_names(sig.name@, st, gu) {
                        Err(e) => Err(e),
                        Ok((s, g)) => Ok((s, g, inputs)),
                    },
                },
            }
        },
    }
}

/// The number of leading elements of `params`, from `start` on, that are
/// `kind`.
fn count_leading(params: &[ParamType], start: usize, kind: ParamType) -> (n: usize)
    requires
        start <= params@.len(),
    ensures
        n == leading_count(params@.skip(start as int), kind),
        start + n <= params@.len(),
{
    let mut i = start;
    while i < params.len() && params[i] == kind
        invariant
            start <= i <= params@.len(),
            leading_count(params@.skip(start as int), kind) == (i - start) + leading_count(
                params@.skip(i as int),
                kind,
            ),
        decreases params@.len() - i,
    {
        assert(params@.skip(i as int).drop_first() =~= params@.skip(i + 1));
        i = i + 1;
    }
    i - start
}

impl Inputs {
    /// The inputs of a function that takes its arguments one by one (see
    /// [`raw_inputs`]); `Err` holds the first parameter left over.
    pub fn from_params(params: &[ParamType]) -> (r: Result<Inputs, ParamType>)
        ensures
            r == raw_inputs(params@),
    {
        let len = params.len();
        let required = count_leading(params, 0, ParamType::Scm);
        assert(params@.skip(0) =~= params@);
        let p1 = if required < len {
            required + 1
        } else {
            len
        };
        let optional = count_leading(params, p1, ParamType::OptionScm);
        let p2 = if p1 + optional < len {
            p1 + optional + 1
        } else {
            len
        };
        let rest = p2 < len && params[p2] == ParamType::Scm;
        let p3 = if p2 < len {
            p2 + 1
        } else {
            len
        };
        if p3 < len {
            Err(params[p3])
        } else {
            Ok(Inputs { required, optional, rest })
        }
    }

    /// The inputs of a function that takes its arguments as arrays (see
    /// [`array_inputs`]); `Err` holds the parameter that does not fit.
    pub fn from_array_params(params: &[ParamType]) -> (r: Result<Inputs, ParamType>)
        ensures
            r == array_inputs(params@),
    {
        if params.len() < 2 {
            return Err(ParamType::Other);
        }
        match (params[0], params[1]) {
            (ParamType::ScmArray(n), ParamType::OptionScmArray(m)) => {
                if params.len() == 2 {
                    Ok(Inputs { required: n, optional: m, rest: false })
                } else if params[2] == ParamType::Scm && params.len() == 3 {
                    Ok(Inputs { required: n, optional: m, rest: true })
                } else if params[2] == ParamType::Scm {
                    Err(params[3])
                } else {
                    Err(params[2])
                }
            },
            (ParamType::ScmArray(_), other) => Err(other),
            (other, _) => Err(other),
        }
    }
}

/// The view of an optional name.
pub open spec fn opt_view(s: Option<String>) -> Option<Seq<char>> {
    match s {
        Some(s) => Some(s@),
        None => None,
    }
}

/// Once the arguments up to some point are refused, so are all of them.
proof fn lemma_config_error_stays(args: Seq<(Seq<char>, Option<Seq<char>>)>, i: int)
    requires
        0 <= i <= args.len(),
        config_names(args.take(i)) is Err,
    ensures
        config_names(args) == config_names(args.take(i)),
    decreases args.len() - i,
{
    if i < args.len() {
        assert(args.take(i + 1).drop_last() =~= args.take(i));
        lemma_config_error_stays(args, i + 1);
    } else {
        assert(args.take(i) =~= args);
    }
}

/// The names that the attribute arguments set (see [`config_names`]).
pub fn parse_config(args: &[ConfigArg]) -> (r: Result<(Option<String>, Option<String>), SubrError>)
    ensures
        match r {
            Ok((s, g)) => config_names(config_view(args@)) == Ok::<_, SubrError>((opt_view(s), opt_view(g))),
            Err(e) => config_names(config_view(args@)) == Err::<(Option<Seq<char>>, Option<Seq<char>>), _>(e),
        },
{
    let ghost view = config_view(args@);
    let mut struct_ident: Option<String> = None;
    let mut guile_ident: Option<String> = None;
    let mut i: usize = 0;
    assert(view.take(0) =~= Seq::<(Seq<char>, Option<Seq<char>>)>::empty());
    while i < args.len()
        invariant
            view == config_view(args@),
            i <= args@.len(),
            config_names(view.take(i as int)) == Ok::<_, SubrError>((opt_view(struct_ident), opt_view(guile_ident))),
        decreases args@.len() - i,
    {
        let arg = &args[i];
        assert(view.take(i + 1).drop_last() =~= view.take(i as int));
        assert(view.take(i + 1).last() == view[i as int]);
        match &arg.value {
            None => {
                proof {
                    lemma_config_error_stays(view, i + 1);
                }
                return Err(SubrError::NotStringLiteral);
            },
            Some(v) => {
                proof {
                    reveal_strlit("struct_ident");
                    reveal_strlit("guile_ident");
                }
                if str_eq(arg.name.as_str(), "struct_ident") {
                    struct_ident = Some(to_string(v.as_str()));
                } else if str_eq(arg.name.as_str(), "guile_ident") {
                    guile_ident = Some(to_string(v.as_str()));
                } else {
                    proof {
                        lemma_config_error_stays(view, i + 1);
                    }
                    return Err(SubrError::UnknownArgument(i));
                }
            },
        }
        i = i + 1;
    }
    assert(view.take(i as int) =~= view);
    Ok((struct_ident, guile_ident))
}

/// The names of a procedure (see [`subr_names`]).
pub fn build_names(fn_name: &str, struct_ident: Option<String>, guile_ident: Option<String>) -> (r:
    Result<(String, String), SubrError>)
    ensures
        match r {
            Ok((s, g)) => subr_names(fn_name@, opt_view(struct_ident), opt_view(guile_ident)) == Ok::<_, SubrError>((s@, g@)),
            Err(e) => subr_names(fn_name@, opt_view(struct_ident), opt_view(guile_ident)) == Err::<(Seq<char>, Seq<char>), _>(e),
        },
{
    let guile = match guile_ident {
        Some(g) => g,
        None => kebab_case_field(fn_name),
    };
    let st = match struct_ident {
        Some(s) => s,
        None => pascal_case_field(fn_name),
    };
    match find_char(guile.as_str(), '\0') {
        Some(i) => {
            assert(guile@[i as int] == '\0');
            Err(SubrError::NulByte)
        },
        None => Ok((st, guile)),
    }
}

/// The qualifier of `sig` that a procedure cannot have (see
/// [`qualifier_error`]).
pub fn check_qualifiers(sig: &FnSignature) -> (r: Option<SubrError>)
    ensures
        r == qualifier_error(*sig),
{
    if sig.is_const {
        Some(SubrError::Const)
    } else if sig.is_async {
        Some(SubrError::Async)
    } else if sig.is_unsafe {
        Some(SubrError::Unsafe)
    } else if sig.is_variadic {
        Some(SubrError::Variadic)
    } else if sig.is_generic {
        Some(SubrError::Generic)
    } else {
        match sig.output {
            Some(ParamType::Scm) => None,
            _ => Some(SubrError::ReturnType),
        }
    }
}

/// Whether `abi` names the C ABI.
fn is_c_abi(abi: &Option<String>) -> (r: bool)
    ensures
        r == (*abi matches Some(a) && a@ == "C"@),
{
    proof {
        reveal_strlit("C");
    }
    match abi {
        Some(a) => str_eq(a.as_str(), "C"),
        None => false,
    }
}

fn finish(sig: &FnSignature, args: &[ConfigArg], inputs: Result<Inputs, ParamType>) -> (r: Result<
    SubrDescriptor,
    SubrError,
>)
    requires
        qualifier_error(*sig) is None,
    ensures
        match r {
            Ok(d) => describe(*sig, args@, inputs, false) == Ok::<_, SubrError>(d.model()),
            Err(e) => describe(*sig, args@, inputs, false) == Err::<(Seq<char>, Seq<char>, Inputs), _>(e),
        },
{
    let (st, gu) = match parse_config(args) {
        Ok(names) => names,
        Err(e) => {
            return Err(e);
        },
    };
    let inputs = match inputs {
        Ok(inputs) => inputs,
        Err(p) => {
            return Err(SubrError::UnexpectedType(p));
        },
    };
    match build_names(sig.name.as_str(), st, gu) {
        Ok((struct_ident, guile_ident)) => Ok(SubrDescriptor { struct_ident, guile_ident, inputs }),
        Err(e) => Err(e),
    }
}

/// Describes `extern "C" fn` `sig`, which takes its arguments one by one,
/// for registration with the attribute arguments `args`.
pub fn describe_raw_subr(sig: &FnSignature, args: &[ConfigArg]) -> (r: Result<
    SubrDescriptor,
    SubrError,
>)
    ensures
        match r {
            Ok(d) => describe(*sig, args@, raw_inputs(sig.params@), true) == Ok::<_, SubrError>(d.model()),
            Err(e) => describe(*sig, args@, raw_inputs(sig.params@), true) == Err::<(Seq<char>, Seq<char>, Inputs), _>(e),
        },
{
    if let Some(e) = check_qualifiers(sig) {
        return Err(e);
    }
    if !is_c_abi(&sig.abi) {
        return Err(SubrError::Abi);
    }
    let inputs = Inputs::from_params(sig.params.as_slice());
    finish(sig, args, inputs)
}

/// Describes `sig`, which takes its arguments as arrays, for registration
/// with the attribute arguments `args`.
pub fn describe_guile_fn(sig: &FnSignature, args: &[ConfigArg]) -> (r: Result<
    SubrDescriptor,
    SubrError,
>)
    ensures
        match r {
            Ok(d) => describe(*sig, args@, array_inputs(sig.params@), false) == Ok::<_, SubrError>(d.model()),
            Err(e) => describe(*sig, args@, array_inputs(sig.params@), false) == Err::<(Seq<char>, Seq<char>, Inputs), _>(e),
        },
{
    if let Some(e) = check_qualifiers(sig) {
        return Err(e);
    }
    let inputs = Inputs::from_array_params(sig.params.as_slice());
    finish(sig, args, inputs)
}

} // verus!
