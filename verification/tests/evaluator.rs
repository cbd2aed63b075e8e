use empl::clisp::arity::Arity;
use empl::clisp::lexer::LexemeParser;
use empl::lisp::ast::{ExprParser, ExprTy};
use empl::lisp::evaluator::{
    Builtin, EnvVarError, Environment, EvalError, Function, HostFact, HostQuery, PathQuestion, Term, Value, ValueKind,
};

const FUEL: u64 = 1000;

fn run(src: &str, fuel: u64, check: impl for<'a> FnOnce(Result<Value<'a>, EvalError<'a>>)) {
    let lexemes = LexemeParser.lexemes(src);
    let expr = ExprParser.parse(&lexemes).expect("the text holds an expression").output;
    let mut env = Environment::new();
    check(env.eval(&Term::Expr(&expr), fuel));
}

fn int_of(src: &str) -> Option<i32> {
    let mut out = None;
    run(src, FUEL, |r| {
        if let Ok(Value::Int(i)) = r {
            out = Some(i);
        }
    });
    out
}

fn ints(v: &Value) -> Vec<i32> {
    match v {
        Value::List(items) => items
            .iter()
            .map(|x| match x {
                Value::Int(i) => *i,
                _ => panic!("not an integer"),
            })
            .collect(),
        _ => panic!("not a list"),
    }
}

#[test]
fn arithmetic_folds_over_its_arguments() {
    assert_eq!(int_of("(+ 1 2 3)"), Some(6));
    assert_eq!(int_of("(- 10 4 1)"), Some(5));
    assert_eq!(int_of("(* 2 3 4)"), Some(24));
    assert_eq!(int_of("(/ 7 2)"), Some(3));
    assert_eq!(int_of("(% 7 2)"), Some(1));
    assert_eq!(int_of("(+ (* 2 3) (- 5 1))"), Some(10));
}

#[test]
fn arithmetic_errors() {
    run("(/ 1 0)", FUEL, |r| assert!(matches!(r, Err(EvalError::Overflow))));
    run("(+ 2147483647 1)", FUEL, |r| assert!(matches!(r, Err(EvalError::Overflow))));
    run("(+ 1)", FUEL, |r| assert!(matches!(r, Err(EvalError::WrongArity(Arity::RangeFrom(2))))));
    run("(+)", FUEL, |r| assert!(matches!(r, Err(EvalError::WrongArity(Arity::RangeFrom(2))))));
    run("(+ 1 \"a\")", FUEL, |r| assert!(matches!(r, Err(EvalError::WrongType(ValueKind::Int)))));
}

#[test]
fn names_and_applications() {
    run("undefined", FUEL, |r| assert!(matches!(r, Err(EvalError::NotFound("undefined")))));
    run("()", FUEL, |r| assert!(matches!(r, Err(EvalError::EmptyApply))));
    run("(1 2)", FUEL, |r| assert!(matches!(r, Err(EvalError::NotAFunction))));
    run("#t", FUEL, |r| assert!(matches!(r, Ok(Value::Bool(true)))));
    run("\"text\"", FUEL, |r| assert!(matches!(r, Ok(Value::String(ref s)) if s == "text")));
}

#[test]
fn conditionals() {
    assert_eq!(int_of("(if #t 1 2)"), Some(1));
    assert_eq!(int_of("(if #f 1 2)"), Some(2));
    run("(if #f 1)", FUEL, |r| assert!(matches!(r, Ok(Value::Unit))));
    run("(if 1 2 3)", FUEL, |r| assert!(matches!(r, Err(EvalError::WrongType(ValueKind::Bool)))));
    run("(if #t)", FUEL, |r| assert!(matches!(r, Err(EvalError::WrongArity(Arity::Range(_))))));
    run("(not #f)", FUEL, |r| assert!(matches!(r, Ok(Value::Bool(true)))));
    run("(not #t #f)", FUEL, |r| assert!(matches!(r, Err(EvalError::WrongArity(Arity::Static(1))))));
}

#[test]
fn let_binds_then_evaluates_its_body() {
    assert_eq!(int_of("(let ((x 2) (y 3)) (* x y))"), Some(6));
    assert_eq!(int_of("(let ((x 2) (y (+ x 1))) y)"), Some(3));
    assert_eq!(int_of("(let ((x 1) (x 5)) x)"), Some(5));
    run("(let () 1)", FUEL, |r| assert!(matches!(r, Err(EvalError::EmptyListBindings))));
    run("(let x 1)", FUEL, |r| assert!(matches!(r, Err(EvalError::NonListBindings))));
    run("(let ((x 1)))", FUEL, |r| assert!(matches!(r, Err(EvalError::NoBody))));
    run("(let ((x)) x)", FUEL, |r| {
        assert!(matches!(r, Err(EvalError::WrongBindingArity(Arity::Static(2)))))
    });
    run("(let ((1 2)) 1)", FUEL, |r| assert!(matches!(r, Err(EvalError::NonIdentListBinding(ExprTy::Literal)))));
    run("(let)", FUEL, |r| assert!(matches!(r, Err(EvalError::NoBindings))));
}

#[test]
fn lambdas_bind_their_parameters() {
    assert_eq!(int_of("((lambda (x y) (+ x y)) 2 3)"), Some(5));
    assert_eq!(int_of("((lambda () 1 2 7))"), Some(7));
    run("(lambda (x x) x)", FUEL, |r| assert!(matches!(r, Err(EvalError::MultipleBindings("x")))));
    run("(lambda (x 1) x)", FUEL, |r| assert!(matches!(r, Err(EvalError::NonIdentListBinding(ExprTy::Literal)))));
    run("(lambda (x))", FUEL, |r| assert!(matches!(r, Err(EvalError::NoBody))));
    run("(lambda x x)", FUEL, |r| assert!(matches!(r, Err(EvalError::NoBindings))));
    run("((lambda (x) x))", FUEL, |r| assert!(matches!(r, Err(EvalError::WrongArity(Arity::Static(1))))));
    run("((lambda (x) x) 1 2)", FUEL, |r| {
        assert!(matches!(r, Err(EvalError::WrongArity(Arity::Static(1)))))
    });
}

#[test]
fn lists_and_sequence_functions() {
    run("(list 1 2 3)", FUEL, |r| assert_eq!(ints(&r.unwrap()), vec![1, 2, 3]));
    run("(cons 0 (list 1 2))", FUEL, |r| assert_eq!(ints(&r.unwrap()), vec![0, 1, 2]));
    run("(nil)", FUEL, |r| assert_eq!(ints(&r.unwrap()), Vec::<i32>::new()));
    run("(seq-rev (list 1 2 3))", FUEL, |r| assert_eq!(ints(&r.unwrap()), vec![3, 2, 1]));
    run("(seq-map (lambda (x) (* x x)) (list 1 2 3))", FUEL, |r| {
        assert_eq!(ints(&r.unwrap()), vec![1, 4, 9])
    });
    run("(seq-flat-map (lambda (x) (list x x)) (list 1 2))", FUEL, |r| {
        assert_eq!(ints(&r.unwrap()), vec![1, 1, 2, 2])
    });
    run("(seq-filter (lambda (x) (not (if x #f #t))) (list #t #f #t))", FUEL, |r| match r {
        Ok(Value::List(items)) => assert_eq!(items.len(), 2),
        _ => panic!("expected a list"),
    });
    assert_eq!(int_of("(seq-fold + (list 1 2 3) 10)"), Some(16));
    assert_eq!(int_of("(seq-find (lambda (x) #t) (list 4 5))"), Some(4));
    run("(seq-find (lambda (x) #f) (list 4 5))", FUEL, |r| assert!(matches!(r, Ok(Value::Unit))));
    run("(seq-map 1 (list 1))", FUEL, |r| assert!(matches!(r, Err(EvalError::WrongType(ValueKind::Fn)))));
    run("(seq-map + 1)", FUEL, |r| assert!(matches!(r, Err(EvalError::WrongType(ValueKind::List)))));
    run("(seq-fold + (list 1))", FUEL, |r| assert!(matches!(r, Err(EvalError::WrongArity(Arity::Static(3))))));
    run("(seq-map + (list 1) 2)", FUEL, |r| assert!(matches!(r, Err(EvalError::WrongArity(Arity::Static(2))))));
    run("(cons 1 2)", FUEL, |r| assert!(matches!(r, Err(EvalError::WrongType(ValueKind::List)))));
    run("(cons 1)", FUEL, |r| assert!(matches!(r, Err(EvalError::WrongArity(Arity::Static(2))))));
}

#[test]
fn text_paths_and_recovery() {
    run("(concat \"a\" \"b\" \"c\")", FUEL, |r| assert!(matches!(r, Ok(Value::String(ref s)) if s == "abc")));
    assert_eq!(int_of("(try-catch (lambda () (/ 1 0)) (lambda () 7))"), Some(7));
    assert_eq!(int_of("(try-catch (lambda () 3) (lambda () 7))"), Some(3));
    assert_eq!(int_of("(progn 1 2 3)"), Some(3));
    run("(progn)", FUEL, |r| assert!(matches!(r, Err(EvalError::NoBody))));
}

#[test]
fn evaluation_stops_when_the_budget_runs_out() {
    run("(+ 1 2)", 0, |r| assert!(matches!(r, Err(EvalError::OutOfFuel))));
    run("(+ 1 2)", 1, |r| assert!(matches!(r, Ok(Value::Int(3)))));
    run("(+ 1 (+ 1 (+ 1 1)))", 2, |r| assert!(matches!(r, Err(EvalError::OutOfFuel))));
    run("(+ 1 (+ 1 (+ 1 1)))", 3, |r| assert!(matches!(r, Ok(Value::Int(4)))));
    run("()", 0, |r| assert!(matches!(r, Err(EvalError::EmptyApply))));
}

#[test]
fn literals_and_names_need_no_budget() {
    run("7", 0, |r| assert!(matches!(r, Ok(Value::Int(7)))));
    run("\"a\"", 0, |r| assert!(matches!(r, Ok(Value::String(_)))));
    run("concat", 0, |r| assert!(matches!(r, Ok(Value::Fn(_)))));
    run("missing", 0, |r| assert!(matches!(r, Err(EvalError::NotFound(_)))));
}

#[test]
fn a_call_gets_a_frame_of_its_own_unless_it_is_a_tail_call() {
    let lexemes = LexemeParser.lexemes("(let ((x 1)) x)");
    let expr = ExprParser.parse(&lexemes).unwrap().output;
    let mut env = Environment::new();
    assert!(matches!(env.eval(&Term::Expr(&expr), FUEL), Ok(Value::Int(1))));
    assert!(env.get("x").is_none());
    assert!(matches!(env.eval_tail_call(&Term::Expr(&expr), FUEL), Ok(Value::Int(1))));
    assert!(matches!(env.get("x"), Some(Value::Int(1))));
}

#[test]
fn environments_bind_names() {
    let mut env = Environment::with_symbols(vec![("answer", Value::Int(42))]);
    assert!(matches!(env.get("answer"), Some(Value::Int(42))));
    assert!(matches!(env.get("+"), Some(Value::Fn(_))));
    env.insert("answer", Value::Int(7));
    assert!(matches!(env.get("answer"), Some(Value::Int(7))));
    assert!(env.get("question").is_none());
    assert!(Environment::new().get("answer").is_none());
}

#[test]
fn text_becomes_a_path() {
    let lexemes = LexemeParser.lexemes("(to-path \"/music\")");
    let expr = ExprParser.parse(&lexemes).unwrap().output;
    let mut env = Environment::with_symbols(vec![("to-path", Value::Fn(Function::Builtin(Builtin::Path)))]);
    assert!(matches!(env.eval(&Term::Expr(&expr), FUEL), Ok(Value::Path(ref s)) if s == "/music"));
    let lexemes = LexemeParser.lexemes("(to-path 1)");
    let expr = ExprParser.parse(&lexemes).unwrap().output;
    assert!(matches!(env.eval(&Term::Expr(&expr), FUEL), Err(EvalError::WrongType(ValueKind::String))));
    let lexemes = LexemeParser.lexemes("(to-path)");
    let expr = ExprParser.parse(&lexemes).unwrap().output;
    assert!(matches!(env.eval(&Term::Expr(&expr), FUEL), Err(EvalError::WrongArity(Arity::Static(1)))));
}

#[test]
fn values_compare_by_what_they_hold() {
    let list = |xs: &[i32]| Value::List(xs.iter().map(|x| Value::Int(*x)).collect());
    assert!(Value::Unit.equals(&Value::Unit));
    assert!(Value::Int(1).equals(&Value::Int(1)));
    assert!(!Value::Int(1).equals(&Value::Int(2)));
    assert!(Value::String("a".to_string()).equals(&Value::String("a".to_string())));
    assert!(!Value::String("a".to_string()).equals(&Value::Path("a".to_string())));
    assert!(list(&[1, 2]).equals(&list(&[1, 2])));
    assert!(!list(&[1, 2]).equals(&list(&[1, 3])));
    assert!(!list(&[1, 2]).equals(&list(&[1])));
    let f = Value::Fn(Function::Builtin(Builtin::Add));
    assert!(!f.equals(&f));
}

#[test]
fn paths_and_their_names() {
    run("(path \"/music/a.mp3\")", FUEL, |r| assert!(matches!(r, Ok(Value::Path(ref s)) if s == "/music/a.mp3")));
    run("(path-name (path \"/music/a.mp3\"))", FUEL, |r| assert!(matches!(r, Ok(Value::String(ref s)) if s == "a.mp3")));
    run("(path-name (path \"/usr/bin/\"))", FUEL, |r| assert!(matches!(r, Ok(Value::String(ref s)) if s == "bin")));
    run("(path-name (path \"/\"))", FUEL, |r| assert!(matches!(r, Ok(Value::String(ref s)) if s.is_empty())));
    run("(path-name (path \"a/..\"))", FUEL, |r| assert!(matches!(r, Ok(Value::String(ref s)) if s.is_empty())));
    run("(path-name \"a\")", FUEL, |r| assert!(matches!(r, Err(EvalError::WrongType(ValueKind::Path)))));
    run("(path 1)", FUEL, |r| assert!(matches!(r, Err(EvalError::WrongType(ValueKind::String)))));
}

#[test]
fn the_prelude_binds_every_built_in() {
    let env = Environment::new();
    let names = [
        "+", "-", "/", "*", "%", "concat", "cons", "env", "if", "lambda", "let", "list", "nil", "not", "path",
        "path-children", "path-exists", "path-is-dir", "path-is-file", "path-name", "path-separator", "progn",
        "seq-filter", "seq-find", "seq-flat-map", "seq-fold", "seq-map", "seq-rev", "try-catch",
    ];
    assert_eq!(names.len(), 29);
    for name in names {
        assert!(matches!(env.get(name), Some(Value::Fn(_))), "{name}");
    }
    assert!(env.get("string->path").is_none());
    assert!(env.get("set-cfg!").is_none());
}

#[test]
fn a_non_name_parameter_is_refused_with_its_kind() {
    run("(lambda ((x) y) y)", FUEL, |r| {
        assert!(matches!(r, Err(EvalError::NonIdentListBinding(ExprTy::List))))
    });
    run("(lambda (x \"y\") x)", FUEL, |r| {
        assert!(matches!(r, Err(EvalError::NonIdentListBinding(ExprTy::Literal))))
    });
}

fn run_with(
    src: &str,
    facts: Vec<HostFact>,
    check: impl for<'a> FnOnce(Result<Value<'a>, EvalError<'a>>),
) {
    let lexemes = LexemeParser.lexemes(src);
    let expr = ExprParser.parse(&lexemes).unwrap().output;
    let mut env = Environment::new();
    for f in facts {
        env.answer(f);
    }
    check(env.eval(&Term::Expr(&expr), FUEL));
}

#[test]
fn environment_variables_come_from_recorded_answers() {
    run_with("(env \"HOME\")", vec![], |r| {
        assert!(matches!(r, Err(EvalError::NeedsHost(HostQuery::EnvVar(ref n))) if n == "HOME"))
    });
    let home = || HostFact::EnvVar("HOME".to_string(), Ok("/home/u".to_string()));
    run_with("(env \"HOME\")", vec![home()], |r| {
        assert!(matches!(r, Ok(Value::String(ref s)) if s == "/home/u"))
    });
    let unset = HostFact::EnvVar("NOPE".to_string(), Err(EnvVarError::NotPresent));
    run_with("(env \"NOPE\")", vec![home(), unset], |r| {
        assert!(matches!(r, Err(EvalError::EnvVar(EnvVarError::NotPresent, ref n)) if n == "NOPE"))
    });
    run_with("(env 1)", vec![], |r| assert!(matches!(r, Err(EvalError::WrongType(ValueKind::String)))));
    run_with("(env)", vec![], |r| assert!(matches!(r, Err(EvalError::WrongArity(Arity::Static(1))))));
}

#[test]
fn path_questions_come_from_recorded_answers() {
    let dir = || HostFact::PathFlag(PathQuestion::IsDir, "/m".to_string(), true);
    let file = || HostFact::PathFlag(PathQuestion::IsDir, "/m/a".to_string(), false);
    run_with("(path-is-dir (path \"/m\"))", vec![dir()], |r| assert!(matches!(r, Ok(Value::Bool(true)))));
    run_with("(path-is-dir (path \"/m/a\") (path \"/x\"))", vec![dir(), file()], |r| {
        assert!(matches!(r, Ok(Value::Bool(false))))
    });
    run_with("(path-is-dir (path \"/m\") (path \"/x\"))", vec![dir()], |r| {
        assert!(matches!(r, Err(EvalError::NeedsHost(HostQuery::PathFlag(PathQuestion::IsDir, ref p))) if p == "/x"))
    });
    run_with("(path-exists)", vec![], |r| assert!(matches!(r, Err(EvalError::WrongArity(Arity::RangeFrom(1))))));
    run_with("(path-is-file \"/m\")", vec![], |r| assert!(matches!(r, Err(EvalError::WrongType(ValueKind::Path)))));
    let children = HostFact::PathChildren("/m".to_string(), Ok(vec!["/m/a".to_string(), "/m/b".to_string()]));
    run_with("(path-children (path \"/m\"))", vec![children], |r| match r {
        Ok(Value::List(items)) => {
            assert_eq!(items.len(), 2);
            assert!(matches!(items[1], Value::Path(ref p) if p == "/m/b"));
        },
        _ => panic!("expected a list"),
    });
    let unreadable = HostFact::PathChildren("/m".to_string(), Err("denied".to_string()));
    run_with("(path-children (path \"/m\"))", vec![unreadable], |r| {
        assert!(matches!(r, Err(EvalError::ReadPath(ref e, ref p)) if e == "denied" && p == "/m"))
    });
    run_with("(path-separator)", vec![], |r| {
        assert!(matches!(r, Ok(Value::String(ref s)) if s == std::path::MAIN_SEPARATOR_STR))
    });
}
