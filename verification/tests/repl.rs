use empl::clisp::ast::{Expr, ExprError, ExprParser};
use empl::clisp::lexer::{Lexeme, LexemeParser, Literal};
use empl::flag::{Arguments, Flag};
use empl::repl::{Config, ConfigError, Stage};

fn args(v: &[&'static str]) -> Arguments<'static, ()> {
    Arguments::new(v.iter().map(|s| Ok(*s)).collect())
}

#[test]
fn stage_names() {
    assert_eq!(Stage::try_from("lex").ok(), Some(Stage::Lex));
    assert_eq!(Stage::try_from("parse").ok(), Some(Stage::Parse));
    assert_eq!(Stage::try_from("eval").ok(), Some(Stage::Eval));
    let e = Stage::try_from("run").err().unwrap();
    assert_eq!(e.message(), "`run` is not a recognized stage");
}

#[test]
fn default_stage_is_eval() {
    assert_eq!(Config::new(args(&[])).ok().unwrap().stage, Stage::Eval);
}

#[test]
fn stage_flag_sets_the_stage() {
    assert_eq!(Config::new(args(&["-s", "lex"])).ok().unwrap().stage, Stage::Lex);
    assert_eq!(Config::new(args(&["--stage=parse"])).ok().unwrap().stage, Stage::Parse);
    assert_eq!(Config::new(args(&["-slex", "--stage", "eval"])).ok().unwrap().stage, Stage::Eval);
}

#[test]
fn stage_flag_errors() {
    assert!(matches!(Config::new(args(&["-s"])), Err(ConfigError::NoValue(Flag::Short('s')))));
    assert!(matches!(Config::new(args(&["-x"])), Err(ConfigError::UnknownFlag(Flag::Short('x')))));
    assert!(matches!(Config::new(args(&["-s", "go"])), Err(ConfigError::UnknownStage(_))));
}

#[test]
fn expressions_nest() {
    let lexemes = LexemeParser.lexemes("( f  (g 1) \"x\" )");
    let parsed = ExprParser.parse(&lexemes).ok().unwrap();
    assert!(parsed.next.is_empty());
    match parsed.output {
        Expr::Apply(items) => {
            assert_eq!(items.len(), 3);
            assert!(matches!(items[0], Expr::Literal(Literal::Ident("f"))));
            match &items[1] {
                Expr::Apply(inner) => assert_eq!(inner.len(), 2),
                _ => panic!("expected an application"),
            }
        },
        _ => panic!("expected an application"),
    }
}

#[test]
fn expression_errors() {
    let empty: Vec<Lexeme> = Vec::new();
    assert!(matches!(ExprParser.parse(&empty), Err(ExprError::Eof(_))));
    let unclosed = LexemeParser.lexemes("(f 1");
    assert!(matches!(ExprParser.parse(&unclosed), Err(ExprError::NonLiteral(Lexeme::LParen))));
    let literal = LexemeParser.lexemes("42 rest");
    let parsed = ExprParser.parse(&literal).ok().unwrap();
    assert!(matches!(parsed.output, Expr::Literal(Literal::Int(42))));
    assert_eq!(parsed.next.len(), 2);
}
