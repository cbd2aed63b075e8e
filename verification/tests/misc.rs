use empl::argv::{argument_count, ArgError, Argv, ArgvError};
use empl::clisp::arity::Arity;
use empl::clisp::lexer::{Lexeme, LexemeParser, Literal};
use empl::lisp::ast::{Expr, ExprParser, ExprTy};
use empl::lisp::parser::{parser_fn, Any, Empty, Just, ParserInput};

#[test]
fn argument_counts() {
    assert_eq!(argument_count(3, true).ok(), Some(3));
    assert!(matches!(argument_count(3, false), Err(ArgvError::Null)));
    assert!(matches!(argument_count(-1, true), Err(ArgvError::InvalidArgc(_))));
    assert_eq!(ArgvError::Null.message(), "`argv` is null");
}

#[test]
fn argv_reads_utf8_arguments() {
    let mut argv = Argv::new(vec![Some("empl".as_bytes()), Some(&[0xff][..]), None]);
    assert_eq!(argv.next(), Some(Ok("empl")));
    assert_eq!(argv.next(), Some(Err(ArgError::Utf8(&[0xff][..]))));
    assert_eq!(argv.next(), Some(Err(ArgError::Null)));
    assert_eq!(argv.next(), Some(Err(ArgError::Null)));
    let mut done = Argv::new(vec![]);
    assert_eq!(done.next(), None);
}

#[test]
fn arities() {
    assert!(Arity::Static(2).accepts(2));
    assert!(!Arity::Static(2).accepts(3));
    assert!(Arity::RangeFrom(2).accepts(5));
    assert!(!Arity::RangeFrom(2).accepts(1));
    assert!(Arity::Range(2..3).accepts(2));
    assert!(!Arity::Range(2..3).accepts(3));
}

#[test]
fn lists_may_be_empty() {
    let lexemes = LexemeParser.lexemes(" ()");
    let parsed = ExprParser.parse(&lexemes).unwrap();
    assert!(matches!(&parsed.output, Expr::List(items) if items.is_empty()));
    assert_eq!(ExprTy::from(&parsed.output), ExprTy::List);
    assert_eq!(ExprTy::from(&parsed.output).name(), "list");
    let lexemes = LexemeParser.lexemes("(a (b) c)");
    let parsed = ExprParser.parse(&lexemes).unwrap();
    match &parsed.output {
        Expr::List(items) => {
            assert_eq!(items.len(), 3);
            assert!(matches!(items[0], Expr::Literal(Literal::Ident("a"))));
        },
        _ => panic!("expected a list"),
    }
    let lexemes = LexemeParser.lexemes(")");
    assert!(ExprParser.parse(&lexemes).is_none());
    let empty: Vec<Lexeme> = vec![];
    assert!(ExprParser.parse(&empty).is_none());
}

#[test]
fn inputs_track_offsets() {
    let mut input = ParserInput::new("éa");
    assert_eq!(Any.parse(&mut input), Some('é'));
    assert_eq!(input.offset(), 2);
    assert_eq!(Just('b').parse(&mut input), None);
    assert_eq!(input.offset(), 2);
    assert_eq!(Empty.parse(&mut input), Some(()));
    assert_eq!(Just('a').parse(&mut input), Some('a'));
    assert_eq!(input.offset(), 3);
    let kept = input.branch(|i| i.next());
    assert_eq!(kept, None);
    let p = parser_fn(|i: &mut ParserInput<&str>| i.next());
    let mut other = ParserInput::new("xy");
    assert_eq!(p.parse(&mut other), Some('x'));
}
