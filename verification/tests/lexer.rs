use empl::clisp::lexer::{
    EscapeCharacterParser, IdentParser, IntParser, Lexeme, LexemeParser, Literal, LiteralParser,
    StringParser, WhitespaceParser,
};
use empl::clisp::parser::{ParserError, ParserOutput};
use empl::clisp::token::{Any, Just, Sequence};
use std::borrow::Cow;

#[test]
fn ident_parser() {
    assert_eq!(IdentParser.parse(""), None);
    assert_eq!(IdentParser.parse("foo"), Some(ParserOutput::new("", "foo")));
    assert_eq!(IdentParser.parse("*"), Some(ParserOutput::new("", "*")));
    assert_eq!(IdentParser.parse("1foo"), None);
    assert_eq!(IdentParser.parse("set-cfg! x"), Some(ParserOutput::new(" x", "set-cfg!")));
}

#[test]
fn int_parser() {
    assert_eq!(IntParser::<10, i32>::new().parse("123abc"), Some(ParserOutput::new("abc", 123)));
    assert_eq!(IntParser::<10, i32>::new().parse("abc"), None);
    assert_eq!(IntParser::<10, i32>::new().parse("99999999999"), None);
    assert_eq!(IntParser::<16, u32>::new().parse("FACE}"), Some(ParserOutput::new("}", 0xFACE)));
    assert_eq!(IntParser::<10, u8>::new().parse("256"), None);
}

#[test]
fn escape_parser() {
    assert_eq!(
        EscapeCharacterParser.parse("\\u{FACE}"),
        Some(ParserOutput::new("", '\u{FACE}'))
    );
    assert_eq!(EscapeCharacterParser.parse("\\nx"), Some(ParserOutput::new("x", '\n')));
    assert_eq!(EscapeCharacterParser.parse("\\q"), None);
    assert_eq!(EscapeCharacterParser.parse("\\u{D800}"), None);
    assert_eq!(EscapeCharacterParser.parse("\\u{}"), None);
}

#[test]
fn string_parser() {
    assert_eq!(
        StringParser.parse(r#""hello world""#),
        Some(ParserOutput::new("", Cow::Borrowed("hello world")))
    );
    assert_eq!(
        StringParser.parse(r#""\u{CAFE}""#),
        Some(ParserOutput::new("", Cow::Borrowed("\u{CAFE}")))
    );
    let escaped = StringParser.parse(r#""a\nb" rest"#).unwrap();
    assert_eq!(escaped.next, " rest");
    assert!(matches!(escaped.output, Cow::Owned(_)));
    assert_eq!(escaped.output, "a\nb");
    let plain = StringParser.parse(r#""ab""#).unwrap();
    assert!(matches!(plain.output, Cow::Borrowed(_)));
    assert_eq!(StringParser.parse(r#""unterminated"#), None);
    assert_eq!(StringParser.parse(r#""bad \q""#), None);
}

#[test]
fn whitespace_parser() {
    assert_eq!(WhitespaceParser.parse("    "), Some(ParserOutput::new("", ())));
    assert_eq!(
        WhitespaceParser.parse("\n\n    ; foo\nbar"),
        Some(ParserOutput::new("bar", ()))
    );
    assert_eq!(WhitespaceParser.parse("; no newline"), None);
    assert_eq!(WhitespaceParser.parse("x"), None);
}

#[test]
fn literal_and_lexeme_parser() {
    assert_eq!(LiteralParser.parse("#t)"), Some(ParserOutput::new(")", Literal::Bool(true))));
    assert_eq!(LiteralParser.parse("#f"), Some(ParserOutput::new("", Literal::Bool(false))));
    assert_eq!(LiteralParser.parse("42 "), Some(ParserOutput::new(" ", Literal::Int(42))));
    assert_eq!(LiteralParser.parse("-5"), Some(ParserOutput::new("", Literal::Ident("-5"))));
    assert_eq!(LiteralParser.parse("#x"), None);
    let lexemes = LexemeParser.lexemes("(+ 1 \"two\") ; c\n");
    assert_eq!(
        lexemes,
        vec![
            Lexeme::LParen,
            Lexeme::Literal(Literal::Ident("+")),
            Lexeme::Whitespace,
            Lexeme::Literal(Literal::Int(1)),
            Lexeme::Whitespace,
            Lexeme::Literal(Literal::String(Cow::Borrowed("two"))),
            Lexeme::RParen,
            Lexeme::Whitespace,
        ]
    );
    assert_eq!(LexemeParser.lexemes("(a #"), vec![Lexeme::LParen, Lexeme::Literal(Literal::Ident("a")), Lexeme::Whitespace]);
}

#[test]
fn token_parsers() {
    assert_eq!(Just('h').parse("hello"), Ok(ParserOutput::new("ello", 'h')));
    assert_eq!(
        Just('h').parse("goodbye"),
        Err(ParserError::Match { expected: 'h', found: 'g' })
    );
    assert!(matches!(Just('h').parse(""), Err(ParserError::Eof(_))));
    assert_eq!(
        Sequence::new("hello").parse("hello world"),
        Ok(ParserOutput::new(" world", "hello"))
    );
    assert_eq!(
        Sequence::new("hello").parse("goodbye world"),
        Err(ParserError::Match { expected: 'h', found: 'g' })
    );
    assert!(matches!(Sequence::new("hello").parse("hel"), Err(ParserError::Eof(_))));
    assert_eq!(Any::<&str>::new().parse("ab"), Ok(ParserOutput::new("b", 'a')));
    assert!(Any::<&str>::new().parse("").is_err());
}
