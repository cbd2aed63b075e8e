use empl::command::color::{Background, Color, Foreground};
use empl::command::{PrintPadded, TryFoldError};

#[test]
fn padded_text_fills_the_width() {
    let p = PrintPadded { text: "abc", padding: ' ', width: 5 };
    assert_eq!(p.write_ansi(), "abc  ");
    assert_eq!(p.try_write_ansi(), Some("abc  ".to_string()));
}

#[test]
fn long_text_is_cut() {
    let p = PrintPadded { text: "abcdef".to_string(), padding: '.', width: 3 };
    assert_eq!(p.write_ansi(), "abc");
}

#[test]
fn wide_characters_take_two_columns() {
    let p = PrintPadded { text: "日本", padding: '-', width: 3 };
    assert_eq!(p.write_ansi(), "日");
    let q = PrintPadded { text: "a", padding: '日', width: 6 };
    assert_eq!(q.write_ansi(), "a日日");
}

#[test]
fn zero_width_padding_is_refused_when_text_fits() {
    let p = PrintPadded { text: "ab", padding: '\u{200B}', width: 4 };
    assert_eq!(p.try_write_ansi(), None);
    let q = PrintPadded { text: "abcdef", padding: '\u{200B}', width: 4 };
    assert_eq!(q.try_write_ansi(), Some("abcd".to_string()));
}

#[test]
fn break_is_success() {
    assert!(TryFoldError::Break.into_result().is_ok());
    assert!(TryFoldError::Fmt(std::fmt::Error).into_result().is_err());
}

#[test]
fn palette_sequences() {
    assert_eq!(Foreground(Color::Red).ansi(), "\x1b[38;5;9m");
    assert_eq!(Background(Color::White).ansi(), "\x1b[48;5;15m");
    assert_eq!(Foreground(Color::Black).ansi(), "\x1b[38;5;0m");
    assert_eq!(Color::Cyan.index(), 14);
}
