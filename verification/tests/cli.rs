use empl::cli::argv::{usable_count, Argv};
use empl::cli::parser::{classify_opt, read_options, usage_message, version_message, CliAction, OptError, ParserCliArgumentsError};
use empl::config::path_segment::{default_paths, PathSegment};
use empl::config::{color_of_variant_name, Color, Colors};
use empl::display::state::{DisplayStateWriter, Focus};
use empl::display::ByteOpt;

#[test]
fn c_argument_lists() {
    assert_eq!(usable_count(2, true), 2);
    assert_eq!(usable_count(-1, true), 0);
    assert_eq!(usable_count(2, false), 0);
    let mut argv = Argv::new(vec![Some(&b"foo"[..]), None, Some(&b"bar"[..])]);
    assert_eq!(argv.next(), Some(&b"foo"[..]));
    assert_eq!(argv.next(), Some(&b"bar"[..]));
    assert_eq!(argv.next(), None);
}

#[test]
fn options_ask_for_help_or_version() {
    assert_eq!(classify_opt(ByteOpt::Short(b'h')), CliAction::Help);
    assert_eq!(classify_opt(ByteOpt::Long(b"help")), CliAction::Help);
    assert_eq!(classify_opt(ByteOpt::Long(b"version")), CliAction::Version);
    assert_eq!(classify_opt(ByteOpt::Short(b'x')), CliAction::UnknownFlag(ByteOpt::Short(b'x')));
    assert_eq!(version_message("empl", "2.1.6"), "empl 2.1.6");
    assert!(usage_message("empl").starts_with("Usage: empl [OPTIONS..]"));
    assert!(usage_message("empl").ends_with("`${HOME}/.config/empl/main.scm`."));
}

#[test]
fn colors_join() {
    let red = Colors { foreground: Some(Color::Red), background: Some(Color::Red) };
    let blue = Colors { foreground: Some(Color::Blue), background: Some(Color::Blue) };
    let none = Colors { foreground: None, background: None };
    let mut a = none;
    a.join(&red);
    assert_eq!(a, red);
    let mut b = blue;
    b.join(&red);
    assert_eq!(b, red);
    let mut c = blue;
    c.join(&none);
    assert_eq!(c, blue);
}

#[test]
fn writer_replaces_the_state() {
    let playlists = vec![("a".to_string(), vec![("s".to_string(), "/a/s".to_string())])];
    let mut w = DisplayStateWriter::new(&playlists, Some((10, 10)));
    w.write(|mut s| {
        s.focus = Focus::Songs;
        s
    });
    assert_eq!(w.state().focus, Focus::Songs);
}

#[test]
fn configuration_paths() {
    let paths = default_paths();
    assert_eq!(paths.len(), 2);
    assert_eq!(paths[0][0], PathSegment::EnvVar("XDG_CONFIG_HOME"));
    assert_eq!(paths[1][1], PathSegment::Segment(".config"));
}

#[test]
fn argv_new() {
    let foo_bar: Vec<Option<&[u8]>> = vec![Some(&b"foo"[..]), Some(&b"bar"[..])];
    for argc in [0, -1] {
        for present in [true, false] {
            let n = usable_count(argc, present);
            assert_eq!(n, 0);
            let mut argv = Argv::new(foo_bar[..n].to_vec());
            assert_eq!(argv.next(), None);
        }
    }
    for len in 0..=2 {
        let n = usable_count(len, true);
        assert_eq!(n, len as usize);
        let mut argv = Argv::new(foo_bar[..n].to_vec());
        let read: Vec<&[u8]> = std::iter::from_fn(|| argv.next()).collect();
        let expected: Vec<&[u8]> = vec![&b"foo"[..], &b"bar"[..]];
        assert_eq!(read, expected[..n].to_vec());
    }
}

#[test]
fn color_names_are_read_by_the_terminal_library() {
    assert_eq!(Color::from_name("red"), Some(Color::Red));
    assert_eq!(Color::from_name("Dark_Red"), Some(Color::DarkRed));
    assert_eq!(Color::from_name("GREY"), Some(Color::Grey));
    assert_eq!(Color::from_name("reset"), Some(Color::Reset));
    assert_eq!(Color::from_name("purple"), None);
    assert_eq!(Color::from_name("DarkRed"), None);
    assert_eq!(Color::from_name("dar\u{212A}_red"), Some(Color::DarkRed));
}

#[test]
fn color_variant_names_map_to_colors() {
    assert_eq!(color_of_variant_name("DarkCyan"), Some(Color::DarkCyan));
    assert_eq!(color_of_variant_name("White"), Some(Color::White));
    assert_eq!(color_of_variant_name("dark_cyan"), None);
    assert_eq!(color_of_variant_name(""), None);
}

fn read_args(args: &[&'static str]) -> Result<Option<CliAction<'static>>, ParserCliArgumentsError<'static>> {
    let bytes: Vec<&'static [u8]> = args.iter().map(|a| a.as_bytes()).collect();
    read_options(&bytes)
}

#[test]
fn the_first_option_decides() {
    assert_eq!(read_args(&["-h"]), Ok(Some(CliAction::Help)));
    assert_eq!(read_args(&["--help", "-x"]), Ok(Some(CliAction::Help)));
    assert_eq!(read_args(&["--help=now"]), Ok(Some(CliAction::Help)));
    assert_eq!(read_args(&["--version"]), Ok(Some(CliAction::Version)));
    assert_eq!(read_args(&["-vh"]), Ok(Some(CliAction::Version)));
    assert_eq!(read_args(&["-x"]), Err(ParserCliArgumentsError::UnknownFlag(ByteOpt::Short(b'x'))));
    assert_eq!(read_args(&["--x=1"]), Err(ParserCliArgumentsError::UnknownFlag(ByteOpt::Long(b"x"))));
    assert_eq!(read_args(&["---"]), Err(ParserCliArgumentsError::UnknownFlag(ByteOpt::Long(b"-"))));
}

#[test]
fn no_option_before_the_first_positional_argument() {
    assert_eq!(read_args(&[]), Ok(None));
    assert_eq!(read_args(&["--", "-h"]), Ok(None));
    assert_eq!(read_args(&["-"]), Ok(None));
    assert_eq!(read_args(&["song", "-h"]), Ok(None));
}

#[test]
fn option_reader_refusals_become_parser_errors() {
    assert_eq!(
        ParserCliArgumentsError::from_opt_error(OptError::RequiresValue(ByteOpt::Short(b'c'))),
        ParserCliArgumentsError::MissingValue(ByteOpt::Short(b'c'))
    );
    assert_eq!(
        ParserCliArgumentsError::from_opt_error(OptError::DoesNotRequireValue(ByteOpt::Long(b"help"))),
        ParserCliArgumentsError::UnexpectedValue(ByteOpt::Long(b"help"))
    );
}
