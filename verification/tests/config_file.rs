use empl::clisp::arity::Arity;
use empl::clisp::lexer::LexemeParser;
use empl::config::lisp::{
    color_from_value, config_path, execute, parse_source, set_cfg, InvalidColorError, LispError,
    CONFIG_FILE_NAME,
};
use empl::config::{Color, Colors, Config, EmptyConfigError, IntermediateConfig, KeyAction, KeyCode, KeyModifiers};
use empl::lisp::evaluator::{EvalError, Value, ValueKind};

const FUEL: u64 = 1000;

fn configure(src: &str, check: impl for<'a> FnOnce(Result<IntermediateConfig, LispError<'a>>)) {
    let lexemes = LexemeParser.lexemes(src);
    let expr = parse_source(&lexemes).expect("the text holds an expression");
    check(execute(&expr, vec![], FUEL));
}

#[test]
fn set_cfg_sets_colors() {
    configure("(set-cfg! \"cursor-colors\" (list \"red\" \"none\"))", |r| {
        let c = r.unwrap();
        assert_eq!(c.cursor_colors, Colors { foreground: Some(Color::Red), background: None });
        assert_eq!(c.menu_colors, Colors { foreground: None, background: None });
        assert!(c.key_bindings.is_empty());
        assert!(c.playlists.is_empty());
    });
    configure("(set-cfg! \"menu-colors\" (list (list 1 2 3) \"Dark_Blue\"))", |r| {
        let c = r.unwrap();
        assert_eq!(
            c.menu_colors,
            Colors { foreground: Some(Color::Rgb { r: 1, g: 2, b: 3 }), background: Some(Color::DarkBlue) }
        );
    });
    configure(
        "(progn (set-cfg! \"selection-colors\" (list \"blue\" \"red\")) (set-cfg! \"selection-colors\" (list \"none\" \"green\")))",
        |r| {
            let c = r.unwrap();
            assert_eq!(c.selection_colors, Colors { foreground: None, background: Some(Color::Green) });
        },
    );
}

#[test]
fn unknown_color_names_are_white() {
    configure("(set-cfg! \"cursor-colors\" (list \"blurple\" \"NONE\"))", |r| {
        let c = r.unwrap();
        assert_eq!(c.cursor_colors, Colors { foreground: Some(Color::White), background: Some(Color::White) });
    });
}

#[test]
fn invalid_colors() {
    configure("(set-cfg! \"cursor-colors\" (list (list 1 2 300) \"red\"))", |r| {
        assert!(matches!(r, Err(LispError::Eval(EvalError::InvalidColor(InvalidColorError::InvalidRgb(_))))))
    });
    configure("(set-cfg! \"cursor-colors\" (list (list 1 2) \"red\"))", |r| {
        assert!(matches!(r, Err(LispError::Eval(EvalError::InvalidColor(InvalidColorError::WrongListArity)))))
    });
    configure("(set-cfg! \"cursor-colors\" (list (list 1 #t 3) \"red\"))", |r| {
        assert!(matches!(
            r,
            Err(LispError::Eval(EvalError::InvalidColor(InvalidColorError::WrongListType(Value::Bool(true)))))
        ))
    });
    configure("(set-cfg! \"cursor-colors\" (list 1 \"red\"))", |r| {
        assert!(matches!(
            r,
            Err(LispError::Eval(EvalError::InvalidColor(InvalidColorError::WrongType(Value::Int(1)))))
        ))
    });
    configure("(set-cfg! \"cursor-colors\" (list \"red\"))", |r| {
        assert!(matches!(r, Err(LispError::Eval(EvalError::WrongListArity(Arity::Static(2))))))
    });
    configure("(set-cfg! \"cursor-colors\" \"red\")", |r| {
        assert!(matches!(r, Err(LispError::Eval(EvalError::WrongType(ValueKind::List)))))
    });
    assert!(matches!(color_from_value(&Value::String("none".to_string())), Ok(None)));
    assert!(matches!(color_from_value(&Value::String("grey".to_string())), Ok(Some(Color::Grey))));
}

#[test]
fn set_cfg_sets_key_bindings() {
    configure(
        "(set-cfg! \"key-bindings\" (list (list \"quit\" (list (list \"\" \"q\") (list \"cS\" \"esc\"))) (list \"skip-song\" (list (list \"\" \"f5\")))))",
        |r| {
            let c = r.unwrap();
            assert_eq!(c.key_bindings.len(), 2);
            assert_eq!(c.key_bindings[0].0, KeyAction::Quit);
            assert_eq!(
                c.key_bindings[0].1,
                vec![(KeyModifiers(0), KeyCode::Char('q')), (KeyModifiers(3), KeyCode::Esc)]
            );
            assert_eq!(c.key_bindings[1].0, KeyAction::SkipSong);
            assert_eq!(c.key_bindings[1].1, vec![(KeyModifiers(0), KeyCode::F(5))]);
        },
    );
}

#[test]
fn invalid_key_bindings() {
    configure("(set-cfg! \"key-bindings\" (nil))", |r| {
        assert!(matches!(r, Err(LispError::Eval(EvalError::WrongArity(Arity::RangeFrom(1))))))
    });
    configure("(set-cfg! \"key-bindings\" (list (list \"dance\" (list (list \"\" \"q\")))))", |r| match r {
        Err(LispError::Eval(EvalError::UnknownKeyAction(e))) => assert_eq!(e.0, "dance"),
        _ => panic!("expected an unknown action"),
    });
    configure("(set-cfg! \"key-bindings\" (list (list \"quit\" (nil))))", |r| {
        assert!(matches!(r, Err(LispError::Eval(EvalError::WrongListArity(Arity::RangeFrom(1))))))
    });
    configure("(set-cfg! \"key-bindings\" (list (list \"quit\" (list (list \"x\" \"q\")))))", |r| {
        assert!(matches!(r, Err(LispError::Eval(EvalError::UnknownKeyModifier('x')))))
    });
    configure("(set-cfg! \"key-bindings\" (list (list \"quit\" (list (list \"\" \"nope\")))))", |r| match r {
        Err(LispError::Eval(EvalError::UnknownKeyCode(name))) => assert_eq!(name, "nope"),
        _ => panic!("expected an unknown key"),
    });
    configure("(set-cfg! \"key-bindings\" (list (list \"quit\")))", |r| {
        assert!(matches!(r, Err(LispError::Eval(EvalError::WrongListArity(Arity::Static(2))))))
    });
}

fn text(s: &str) -> Value<'static> {
    Value::String(s.to_string())
}

fn path(s: &str) -> Value<'static> {
    Value::Path(s.to_string())
}

#[test]
fn set_cfg_sets_playlists() {
    let songs = Value::List(vec![
        Value::List(vec![text("one"), path("/m/1.mp3")]),
        Value::List(vec![text("two"), path("/m/2.mp3")]),
    ]);
    let playlists = Value::List(vec![Value::List(vec![text("rock"), songs])]);
    let mut c = IntermediateConfig::new();
    assert!(set_cfg(&mut c, "playlists", &playlists).is_ok());
    assert_eq!(c.playlists.len(), 1);
    assert_eq!(c.playlists[0].0, "rock");
    assert_eq!(
        c.playlists[0].1,
        vec![("one".to_string(), "/m/1.mp3".to_string()), ("two".to_string(), "/m/2.mp3".to_string())]
    );
    let empty = Value::List(vec![Value::List(vec![text("rock"), Value::List(vec![])])]);
    assert!(matches!(set_cfg(&mut c, "playlists", &empty), Err(EvalError::WrongListArity(Arity::RangeFrom(1)))));
    assert_eq!(c.playlists.len(), 1);
    configure(
        "(set-cfg! \"playlists\" (list (list \"rock\" (list (list \"one\" (path \"/m/1.mp3\"))))))",
        |r| {
            let c = r.unwrap();
            assert_eq!(c.playlists.len(), 1);
            assert_eq!(c.playlists[0].1, vec![("one".to_string(), "/m/1.mp3".to_string())]);
        },
    );
    configure("(set-cfg! \"playlists\" (nil))", |r| assert!(r.unwrap().playlists.is_empty()));
    configure("(set-cfg! \"playlists\" (list (list \"rock\" (nil))))", |r| {
        assert!(matches!(r, Err(LispError::Eval(EvalError::WrongListArity(Arity::RangeFrom(1))))))
    });
    configure("(set-cfg! \"playlists\" (list (list \"rock\" (list (list \"one\" \"/m/1.mp3\")))))", |r| {
        assert!(matches!(r, Err(LispError::Eval(EvalError::WrongType(ValueKind::Path)))))
    });
}

#[test]
fn set_cfg_errors() {
    configure("(set-cfg! \"volume\" 11)", |r| match r {
        Err(LispError::Eval(EvalError::UnknownCfgField(f))) => assert_eq!(f, "volume"),
        _ => panic!("expected an unknown field"),
    });
    configure("(set-cfg! 1 2)", |r| {
        assert!(matches!(r, Err(LispError::Eval(EvalError::WrongType(ValueKind::String)))))
    });
    configure("(set-cfg! \"playlists\")", |r| {
        assert!(matches!(r, Err(LispError::Eval(EvalError::WrongArity(Arity::Static(2))))))
    });
    configure("(+ 1 2)", |r| {
        let c = r.unwrap();
        assert!(c.playlists.is_empty());
        assert_eq!(c.cursor_colors, Colors { foreground: None, background: None });
    });
}

#[test]
fn unparsable_configurations() {
    let lexemes = LexemeParser.lexemes(")");
    assert!(matches!(parse_source(&lexemes), Err(LispError::InvalidSyntax)));
    assert_eq!(LispError::InvalidSyntax.message().unwrap(), "invalid syntax");
    assert_eq!(LispError::UnsetEnvVars.message().unwrap(), "unset environment variables");
    assert_eq!(
        LispError::ReadConfig("not found".to_string(), "/x".to_string()).message().unwrap(),
        "failed to read configuration at `/x`: not found"
    );
    assert!(LispError::Eval(EvalError::Overflow).message().is_none());
}

#[test]
fn configuration_file_paths() {
    assert_eq!(config_path(Some("/etc/empl.lisp"), Some("/x"), Some("/h")).unwrap(), "/etc/empl.lisp");
    assert_eq!(config_path(None, Some("/x"), Some("/h")).unwrap(), "/x/empl/main.lisp");
    assert_eq!(config_path(None, Some("/x/"), None).unwrap(), "/x/empl/main.lisp");
    assert_eq!(config_path(None, None, Some("/home/u")).unwrap(), "/home/u/.config/empl/main.lisp");
    assert_eq!(config_path(None, Some(""), None).unwrap(), "empl/main.lisp");
    assert!(matches!(config_path(None, None, None), Err(LispError::UnsetEnvVars)));
    assert_eq!(CONFIG_FILE_NAME, "main.lisp");
}

#[test]
fn a_complete_configuration_needs_key_bindings_then_playlists() {
    let empty = IntermediateConfig::new();
    assert!(matches!(Config::try_from(empty), Err(EmptyConfigError::KeyBindings)));

    let mut keys_only = IntermediateConfig::new();
    keys_only.key_bindings.push((KeyAction::Quit, vec![(KeyModifiers(KeyModifiers::NONE), KeyCode::Char('q'))]));
    assert!(matches!(Config::try_from(keys_only), Err(EmptyConfigError::Playlists)));

    let mut playlists_only = IntermediateConfig::new();
    playlists_only.playlists.push(("p".to_string(), vec![("s".to_string(), "/s".to_string())]));
    assert!(matches!(Config::try_from(playlists_only), Err(EmptyConfigError::KeyBindings)));

    let mut full = IntermediateConfig::new();
    full.key_bindings.push((KeyAction::Quit, vec![(KeyModifiers(KeyModifiers::NONE), KeyCode::Char('q'))]));
    full.playlists.push(("p".to_string(), vec![("s".to_string(), "/s".to_string())]));
    full.cursor_colors.foreground = Some(Color::Red);
    let config = Config::try_from(full).unwrap();
    assert_eq!(config.key_bindings.len().get(), 1);
    assert_eq!(config.playlists.first().0, "p");
    assert_eq!(config.cursor_colors.foreground, Some(Color::Red));
}
