use empl::config::defaults::{get_max_key_binding_len, playlists_from_listing, DefaultConfig, KeyAction};
use empl::config::{Color, KeyCode, KeyModifiers};

#[test]
fn default_colors() {
    assert_eq!(DefaultConfig::cursor_colors().foreground, Some(Color::Black));
    assert_eq!(DefaultConfig::menu_colors().background, Some(Color::Black));
    assert_eq!(DefaultConfig::selection_colors().background, None);
}

#[test]
fn default_bindings() {
    let b = DefaultConfig::key_bindings();
    assert_eq!(b.len(), 6);
    assert_eq!(b[1].0, KeyAction::MoveUp(1));
    assert_eq!(b[5].1, vec![(KeyModifiers(0), KeyCode::Enter)]);
    assert_eq!(DefaultConfig::max_key_binding_len(), 1);
}

#[test]
fn longest_binding() {
    let b = vec![
        (KeyAction::Quit, vec![(KeyModifiers(0), KeyCode::Char('q'))]),
        (KeyAction::Select, vec![(KeyModifiers(0), KeyCode::Char('g')), (KeyModifiers(0), KeyCode::Char('g'))]),
    ];
    assert_eq!(get_max_key_binding_len(None, &b), Some(2));
    assert_eq!(get_max_key_binding_len(Some(5), &b), Some(5));
    assert_eq!(get_max_key_binding_len(None, &[]), None);
}

#[test]
fn listing_keeps_readable_nonempty_dirs() {
    let dirs = vec![
        ("a".to_string(), Some(vec![("x".to_string(), "/a/x".to_string())])),
        ("b".to_string(), None),
        ("c".to_string(), Some(vec![])),
    ];
    let p = playlists_from_listing(dirs).unwrap();
    assert_eq!(p.len(), 1);
    assert_eq!(p[0].0, "a");
    assert!(playlists_from_listing(vec![("b".to_string(), None)]).is_none());
}
