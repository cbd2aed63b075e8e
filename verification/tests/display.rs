use empl::config::Playlist;
use empl::display::damage::Damage;
use empl::display::state::{Area, DisplayState, Focus, FocusMap, Marker, Song};
use empl::display::{ByteOpt, IntoDisplay};

fn playlists() -> Vec<Playlist> {
    vec![
        (
            "rock".to_string(),
            vec![("a".to_string(), "/m/rock/a".to_string()), ("b".to_string(), "/m/rock/b".to_string())],
        ),
        ("jazz".to_string(), vec![("c".to_string(), "/m/jazz/c".to_string())]),
    ]
}

#[test]
fn display_state_is_visible() {
    let playlists = playlists();
    let display_state = DisplayState {
        focus: Focus::Playlists,
        cursors: FocusMap::from_value(0),
        offsets: FocusMap::from_value(0),
        selected_song: None,
        terminal_area: Some(Area { width: 1, height: 1 }),
        playlists: &playlists,
    };

    assert_eq!(display_state.visible(Focus::Playlists, 0), true);
    assert_eq!(display_state.visible(Focus::Playlists, 1), false);
}

#[test]
fn opt_display() {
    assert_eq!(ByteOpt::Short(b'a').display().to_text(), "-a");
    assert_eq!(ByteOpt::Long(b"foo").display().to_text(), "--foo");
}

#[test]
fn new_state_starts_at_the_top() {
    let playlists = playlists();
    let s = DisplayState::new(&playlists, Some((80, 24)));
    assert_eq!(s.focus, Focus::Playlists);
    assert_eq!(s.terminal_area, Some(Area { width: 80, height: 24 }));
    assert_eq!(Marker::Cursor.get(Focus::Songs, &s), Some(0));
    assert_eq!(Marker::Selection.get(Focus::Songs, &s), None);
    assert_eq!(DisplayState::new(&playlists, Some((0, 24))).terminal_area, None);
}

#[test]
fn menus_split_the_width() {
    let playlists = playlists();
    let s = DisplayState::new(&playlists, Some((81, 24)));
    let left = s.row(Focus::Playlists).unwrap();
    let right = s.row(Focus::Songs).unwrap();
    assert_eq!((left.x(), left.width()), (0, 40));
    assert_eq!((right.x(), right.width()), (40, 41));
    let narrow = DisplayState::new(&playlists, Some((1, 24)));
    assert!(narrow.row(Focus::Playlists).is_none());
    assert_eq!(narrow.row(Focus::Songs).unwrap().width(), 1);
}

#[test]
fn lines_show_names_and_marks() {
    let playlists = playlists();
    let mut s = DisplayState::new(&playlists, Some((20, 3)));
    s.selected_song = Some(Song { playlist: 0, index: 1 });
    let line = s.render_line(Focus::Songs, 1).unwrap();
    assert_eq!(line.text, "b");
    assert_eq!((line.x, line.y, line.width), (10, 1, 10));
    assert_eq!(line.colors.foreground, Some(empl::config::Color::Red));
    let cursor = s.render_line(Focus::Playlists, 0).unwrap();
    assert_eq!(cursor.text, "rock");
    assert_eq!(cursor.colors.background, Some(empl::config::Color::White));
    let menu = s.render_menu(Focus::Playlists).unwrap();
    assert_eq!(menu.len(), 3);
    assert_eq!(menu[2].unwrap().text, "");
}

#[test]
fn damage_follows_moves() {
    let playlists = playlists();
    let old = DisplayState::new(&playlists, Some((20, 5)));
    let mut new = old;
    new.cursors.playlists = 1;
    assert!(Damage::Draw(Focus::Playlists, Marker::Cursor).predicate(&old, &new));
    assert!(Damage::Remove(Focus::Playlists, Marker::Cursor).predicate(&old, &new));
    assert!(!Damage::FullRedraw.predicate(&old, &new));
    assert!(!Damage::MoveOffset(Focus::Playlists).predicate(&old, &new));
    let mut resized = old;
    resized.terminal_area = Some(Area { width: 30, height: 5 });
    assert!(Damage::FullRedraw.predicate(&old, &resized));
    assert!(Damage::FullRedraw.predicate_with(&old, &old, false));
}
