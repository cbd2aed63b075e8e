//! Configuration: key bindings, colors and playlists, and the parsing of
//! key codes, key modifiers and key actions from their names.

pub mod cli;
pub mod defaults;
pub mod lisp;
pub mod path_segment;
pub mod path_segments;

use crate::clisp::lexer::{digits_value, int_digits, IntParser};
use crate::text::{char_len, skip_chars, str_eq};
use vstd::prelude::*;
use nonempty_collections::NEVec;

verus! {

/// The name of the binary.
pub const NAME: &'static str = "empl";

/// The version of the binary.
pub const VERSION: &'static str = "2.1.6";

/// A terminal color, as the terminal library names them.
#[derive(Clone, Copy, Debug, PartialEq, Eq)]
pub enum Color {
    Reset,
    Black,
    DarkGrey,
    Red,
    DarkRed,
    Green,
    DarkGreen,
    Yellow,
    DarkYellow,
    Blue,
    DarkBlue,
    Magenta,
    DarkMagenta,
    Cyan,
    DarkCyan,
    White,
    Grey,
    Rgb { r: u8, g: u8, b: u8 },
    AnsiValue(u8),
}

/// A foreground and a background color, each optional.
#[derive(Clone, Copy, Debug, PartialEq, Eq)]
pub struct Colors {
    pub foreground: Option<Color>,
    pub background: Option<Color>,
}

/// The color in `r` where it has one, the one in `l` otherwise.
pub open spec fn join_color(l: Option<Color>, r: Option<Color>) -> Option<Color> {
    match r {
        Some(c) => Some(c),
        None => l,
    }
}

impl Colors {
    /// No colors.
    pub fn none() -> (r: Colors)
        ensures
            r.foreground is None,
            r.background is None,
    {
        Colors { foreground: None, background: None }
    }

    /// Combine two [Colors] by replacing the color in `self` if they exist in `r`.
    pub fn join(&mut self, r: &Colors)
        ensures
            final(self).foreground == join_color(old(self).foreground, r.foreground),
            final(self).background == join_color(old(self).background, r.background),
    {
        if let Some(foreground) = r.foreground {
            self.foreground = Some(foreground);
        }
        if let Some(background) = r.background {
            self.background = Some(background);
        }
    }
}

/// Media keys.
#[derive(Clone, Copy, Debug, PartialEq, Eq)]
pub enum MediaKeyCode {
    Play,
    Pause,
    PlayPause,
    Reverse,
    Stop,
    FastForward,
    Rewind,
    TrackNext,
    TrackPrevious,
    Record,
    LowerVolume,
    RaiseVolume,
    MuteVolume,
}

/// Modifier keys pressed on their own.
#[derive(Clone, Copy, Debug, PartialEq, Eq)]
pub enum ModifierKeyCode {
    LeftShift,
    LeftControl,
    LeftAlt,
    LeftSuper,
    LeftHyper,
    LeftMeta,
    RightShift,
    RightControl,
    RightAlt,
    RightSuper,
    RightHyper,
    RightMeta,
    IsoLevel3Shift,
    IsoLevel5Shift,
}

/// A key, as the terminal reports it.
#[derive(Clone, Copy, Debug, PartialEq, Eq)]
pub enum KeyCode {
    Backspace,
    Enter,
    Left,
    Right,
    Up,
    Down,
    Home,
    End,
    PageUp,
    PageDown,
    Tab,
    BackTab,
    Delete,
    Insert,
    F(u8),
    Char(char),
    Null,
    Esc,
    CapsLock,
    ScrollLock,
    NumLock,
    PrintScreen,
    Pause,
    Menu,
    KeypadBegin,
    Media(MediaKeyCode),
    Modifier(ModifierKeyCode),
}

/// The key named `s`: one of the named keys, `f` followed by the number of
/// a function key (what follows the number is ignored), or a single
/// character.
pub open spec fn key_code_named(s: Seq<char>) -> Option<KeyCode> {
    if s == "backspace"@ {
        Some(KeyCode::Backspace)
    } else if s == "enter"@ {
        Some(KeyCode::Enter)
    } else if s == "left"@ {
        Some(KeyCode::Left)
    } else if s == "right"@ {
        Some(KeyCode::Right)
    } else if s == "up"@ {
        Some(KeyCode::Up)
    } else if s == "down"@ {
        Some(KeyCode::Down)
    } else if s == "home"@ {
        Some(KeyCode::Home)
    } else if s == "end"@ {
        Some(KeyCode::End)
    } else if s == "page-up"@ {
        Some(KeyCode::PageUp)
    } else if s == "page-down"@ {
        Some(KeyCode::PageDown)
    } else if s == "tab"@ {
        Some(KeyCode::Tab)
    } else if s == "back-tab"@ {
        Some(KeyCode::BackTab)
    } else if s == "delete"@ {
        Some(KeyCode::Delete)
    } else if s == "insert"@ {
        Some(KeyCode::Insert)
    } else if s == "null"@ {
        Some(KeyCode::Null)
    } else if s == "esc"@ {
        Some(KeyCode::Esc)
    } else if s == "caps-lock"@ {
        Some(KeyCode::CapsLock)
    } else if s == "scroll-lock"@ {
        Some(KeyCode::ScrollLock)
    } else if s == "num-lock"@ {
        Some(KeyCode::NumLock)
    } else if s == "print-screen"@ {
        Some(KeyCode::PrintScreen)
    } else if s == "pause"@ {
        Some(KeyCode::Pause)
    } else if s == "menu"@ {
        Some(KeyCode::Menu)
    } else if s == "keypad-begin"@ {
        Some(KeyCode::KeypadBegin)
    } else if s == "media-play"@ {
        Some(KeyCode::Media(MediaKeyCode::Play))
    } else if s == "media-pause"@ {
        Some(KeyCode::Media(MediaKeyCode::Pause))
    } else if s == "media-play-pause"@ {
        Some(KeyCode::Media(MediaKeyCode::PlayPause))
    } else if s == "media-reverse"@ {
        Some(KeyCode::Media(MediaKeyCode::Reverse))
    } else if s == "media-stop"@ {
        Some(KeyCode::Media(MediaKeyCode::Stop))
    } else if s == "media-fast-forward"@ {
        Some(KeyCode::Media(MediaKeyCode::FastForward))
    } else if s == "media-rewind"@ {
        Some(KeyCode::Media(MediaKeyCode::Rewind))
    } else if s == "media-track-next"@ {
        Some(KeyCode::Media(MediaKeyCode::TrackNext))
    } else if s == "media-track-previous"@ {
        Some(KeyCode::Media(MediaKeyCode::TrackPrevious))
    } else if s == "media-record"@ {
        Some(KeyCode::Media(MediaKeyCode::Record))
    } else if s == "media-lower-volume"@ {
        Some(KeyCode::Media(MediaKeyCode::LowerVolume))
    } else if s == "media-raise-volume"@ {
        Some(KeyCode::Media(MediaKeyCode::RaiseVolume))
    } else if s == "media-mute-volume"@ {
        Some(KeyCode::Media(MediaKeyCode::MuteVolume))
    } else if s == "left-shift"@ {
        Some(KeyCode::Modifier(ModifierKeyCode::LeftShift))
    } else if s == "left-control"@ {
        Some(KeyCode::Modifier(ModifierKeyCode::LeftControl))
    } else if s == "left-alt"@ {
        Some(KeyCode::Modifier(ModifierKeyCode::LeftAlt))
    } else if s == "left-super"@ {
        Some(KeyCode::Modifier(ModifierKeyCode::LeftSuper))
    } else if s == "left-hyper"@ {
        Some(KeyCode::Modifier(ModifierKeyCode::LeftHyper))
    } else if s == "left-meta"@ {
        Some(KeyCode::Modifier(ModifierKeyCode::LeftMeta))
    } else if s == "right-shift"@ {
        Some(KeyCode::Modifier(ModifierKeyCode::RightShift))
    } else if s == "right-control"@ {
        Some(KeyCode::Modifier(ModifierKeyCode::RightControl))
    } else if s == "right-alt"@ {
        Some(KeyCode::Modifier(ModifierKeyCode::RightAlt))
    } else if s == "right-super"@ {
        Some(KeyCode::Modifier(ModifierKeyCode::RightSuper))
    } else if s == "right-hyper"@ {
        Some(KeyCode::Modifier(ModifierKeyCode::RightHyper))
    } else if s == "right-meta"@ {
        Some(KeyCode::Modifier(ModifierKeyCode::RightMeta))
    } else if s == "iso-level-3-shift"@ {
        Some(KeyCode::Modifier(ModifierKeyCode::IsoLevel3Shift))
    } else if s == "iso-level-5-shift"@ {
        Some(KeyCode::Modifier(ModifierKeyCode::IsoLevel5Shift))
    } else if s.len() > 0 && s[0] == 'f' && int_digits(s.drop_first(), 10).0 > 0
        && int_digits(s.drop_first(), 10).1 <= u8::MAX {
        Some(KeyCode::F(int_digits(s.drop_first(), 10).1 as u8))
    } else if s.len() == 1 {
        Some(KeyCode::Char(s[0]))
    } else {
        None
    }
}

/// Parse the name of a key; the name itself is the error.
pub fn parse_key_code<'a>(key_code: &'a str) -> (r: Result<KeyCode, &'a str>)
    ensures
        match key_code_named(key_code@) {
            Some(k) => r == Ok::<KeyCode, &str>(k),
            None => r == Err::<KeyCode, &str>(key_code),
        },
{
    if str_eq(key_code, "backspace") {
        Ok(KeyCode::Backspace)
    } else if str_eq(key_code, "enter") {
        Ok(KeyCode::Enter)
    } else if str_eq(key_code, "left") {
        Ok(KeyCode::Left)
    } else if str_eq(key_code, "right") {
        Ok(KeyCode::Right)
    } else if str_eq(key_code, "up") {
        Ok(KeyCode::Up)
    } else if str_eq(key_code, "down") {
        Ok(KeyCode::Down)
    } else if str_eq(key_code, "home") {
        Ok(KeyCode::Home)
    } else if str_eq(key_code, "end") {
        Ok(KeyCode::End)
    } else if str_eq(key_code, "page-up") {
        Ok(KeyCode::PageUp)
    } else if str_eq(key_code, "page-down") {
        Ok(KeyCode::PageDown)
    } else if str_eq(key_code, "tab") {
        Ok(KeyCode::Tab)
    } else if str_eq(key_code, "back-tab") {
        Ok(KeyCode::BackTab)
    } else if str_eq(key_code, "delete") {
        Ok(KeyCode::Delete)
    } else if str_eq(key_code, "insert") {
        Ok(KeyCode::Insert)
    } else if str_eq(key_code, "null") {
        Ok(KeyCode::Null)
    } else if str_eq(key_code, "esc") {
        Ok(KeyCode::Esc)
    } else if str_eq(key_code, "caps-lock") {
        Ok(KeyCode::CapsLock)
    } else if str_eq(key_code, "scroll-lock") {
        Ok(KeyCode::ScrollLock)
    } else if str_eq(key_code, "num-lock") {
        Ok(KeyCode::NumLock)
    } else if str_eq(key_code, "print-screen") {
        Ok(KeyCode::PrintScreen)
    } else if str_eq(key_code, "pause") {
        Ok(KeyCode::Pause)
    } else if str_eq(key_code, "menu") {
        Ok(KeyCode::Menu)
    } else if str_eq(key_code, "keypad-begin") {
        Ok(KeyCode::KeypadBegin)
    } else if str_eq(key_code, "media-play") {
        Ok(KeyCode::Media(MediaKeyCode::Play))
    } else if str_eq(key_code, "media-pause") {
        Ok(KeyCode::Media(MediaKeyCode::Pause))
    } else if str_eq(key_code, "media-play-pause") {
        Ok(KeyCode::Media(MediaKeyCode::PlayPause))
    } else if str_eq(key_code, "media-reverse") {
        Ok(KeyCode::Media(MediaKeyCode::Reverse))
    } else if str_eq(key_code, "media-stop") {
        Ok(KeyCode::Media(MediaKeyCode::Stop))
    } else if str_eq(key_code, "media-fast-forward") {
        Ok(KeyCode::Media(MediaKeyCode::FastForward))
    } else if str_eq(key_code, "media-rewind") {
        Ok(KeyCode::Media(MediaKeyCode::Rewind))
    } else if str_eq(key_code, "media-track-next") {
        Ok(KeyCode::Media(MediaKeyCode::TrackNext))
    } else if str_eq(key_code, "media-track-previous") {
        Ok(KeyCode::Media(MediaKeyCode::TrackPrevious))
    } else if str_eq(key_code, "media-record") {
        Ok(KeyCode::Media(MediaKeyCode::Record))
    } else if str_eq(key_code, "media-lower-volume") {
        Ok(KeyCode::Media(MediaKeyCode::LowerVolume))
    } else if str_eq(key_code, "media-raise-volume") {
        Ok(KeyCode::Media(MediaKeyCode::RaiseVolume))
    } else if str_eq(key_code, "media-mute-volume") {
        Ok(KeyCode::Media(MediaKeyCode::MuteVolume))
    } else if str_eq(key_code, "left-shift") {
        Ok(KeyCode::Modifier(ModifierKeyCode::LeftShift))
    } else if str_eq(key_code, "left-control") {
        Ok(KeyCode::Modifier(ModifierKeyCode::LeftControl))
    } else if str_eq(key_code, "left-alt") {
        Ok(KeyCode::Modifier(ModifierKeyCode::LeftAlt))
    } else if str_eq(key_code, "left-super") {
        Ok(KeyCode::Modifier(ModifierKeyCode::LeftSuper))
    } else if str_eq(key_code, "left-hyper") {
        Ok(KeyCode::Modifier(ModifierKeyCode::LeftHyper))
    } else if str_eq(key_code, "left-meta") {
        Ok(KeyCode::Modifier(ModifierKeyCode::LeftMeta))
    } else if str_eq(key_code, "right-shift") {
        Ok(KeyCode::Modifier(ModifierKeyCode::RightShift))
    } else if str_eq(key_code, "right-control") {
        Ok(KeyCode::Modifier(ModifierKeyCode::RightControl))
    } else if str_eq(key_code, "right-alt") {
        Ok(KeyCode::Modifier(ModifierKeyCode::RightAlt))
    } else if str_eq(key_code, "right-super") {
        Ok(KeyCode::Modifier(ModifierKeyCode::RightSuper))
    } else if str_eq(key_code, "right-hyper") {
        Ok(KeyCode::Modifier(ModifierKeyCode::RightHyper))
    } else if str_eq(key_code, "right-meta") {
        Ok(KeyCode::Modifier(ModifierKeyCode::RightMeta))
    } else if str_eq(key_code, "iso-level-3-shift") {
        Ok(KeyCode::Modifier(ModifierKeyCode::IsoLevel3Shift))
    } else if str_eq(key_code, "iso-level-5-shift") {
        Ok(KeyCode::Modifier(ModifierKeyCode::IsoLevel5Shift))
    } else {
        let n = char_len(key_code);
        if n > 0 && key_code.get_char(0) == 'f' {
            let rest = skip_chars(key_code, 1);
            assert(rest@ =~= key_code@.drop_first());
            match IntParser::<10, u8>::new().parse(rest) {
                Some(po) => {
                    return Ok(KeyCode::F(po.output));
                },
                None => {},
            }
        }
        if n == 1 {
            Ok(KeyCode::Char(key_code.get_char(0)))
        } else {
            Err(key_code)
        }
    }
}

/// Modifier keys held with a key, as bits: shift, control, alt, super,
/// hyper and meta from the lowest bit up.
#[derive(Clone, Copy, Debug, PartialEq, Eq)]
pub struct KeyModifiers(pub u8);

impl KeyModifiers {
    pub const NONE: u8 = 0;
    pub const SHIFT: u8 = 1;
    pub const CONTROL: u8 = 2;
    pub const ALT: u8 = 4;
    pub const SUPER: u8 = 8;
    pub const HYPER: u8 = 16;
    pub const META: u8 = 32;
}

/// `c` in lower case, for ASCII letters (as [char::to_ascii_lowercase]).
pub open spec fn ascii_lower(c: char) -> char {
    if 'A' <= c <= 'Z' {
        ((c as u8) + 32) as char
    } else {
        c
    }
}

pub fn to_ascii_lowercase(c: char) -> (r: char)
    ensures
        r == ascii_lower(c),
{
    if 'A' <= c && c <= 'Z' {
        ((c as u8) + 32) as char
    } else {
        c
    }
}

/// The modifier named by the letter `c`: `a`lt, `c`ontrol, super (`l`),
/// `h`yper, `m`eta, `s`hift.
pub open spec fn modifier_bit(c: char) -> Option<u8> {
    if c == 'a' {
        Some(KeyModifiers::ALT)
    } else if c == 'c' {
        Some(KeyModifiers::CONTROL)
    } else if c == 'l' {
        Some(KeyModifiers::SUPER)
    } else if c == 'h' {
        Some(KeyModifiers::HYPER)
    } else if c == 'm' {
        Some(KeyModifiers::META)
    } else if c == 's' {
        Some(KeyModifiers::SHIFT)
    } else {
        None
    }
}

/// The modifiers named by the letters of `s` (case does not matter),
/// combined; the first letter (in lower case) that names none is the error.
pub open spec fn modifiers_named(s: Seq<char>, acc: u8) -> Result<u8, char>
    decreases s.len(),
{
    if s.len() == 0 {
        Ok(acc)
    } else {
        match modifier_bit(ascii_lower(s[0])) {
            Some(b) => modifiers_named(s.drop_first(), acc | b),
            None => Err(ascii_lower(s[0])),
        }
    }
}

/// Parse key modifiers from their letters.
pub fn parse_key_modifiers(key_modifier: &str) -> (r: Result<KeyModifiers, char>)
    ensures
        match modifiers_named(key_modifier@, 0) {
            Ok(bits) => r == Ok::<KeyModifiers, char>(KeyModifiers(bits)),
            Err(c) => r == Err::<KeyModifiers, char>(c),
        },
{
    let n = char_len(key_modifier);
    let mut i: usize = 0;
    let mut acc: u8 = KeyModifiers::NONE;
    assert(key_modifier@.skip(0) =~= key_modifier@);
    while i < n
        invariant
            n == key_modifier@.len(),
            i <= n,
            modifiers_named(key_modifier@, 0) == modifiers_named(key_modifier@.skip(i as int), acc),
        decreases n - i,
    {
        let ghost rest = key_modifier@.skip(i as int);
        assert(rest.drop_first() =~= key_modifier@.skip(i + 1));
        let c = to_ascii_lowercase(key_modifier.get_char(i));
        let bit: u8 = if c == 'a' {
            KeyModifiers::ALT
        } else if c == 'c' {
            KeyModifiers::CONTROL
        } else if c == 'l' {
            KeyModifiers::SUPER
        } else if c == 'h' {
            KeyModifiers::HYPER
        } else if c == 'm' {
            KeyModifiers::META
        } else if c == 's' {
            KeyModifiers::SHIFT
        } else {
            return Err(c);
        };
        acc = acc | bit;
        i = i + 1;
    }
    assert(key_modifier@.skip(n as int).len() == 0);
    Ok(KeyModifiers(acc))
}

/// What a key binding does.
#[derive(Clone, Copy, Debug, PartialEq, Eq)]
pub enum KeyAction {
    Quit,
    MoveUp,
    MoveDown,
    MoveLeft,
    MoveRight,
    MoveBottom,
    MoveTop,
    MoveSelection,
    Select,
    SkipSong,
}

/// The action named `s`.
pub open spec fn key_action_named(s: Seq<char>) -> Option<KeyAction> {
    if s == "quit"@ {
        Some(KeyAction::Quit)
    } else if s == "move-up"@ {
        Some(KeyAction::MoveUp)
    } else if s == "move-down"@ {
        Some(KeyAction::MoveDown)
    } else if s == "move-left"@ {
        Some(KeyAction::MoveLeft)
    } else if s == "move-right"@ {
        Some(KeyAction::MoveRight)
    } else if s == "move-bottom"@ {
        Some(KeyAction::MoveBottom)
    } else if s == "move-top"@ {
        Some(KeyAction::MoveTop)
    } else if s == "move-selection"@ {
        Some(KeyAction::MoveSelection)
    } else if s == "select"@ {
        Some(KeyAction::Select)
    } else if s == "skip-song"@ {
        Some(KeyAction::SkipSong)
    } else {
        None
    }
}

/// The name of an unknown key action.
#[derive(Clone, Copy, Debug, PartialEq)]
pub struct UnknownKeyActionError<S>(pub S);

impl<'a> UnknownKeyActionError<&'a str> {
    /// What is printed for the error.
    pub fn message(&self) -> (r: String)
        ensures
            r@ == "unknown key action `"@ + self.0@ + seq!['`'],
    {
        let mut r = crate::text::to_string("unknown key action `");
        crate::text::push_str(&mut r, self.0);
        crate::text::push_str(&mut r, "`");
        proof {
            reveal_strlit("`");
        }
        r
    }
}

impl<T> UnknownKeyActionError<T> {
    /// Transform the name held.
    pub fn map<F, U>(self, f: F) -> (r: UnknownKeyActionError<U>)
        where
            F: FnOnce(T) -> U,
        requires
            f.requires((self.0,)),
        ensures
            f.ensures((self.0,), r.0),
    {
        UnknownKeyActionError(f(self.0))
    }
}

impl KeyAction {
    /// Parse the name of an action.
    pub fn parse<'a>(key_action: &'a str) -> (r: Result<KeyAction, UnknownKeyActionError<&'a str>>)
        ensures
            match key_action_named(key_action@) {
                Some(a) => r == Ok::<KeyAction, UnknownKeyActionError<&str>>(a),
                None => r == Err::<KeyAction, UnknownKeyActionError<&str>>(
                    UnknownKeyActionError(key_action),
                ),
            },
    {
        if str_eq(key_action, "quit") {
            Ok(KeyAction::Quit)
        } else if str_eq(key_action, "move-up") {
            Ok(KeyAction::MoveUp)
        } else if str_eq(key_action, "move-down") {
            Ok(KeyAction::MoveDown)
        } else if str_eq(key_action, "move-left") {
            Ok(KeyAction::MoveLeft)
        } else if str_eq(key_action, "move-right") {
            Ok(KeyAction::MoveRight)
        } else if str_eq(key_action, "move-bottom") {
            Ok(KeyAction::MoveBottom)
        } else if str_eq(key_action, "move-top") {
            Ok(KeyAction::MoveTop)
        } else if str_eq(key_action, "move-selection") {
            Ok(KeyAction::MoveSelection)
        } else if str_eq(key_action, "select") {
            Ok(KeyAction::Select)
        } else if str_eq(key_action, "skip-song") {
            Ok(KeyAction::SkipSong)
        } else {
            Err(UnknownKeyActionError(key_action))
        }
    }
}

/// A key binding: an action and the keys (with their modifiers) that
/// trigger it.
pub type KeyBinding = (KeyAction, Vec<(KeyModifiers, KeyCode)>);

/// A playlist: its name and its songs, each a name and a path.
pub type Playlist = (String, Vec<(String, String)>);

/// The mathematical value of a [KeyBinding].
pub type KeyBindingModel = (KeyAction, Seq<(KeyModifiers, KeyCode)>);

/// The mathematical value of a [Playlist].
pub type PlaylistModel = (Seq<char>, Seq<(Seq<char>, Seq<char>)>);

pub open spec fn key_binding_view(k: KeyBinding) -> KeyBindingModel {
    (k.0, k.1@)
}

pub open spec fn song_view(s: (String, String)) -> (Seq<char>, Seq<char>) {
    (s.0@, s.1@)
}

pub open spec fn playlist_view(p: Playlist) -> PlaylistModel {
    (p.0@, p.1@.map_values(|s: (String, String)| song_view(s)))
}

/// A configuration gathered from one source; sources are joined in turn.
#[derive(Debug)]
pub struct IntermediateConfig {
    pub cursor_colors: Colors,
    pub menu_colors: Colors,
    pub selection_colors: Colors,
    pub key_bindings: Vec<KeyBinding>,
    pub playlists: Vec<Playlist>,
}

/// The mathematical value of an [IntermediateConfig].
pub struct ConfigModel {
    pub cursor_colors: Colors,
    pub menu_colors: Colors,
    pub selection_colors: Colors,
    pub key_bindings: Seq<KeyBindingModel>,
    pub playlists: Seq<PlaylistModel>,
}

impl View for IntermediateConfig {
    type V = ConfigModel;

    open spec fn view(&self) -> ConfigModel {
        ConfigModel {
            cursor_colors: self.cursor_colors,
            menu_colors: self.menu_colors,
            selection_colors: self.selection_colors,
            key_bindings: self.key_bindings@.map_values(|k: KeyBinding| key_binding_view(k)),
            playlists: self.playlists@.map_values(|p: Playlist| playlist_view(p)),
        }
    }
}

/// The colors of `r` where it has them, those of `l` otherwise.
pub open spec fn join_colors(l: Colors, r: Colors) -> Colors {
    Colors {
        foreground: join_color(l.foreground, r.foreground),
        background: join_color(l.background, r.background),
    }
}

/// The configuration with no colors, key bindings or playlists.
pub open spec fn empty_config() -> ConfigModel {
    ConfigModel {
        cursor_colors: Colors { foreground: None, background: None },
        menu_colors: Colors { foreground: None, background: None },
        selection_colors: Colors { foreground: None, background: None },
        key_bindings: Seq::empty(),
        playlists: Seq::empty(),
    }
}

/// `l` joined with `r`: the colors of `r` override those of `l`; key
/// bindings and playlists of `r` follow those of `l`.
pub open spec fn join_config(l: ConfigModel, r: ConfigModel) -> ConfigModel {
    ConfigModel {
        cursor_colors: join_colors(l.cursor_colors, r.cursor_colors),
        menu_colors: join_colors(l.menu_colors, r.menu_colors),
        selection_colors: join_colors(l.selection_colors, r.selection_colors),
        key_bindings: l.key_bindings + r.key_bindings,
        playlists: l.playlists + r.playlists,
    }
}

/// Joining the empty configuration on either side changes nothing.
pub proof fn law_join_empty(c: ConfigModel)
    ensures
        join_config(empty_config(), c) == c,
        join_config(c, empty_config()) == c,
{
    assert(join_config(empty_config(), c).key_bindings =~= c.key_bindings);
    assert(join_config(empty_config(), c).playlists =~= c.playlists);
    assert(join_config(c, empty_config()).key_bindings =~= c.key_bindings);
    assert(join_config(c, empty_config()).playlists =~= c.playlists);
}

/// Joining configurations in turn does not depend on how the joins are
/// grouped.
pub proof fn law_join_associative(a: ConfigModel, b: ConfigModel, c: ConfigModel)
    ensures
        join_config(join_config(a, b), c) == join_config(a, join_config(b, c)),
{
    assert(join_config(join_config(a, b), c).key_bindings =~= join_config(a, join_config(b, c)).key_bindings);
    assert(join_config(join_config(a, b), c).playlists =~= join_config(a, join_config(b, c)).playlists);
}

/// A color set by the later configuration wins; one it leaves unset keeps
/// the earlier value.
pub proof fn law_join_later_wins(l: ConfigModel, r: ConfigModel)
    ensures
        r.cursor_colors.foreground is Some ==> join_config(l, r).cursor_colors.foreground == r.cursor_colors.foreground,
        r.cursor_colors.foreground is None ==> join_config(l, r).cursor_colors.foreground == l.cursor_colors.foreground,
        r.cursor_colors.background is Some ==> join_config(l, r).cursor_colors.background == r.cursor_colors.background,
        r.cursor_colors.background is None ==> join_config(l, r).cursor_colors.background == l.cursor_colors.background,
        r.menu_colors.foreground is Some ==> join_config(l, r).menu_colors.foreground == r.menu_colors.foreground,
        r.menu_colors.foreground is None ==> join_config(l, r).menu_colors.foreground == l.menu_colors.foreground,
        r.menu_colors.background is Some ==> join_config(l, r).menu_colors.background == r.menu_colors.background,
        r.menu_colors.background is None ==> join_config(l, r).menu_colors.background == l.menu_colors.background,
        r.selection_colors.foreground is Some ==> join_config(l, r).selection_colors.foreground == r.selection_colors.foreground,
        r.selection_colors.foreground is None ==> join_config(l, r).selection_colors.foreground == l.selection_colors.foreground,
        r.selection_colors.background is Some ==> join_config(l, r).selection_colors.background == r.selection_colors.background,
        r.selection_colors.background is None ==> join_config(l, r).selection_colors.background == l.selection_colors.background,
        join_config(l, r).key_bindings.len() == l.key_bindings.len() + r.key_bindings.len(),
{
}

/// Joining keeps the earlier source's key bindings and playlists first, in
/// their order, and puts the later source's after them, in theirs.
pub proof fn law_join_appends(l: ConfigModel, r: ConfigModel)
    ensures
        join_config(l, r).playlists.len() == l.playlists.len() + r.playlists.len(),
        forall|i: int| 0 <= i < l.playlists.len() ==> #[trigger] join_config(l, r).playlists[i] == l.playlists[i],
        forall|i: int| 0 <= i < r.playlists.len() ==> join_config(l, r).playlists[l.playlists.len() + i] == #[trigger] r.playlists[i],
        join_config(l, r).key_bindings.len() == l.key_bindings.len() + r.key_bindings.len(),
        forall|i: int| 0 <= i < l.key_bindings.len() ==> #[trigger] join_config(l, r).key_bindings[i] == l.key_bindings[i],
        forall|i: int| 0 <= i < r.key_bindings.len() ==> join_config(l, r).key_bindings[l.key_bindings.len() + i] == #[trigger] r.key_bindings[i],
{
}

impl IntermediateConfig {
    /// The configuration with no colors, key bindings or playlists.
    pub fn new() -> (r: Self)
        ensures
            r@ == empty_config(),
    {
        let r = IntermediateConfig {
            cursor_colors: Colors::none(),
            menu_colors: Colors::none(),
            selection_colors: Colors::none(),
            key_bindings: Vec::new(),
            playlists: Vec::new(),
        };
        assert(r@.key_bindings =~= Seq::empty());
        assert(r@.playlists =~= Seq::empty());
        r
    }

    /// Add the configuration `new` to this one.
    pub fn join(&mut self, new: Self)
        ensures
            final(self)@ == join_config(old(self)@, new@),
    {
        let IntermediateConfig {
            cursor_colors,
            menu_colors,
            selection_colors,
            key_bindings,
            playlists,
        } = new;
        self.cursor_colors.join(&cursor_colors);
        self.menu_colors.join(&menu_colors);
        self.selection_colors.join(&selection_colors);
        let mut key_bindings = key_bindings;
        let mut playlists = playlists;
        self.key_bindings.append(&mut key_bindings);
        self.playlists.append(&mut playlists);
        proof {
            assert(self@.key_bindings =~= old(self)@.key_bindings + new@.key_bindings);
            assert(self@.playlists =~= old(self)@.playlists + new@.playlists);
        }
    }
}

impl Default for IntermediateConfig {
    fn default() -> (r: Self)
        ensures
            r@ == empty_config(),
    {
        Self::new()
    }
}

/// The non-empty list of the `nonempty-collections` crate.
#[verifier::external_type_specification]
#[verifier::external_body]
#[verifier::reject_recursive_types(T)]
pub struct ExNonEmptyList<T>(NEVec<T>);

/// `Clone` for the non-empty list (used by `Config`'s derived `Clone`);
/// nothing is stated of the copy, since what it holds is named only for
/// particular item types.
pub assume_specification<T: Clone>[<NEVec<T> as Clone>::clone](_0: &NEVec<T>) -> NEVec<T>;

/// The key bindings that a non-empty list holds, in order.
pub uninterp spec fn key_bindings_of(v: NEVec<KeyBinding>) -> Seq<KeyBindingModel>;

/// The playlists that a non-empty list holds, in order.
pub uninterp spec fn playlists_of(v: NEVec<Playlist>) -> Seq<PlaylistModel>;

/// `NEVec::try_from_vec` on the key bindings and on the playlists: each
/// list becomes a non-empty list holding the same items in the same order,
/// or `None` where it is empty.
#[verifier::external_body]
fn non_empty_lists(key_bindings: Vec<KeyBinding>, playlists: Vec<Playlist>) -> (r: (
    Option<NEVec<KeyBinding>>,
    Option<NEVec<Playlist>>,
))
    ensures
        r.0 is Some <==> key_bindings@.len() > 0,
        r.0 matches Some(n) ==> key_bindings_of(n) == key_bindings@.map_values(|k: KeyBinding| key_binding_view(k)),
        r.1 is Some <==> playlists@.len() > 0,
        r.1 matches Some(n) ==> playlists_of(n) == playlists@.map_values(|p: Playlist| playlist_view(p)),
{
    (NEVec::try_from_vec(key_bindings), NEVec::try_from_vec(playlists))
}

/// A complete configuration: at least one key binding and one playlist.
#[derive(Clone, Debug, PartialEq)]
pub struct Config {
    pub cursor_colors: Colors,
    pub menu_colors: Colors,
    pub selection_colors: Colors,
    pub key_bindings: NEVec<KeyBinding>,
    pub playlists: NEVec<Playlist>,
}

/// What is missing from an incomplete configuration.
#[derive(Clone, Copy, Debug, PartialEq, Eq)]
pub enum EmptyConfigError {
    KeyBindings,
    Playlists,
}

impl EmptyConfigError {
    /// The message for this error.
    pub fn message(&self) -> (r: &'static str)
        ensures
            r@ == match self {
                EmptyConfigError::KeyBindings => "key bindings cannot be empty"@,
                EmptyConfigError::Playlists => "playlists cannot be empty"@,
            },
    {
        match self {
            EmptyConfigError::KeyBindings => "key bindings cannot be empty",
            EmptyConfigError::Playlists => "playlists cannot be empty",
        }
    }
}

impl Config {
    /// Complete an intermediate configuration: it needs key bindings, then
    /// playlists.
    pub fn try_from(config: IntermediateConfig) -> (r: Result<Config, EmptyConfigError>)
        ensures
            match r {
                Ok(c) => config@.key_bindings.len() > 0 && config@.playlists.len() > 0
                    && c.cursor_colors == config.cursor_colors && c.menu_colors
                    == config.menu_colors && c.selection_colors == config.selection_colors
                    && key_bindings_of(c.key_bindings) == config@.key_bindings
                    && playlists_of(c.playlists) == config@.playlists,
                Err(EmptyConfigError::KeyBindings) => config@.key_bindings.len() == 0,
                Err(EmptyConfigError::Playlists) => config@.key_bindings.len() > 0
                    && config@.playlists.len() == 0,
            },
    {
        let IntermediateConfig { cursor_colors, menu_colors, selection_colors, key_bindings, playlists } = config;
        match non_empty_lists(key_bindings, playlists) {
            (None, _) => Err(EmptyConfigError::KeyBindings),
            (Some(_), None) => Err(EmptyConfigError::Playlists),
            (Some(key_bindings), Some(playlists)) => Ok(
                Config { cursor_colors, menu_colors, selection_colors, key_bindings, playlists },
            ),
        }
    }
}

/// The sources of configuration, read in turn.
#[derive(Clone, Copy, Debug, PartialEq, Eq)]
pub enum ConfigStage {
    Cli,
    Lisp,
}

impl ConfigStage {
    /// Every stage, in the order they are read.
    pub fn variants() -> (r: [ConfigStage; 2])
        ensures
            r@ == seq![ConfigStage::Cli, ConfigStage::Lisp],
    {
        let r = [ConfigStage::Cli, ConfigStage::Lisp];
        assert(r@ =~= seq![ConfigStage::Cli, ConfigStage::Lisp]);
        r
    }
}

/// The name, as its `Debug` form writes it, of the color that the terminal
/// library reads `s` as (its `TryFrom<&str>` for `Color`); `None` where it
/// reads no color.
pub uninterp spec fn terminal_color_name(s: Seq<char>) -> Option<Seq<char>>;

/// `s` with its ASCII capitals made small, as `str::to_lowercase` does to
/// ASCII text.
pub open spec fn ascii_lowercase(s: Seq<char>) -> Seq<char> {
    s.map_values(|c: char| if 'A' <= c <= 'Z' { ((c as u32) + 32) as char } else { c })
}

/// The variant that the terminal library gives the lower-case color name
/// `n`: the seventeen names it knows, each with its words joined by `_`.
pub open spec fn terminal_variant_of_lower(n: Seq<char>) -> Option<Seq<char>> {
    if n == "reset"@ {
        Some("Reset"@)
    } else if n == "black"@ {
        Some("Black"@)
    } else if n == "dark_grey"@ {
        Some("DarkGrey"@)
    } else if n == "red"@ {
        Some("Red"@)
    } else if n == "dark_red"@ {
        Some("DarkRed"@)
    } else if n == "green"@ {
        Some("Green"@)
    } else if n == "dark_green"@ {
        Some("DarkGreen"@)
    } else if n == "yellow"@ {
        Some("Yellow"@)
    } else if n == "dark_yellow"@ {
        Some("DarkYellow"@)
    } else if n == "blue"@ {
        Some("Blue"@)
    } else if n == "dark_blue"@ {
        Some("DarkBlue"@)
    } else if n == "magenta"@ {
        Some("Magenta"@)
    } else if n == "dark_magenta"@ {
        Some("DarkMagenta"@)
    } else if n == "cyan"@ {
        Some("Cyan"@)
    } else if n == "dark_cyan"@ {
        Some("DarkCyan"@)
    } else if n == "white"@ {
        Some("White"@)
    } else if n == "grey"@ {
        Some("Grey"@)
    } else {
        None
    }
}

/// `crossterm::style::Color::try_from(s)`: the color the terminal library
/// reads `s` as, given by the name that its `Debug` form writes. The
/// library lower-cases `s` and compares it with the seventeen names it
/// knows; for ASCII text the contract says which name that gives. Other
/// text goes through Unicode lower-casing (where, for one, the Kelvin sign
/// becomes `k`), which the contract only names.
#[verifier::external_body]
fn terminal_color(s: &str) -> (r: Option<String>)
    ensures
        match r {
            Some(n) => terminal_color_name(s@) == Some(n@),
            None => terminal_color_name(s@) is None,
        },
        vstd::utf8::is_ascii_chars(s@) ==> match r {
            Some(n) => terminal_variant_of_lower(ascii_lowercase(s@)) == Some(n@),
            None => terminal_variant_of_lower(ascii_lowercase(s@)) is None,
        },
{
    crossterm::style::Color::try_from(s).ok().map(|c| format!("{c:?}"))
}

/// The color whose variant is named `n`.
pub open spec fn color_of_variant(n: Seq<char>) -> Option<Color> {
    if n == "Reset"@ {
        Some(Color::Reset)
    } else if n == "Black"@ {
        Some(Color::Black)
    } else if n == "DarkGrey"@ {
        Some(Color::DarkGrey)
    } else if n == "Red"@ {
        Some(Color::Red)
    } else if n == "DarkRed"@ {
        Some(Color::DarkRed)
    } else if n == "Green"@ {
        Some(Color::Green)
    } else if n == "DarkGreen"@ {
        Some(Color::DarkGreen)
    } else if n == "Yellow"@ {
        Some(Color::Yellow)
    } else if n == "DarkYellow"@ {
        Some(Color::DarkYellow)
    } else if n == "Blue"@ {
        Some(Color::Blue)
    } else if n == "DarkBlue"@ {
        Some(Color::DarkBlue)
    } else if n == "Magenta"@ {
        Some(Color::Magenta)
    } else if n == "DarkMagenta"@ {
        Some(Color::DarkMagenta)
    } else if n == "Cyan"@ {
        Some(Color::Cyan)
    } else if n == "DarkCyan"@ {
        Some(Color::DarkCyan)
    } else if n == "White"@ {
        Some(Color::White)
    } else if n == "Grey"@ {
        Some(Color::Grey)
    } else {
        None
    }
}

/// The color whose variant is named `n`: what [Color::from_name] makes of
/// the name that the terminal library gives back.
pub fn color_of_variant_name(n: &str) -> (r: Option<Color>)
    ensures
        r == color_of_variant(n@),
{
    if str_eq(n, "Reset") {
        Some(Color::Reset)
    } else if str_eq(n, "Black") {
        Some(Color::Black)
    } else if str_eq(n, "DarkGrey") {
        Some(Color::DarkGrey)
    } else if str_eq(n, "Red") {
        Some(Color::Red)
    } else if str_eq(n, "DarkRed") {
        Some(Color::DarkRed)
    } else if str_eq(n, "Green") {
        Some(Color::Green)
    } else if str_eq(n, "DarkGreen") {
        Some(Color::DarkGreen)
    } else if str_eq(n, "Yellow") {
        Some(Color::Yellow)
    } else if str_eq(n, "DarkYellow") {
        Some(Color::DarkYellow)
    } else if str_eq(n, "Blue") {
        Some(Color::Blue)
    } else if str_eq(n, "DarkBlue") {
        Some(Color::DarkBlue)
    } else if str_eq(n, "Magenta") {
        Some(Color::Magenta)
    } else if str_eq(n, "DarkMagenta") {
        Some(Color::DarkMagenta)
    } else if str_eq(n, "Cyan") {
        Some(Color::Cyan)
    } else if str_eq(n, "DarkCyan") {
        Some(Color::DarkCyan)
    } else if str_eq(n, "White") {
        Some(Color::White)
    } else if str_eq(n, "Grey") {
        Some(Color::Grey)
    } else {
        None
    }
}

/// The color a name stands for, as the terminal library reads names.
pub open spec fn color_named(s: Seq<char>) -> Option<Color> {
    match terminal_color_name(s) {
        Some(n) => color_of_variant(n),
        None => None,
    }
}

impl Color {
    /// The color named `s`, if any, as the terminal library reads it; for
    /// ASCII text, the color whose lower-case name `s` is, up to case.
    pub fn from_name(s: &str) -> (r: Option<Color>)
        ensures
            r == color_named(s@),
            vstd::utf8::is_ascii_chars(s@) ==> r == (match terminal_variant_of_lower(ascii_lowercase(s@)) {
                Some(n) => color_of_variant(n),
                None => None,
            }),
    {
        match terminal_color(s) {
            Some(n) => color_of_variant_name(n.as_str()),
            None => None,
        }
    }
}

} // verus!
