//! What the terminal shows: the two menus, where the cursors and the
//! selection are, and how each line of a menu is drawn.

use vstd::prelude::*;
use crate::config::{join_color, Colors, Playlist};
use crate::config::defaults::DefaultConfig;

verus! {

/// One of the two menus.
#[derive(Clone, Copy, Debug, PartialEq, Eq, Structural)]
pub enum Focus {
    Playlists,
    Songs,
}

impl Default for Focus {
    fn default() -> (r: Self)
        ensures
            r == Focus::Playlists,
    {
        Focus::Playlists
    }
}

/// A value for each menu.
#[derive(Clone, Copy, Debug, PartialEq, Eq)]
pub struct FocusMap<V> {
    pub playlists: V,
    pub songs: V,
}

impl<V: Copy> FocusMap<V> {
    pub open spec fn spec_get(self, focus: Focus) -> V {
        match focus {
            Focus::Playlists => self.playlists,
            Focus::Songs => self.songs,
        }
    }

    /// The same value for both menus.
    pub fn from_value(v: V) -> (r: Self)
        ensures
            r.playlists == v,
            r.songs == v,
    {
        FocusMap { playlists: v, songs: v }
    }

    /// The value for `focus`.
    pub fn get(&self, focus: Focus) -> (r: V)
        ensures
            r == self.spec_get(focus),
    {
        match focus {
            Focus::Playlists => self.playlists,
            Focus::Songs => self.songs,
        }
    }
}

/// A mark on a menu line.
#[derive(Clone, Copy, Debug, PartialEq, Eq, Structural)]
pub enum Marker {
    Cursor,
    Selection,
}

/// The size of the terminal; both sides are positive in a
/// [DisplayState::wf] state.
#[derive(Clone, Copy, Debug, PartialEq, Eq, Structural)]
pub struct Area {
    pub width: u16,
    pub height: u16,
}

/// The part of a terminal line that a menu takes.
#[derive(Clone, Copy, Debug, PartialEq, Eq, Structural)]
pub struct Row {
    pub x: u16,
    pub width: u16,
}

impl Row {
    /// The first column.
    pub fn x(&self) -> (r: u16)
        ensures
            r == self.x,
    {
        self.x
    }

    /// The number of columns; never zero.
    pub fn width(&self) -> (r: u16)
        ensures
            r == self.width,
    {
        self.width
    }
}

/// A song: its playlist and its place in it.
#[derive(Clone, Copy, Debug, Default, PartialEq, Eq, Structural)]
pub struct Song {
    pub playlist: u16,
    pub index: u16,
}

/// The state of the display.
#[derive(Clone, Copy, Debug)]
pub struct DisplayState<'a> {
    pub focus: Focus,
    pub cursors: FocusMap<u16>,
    pub offsets: FocusMap<u16>,
    pub selected_song: Option<Song>,
    pub terminal_area: Option<Area>,
    pub playlists: &'a Vec<Playlist>,
}

/// A line of a menu, ready to be drawn: its colors, where it starts, its
/// text, and the columns it fills.
#[derive(Clone, Copy, Debug)]
pub struct LineRender<'a> {
    pub colors: Colors,
    pub x: u16,
    pub y: u16,
    pub text: &'a str,
    pub width: usize,
}

/// The terminal of `size` (width, height), where it is known and has no
/// zero side.
pub open spec fn area_of(size: Option<(u16, u16)>) -> Option<Area> {
    match size {
        Some((w, h)) => if w > 0 && h > 0 {
            Some(Area { width: w, height: h })
        } else {
            None
        },
        None => None,
    }
}

/// The mathematical value of a [LineRender]: colors, column, line, text
/// and width.
pub open spec fn line_view(l: LineRender) -> (Colors, u16, u16, Seq<char>, usize) {
    (l.colors, l.x, l.y, l.text@, l.width)
}

/// The mathematical value of an optional [LineRender].
pub open spec fn opt_line_view(l: Option<LineRender>) -> Option<(Colors, u16, u16, Seq<char>, usize)> {
    match l {
        Some(l) => Some(line_view(l)),
        None => None,
    }
}

/// How line `index` of the menu `focus` is drawn: in the colors of
/// [line_colors], at the menu's column and at the line's distance from the
/// menu's offset, its text (empty past the end of the menu) padded to the
/// menu's width. Lines before the offset, and menus without a row, are not
/// drawn.
pub open spec fn rendered_line(s: DisplayState, focus: Focus, index: u16) -> Option<
    (Colors, u16, u16, Seq<char>, usize),
> {
    match menu_row(s, focus) {
        Some(row) => if index >= s.offsets.spec_get(focus) {
            Some(
                (
                    line_colors(s, focus, index),
                    row.x,
                    (index - s.offsets.spec_get(focus)) as u16,
                    match line_text(s, focus, index) {
                        Some(t) => t,
                        None => Seq::empty(),
                    },
                    row.width as usize,
                ),
            )
        } else {
            None
        },
        None => None,
    }
}

/// The line marked by `marker` in the menu `focus`.
pub open spec fn marked(marker: Marker, focus: Focus, s: DisplayState) -> Option<u16> {
    match (marker, focus) {
        (Marker::Cursor, focus) => Some(s.cursors.spec_get(focus)),
        (Marker::Selection, Focus::Playlists) => match s.selected_song {
            Some(song) => Some(song.playlist),
            None => None,
        },
        (Marker::Selection, Focus::Songs) => match s.selected_song {
            Some(song) => Some(song.index),
            None => None,
        },
    }
}

/// The text of line `index` of the menu `focus`: the playlist names, or
/// the song names of the playlist of the selected song.
pub open spec fn line_text(s: DisplayState, focus: Focus, index: u16) -> Option<Seq<char>> {
    match focus {
        Focus::Playlists => if index < s.playlists@.len() {
            Some(s.playlists@[index as int].0@)
        } else {
            None
        },
        Focus::Songs => match s.selected_song {
            Some(song) => if song.playlist < s.playlists@.len() && index < s.playlists@[song.playlist as int].1@.len() {
                Some(s.playlists@[song.playlist as int].1@[index as int].0@)
            } else {
                None
            },
            None => None,
        },
    }
}

/// The part of the terminal that the menu `focus` takes: the playlists
/// take the left half (rounded down), the songs the rest; a menu of no
/// width, or a terminal of unknown size, has none.
pub open spec fn menu_row(s: DisplayState, focus: Focus) -> Option<Row> {
    match s.terminal_area {
        None => None,
        Some(area) => {
            let left = area.width / 2;
            match focus {
                Focus::Playlists => if left > 0 {
                    Some(Row { x: 0, width: left as u16 })
                } else {
                    None
                },
                Focus::Songs => if area.width - left > 0 {
                    Some(Row { x: left as u16, width: (area.width - left) as u16 })
                } else {
                    None
                },
            }
        },
    }
}

/// Whether line `index` of the menu `focus` is on screen: at or after the
/// menu's offset and before the offset plus the terminal's width.
pub open spec fn is_visible(s: DisplayState, focus: Focus, index: u16) -> bool {
    let offset = s.offsets.spec_get(focus);
    let extent = match s.terminal_area {
        Some(a) => a.width as int,
        None => 0,
    };
    index >= offset && index < offset + extent
}

/// The colors of line `index` of the menu `focus`: the menu colors, with
/// the cursor colors on the cursor line and the selection colors on the
/// selected line put over them.
pub open spec fn line_colors(s: DisplayState, focus: Focus, index: u16) -> Colors {
    let menu = Colors { foreground: Some(crate::config::Color::White), background: Some(crate::config::Color::Black) };
    let cursor = Colors { foreground: Some(crate::config::Color::Black), background: Some(crate::config::Color::White) };
    let selection = Colors { foreground: Some(crate::config::Color::Red), background: None };
    let c1 = if marked(Marker::Cursor, focus, s) == Some(index) {
        Colors {
            foreground: join_color(menu.foreground, cursor.foreground),
            background: join_color(menu.background, cursor.background),
        }
    } else {
        menu
    };
    if marked(Marker::Selection, focus, s) == Some(index) {
        Colors {
            foreground: join_color(c1.foreground, selection.foreground),
            background: join_color(c1.background, selection.background),
        }
    } else {
        c1
    }
}

impl Marker {
    /// The line this marker is on in the menu `focus`.
    pub fn get(&self, focus: Focus, state: &DisplayState) -> (r: Option<u16>)
        ensures
            r == marked(*self, focus, *state),
    {
        match (self, focus) {
            (Marker::Cursor, focus) => Some(state.cursors.get(focus)),
            (Marker::Selection, Focus::Playlists) => match state.selected_song {
                Some(song) => Some(song.playlist),
                None => None,
            },
            (Marker::Selection, Focus::Songs) => match state.selected_song {
                Some(song) => Some(song.index),
                None => None,
            },
        }
    }
}

impl<'a> DisplayState<'a> {
    /// The terminal, if its size is known, has positive sides.
    pub open spec fn wf(self) -> bool {
        self.terminal_area matches Some(a) ==> a.width > 0 && a.height > 0
    }

    /// The state at start: the playlists menu in focus, every cursor and
    /// offset at the top, nothing selected, and the terminal of `size`
    /// (width, height) where it is known and has no zero side.
    pub fn new(playlists: &'a Vec<Playlist>, size: Option<(u16, u16)>) -> (r: Self)
        ensures
            r.wf(),
            r.focus == Focus::Playlists,
            r.cursors.playlists == 0 && r.cursors.songs == 0,
            r.offsets.playlists == 0 && r.offsets.songs == 0,
            r.selected_song is None,
            r.terminal_area == area_of(size),
            r.playlists == playlists,
    {
        let terminal_area = match size {
            Some((width, height)) => if width > 0 && height > 0 {
                Some(Area { width, height })
            } else {
                None
            },
            None => None,
        };
        DisplayState {
            focus: Focus::Playlists,
            cursors: FocusMap::from_value(0),
            offsets: FocusMap::from_value(0),
            selected_song: None,
            terminal_area,
            playlists,
        }
    }

    /// The text of line `index` of the menu `focus` (see [line_text]).
    pub fn get(&self, focus: Focus, index: u16) -> (r: Option<&'a str>)
        ensures
            match line_text(*self, focus, index) {
                Some(t) => r matches Some(s) && s@ == t,
                None => r is None,
            },
    {
        match focus {
            Focus::Playlists => {
                if (index as usize) < self.playlists.len() {
                    Some(self.playlists[index as usize].0.as_str())
                } else {
                    None
                }
            },
            Focus::Songs => match self.selected_song {
                Some(song) => {
                    if (song.playlist as usize) < self.playlists.len() {
                        let songs = &self.playlists[song.playlist as usize].1;
                        if (index as usize) < songs.len() {
                            Some(songs[index as usize].0.as_str())
                        } else {
                            None
                        }
                    } else {
                        None
                    }
                },
                None => None,
            },
        }
    }

    /// The part of the terminal that the menu `focus` takes (see
    /// [menu_row]).
    pub fn row(&self, focus: Focus) -> (r: Option<Row>)
        ensures
            r == menu_row(*self, focus),
    {
        match self.terminal_area {
            None => None,
            Some(area) => {
                let left = area.width / 2;
                match focus {
                    Focus::Playlists => if left > 0 {
                        Some(Row { x: 0, width: left })
                    } else {
                        None
                    },
                    Focus::Songs => if area.width - left > 0 {
                        Some(Row { x: left, width: area.width - left })
                    } else {
                        None
                    },
                }
            },
        }
    }

    /// Whether line `index` of the menu `focus` is on screen (see
    /// [is_visible]).
    pub fn visible(&self, focus: Focus, index: u16) -> (r: bool)
        ensures
            r == is_visible(*self, focus, index),
    {
        let offset = self.offsets.get(focus);
        let extent: u32 = match self.terminal_area {
            Some(a) => a.width as u32,
            None => 0,
        };
        index >= offset && (index as u32) < (offset as u32) + extent
    }

    /// How line `index` of the menu `focus` is drawn (see
    /// [rendered_line]).
    pub fn render_line(&self, focus: Focus, index: u16) -> (r: Option<LineRender<'a>>)
        ensures
            opt_line_view(r) == rendered_line(*self, focus, index),
    {
        let offset = self.offsets.get(focus);
        if index < offset {
            return None;
        }
        let y = index - offset;
        let row = match self.row(focus) {
            Some(row) => row,
            None => {
                return None;
            },
        };
        let mut colors = DefaultConfig::menu_colors();
        if Marker::Cursor.get(focus, self) == Some(index) {
            colors.join(&DefaultConfig::cursor_colors());
        }
        if Marker::Selection.get(focus, self) == Some(index) {
            colors.join(&DefaultConfig::selection_colors());
        }
        let text = match self.get(focus, index) {
            Some(t) => t,
            None => {
                proof {
                    reveal_strlit("");
                }
                ""
            },
        };
        Some(LineRender { colors, x: row.x, y, text, width: row.width as usize })
    }

    /// The lines of the menu `focus`, one for each row of the terminal from
    /// the menu's offset on (see [rendered_line]); none where the
    /// terminal's size is unknown.
    pub fn render_menu(&self, focus: Focus) -> (r: Option<Vec<Option<LineRender<'a>>>>)
        requires
            self.terminal_area matches Some(a) ==> self.offsets.spec_get(focus) + a.height <= u16::MAX,
        ensures
            match self.terminal_area {
                Some(a) => r matches Some(lines) && lines@.len() == a.height && forall|i: int|
                    0 <= i < a.height ==> opt_line_view(#[trigger] lines@[i]) == rendered_line(
                        *self,
                        focus,
                        (self.offsets.spec_get(focus) + i) as u16,
                    ),
                None => r is None,
            },
    {
        match self.terminal_area {
            None => None,
            Some(area) => {
                let offset = self.offsets.get(focus);
                let mut lines: Vec<Option<LineRender<'a>>> = Vec::new();
                let mut i: u16 = 0;
                while i < area.height
                    invariant
                        self.terminal_area == Some(area),
                        offset == self.offsets.spec_get(focus),
                        offset + area.height <= u16::MAX,
                        i <= area.height,
                        lines@.len() == i,
                        forall|j: int|
                            0 <= j < i ==> opt_line_view(#[trigger] lines@[j]) == rendered_line(
                                *self,
                                focus,
                                (offset + j) as u16,
                            ),
                    decreases area.height - i,
                {
                    let line = self.render_line(focus, offset + i);
                    lines.push(line);
                    i = i + 1;
                }
                Some(lines)
            },
        }
    }
}

/// Holds the display state and replaces it as a whole.
#[derive(Clone, Debug)]
pub struct DisplayStateWriter<'a>(DisplayState<'a>);

impl<'a> DisplayStateWriter<'a> {
    pub closed spec fn current(&self) -> DisplayState<'a> {
        self.0
    }

    /// A writer over the starting state (see [DisplayState::new]).
    pub fn new(playlists: &'a Vec<Playlist>, size: Option<(u16, u16)>) -> (r: Self)
        ensures
            r.current().wf(),
            r.current().focus == Focus::Playlists,
            r.current().selected_song is None,
            r.current().terminal_area == area_of(size),
            r.current().playlists == playlists,
    {
        DisplayStateWriter(DisplayState::new(playlists, size))
    }

    /// The current state.
    pub fn state(&self) -> (r: DisplayState<'a>)
        ensures
            r == self.current(),
    {
        self.0
    }

    /// Replaces the state by what `operation` makes of it.
    pub fn write<F>(&mut self, operation: F)
        where
            F: FnOnce(DisplayState<'a>) -> DisplayState<'a>,
        requires
            operation.requires((old(self).current(),)),
        ensures
            operation.ensures((old(self).current(),), final(self).current()),
    {
        let old = self.0;
        self.0 = operation(old);
    }
}

} // verus!
