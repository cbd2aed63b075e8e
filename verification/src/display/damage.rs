//! Which parts of the display a change of state damages.

use vstd::prelude::*;
use crate::config::Playlist;
use crate::display::state::{is_visible, marked, Area, DisplayState, Focus, Marker};

verus! {

/// A part of the display that may need drawing again.
#[derive(Clone, Copy, Debug, PartialEq, Eq, Structural)]
pub enum Damage {
    /// The marker's new line in the menu.
    Draw(Focus, Marker),
    /// The marker's old line in the menu.
    Remove(Focus, Marker),
    /// Everything.
    FullRedraw,
    /// A menu that scrolled.
    MoveOffset(Focus),
}

/// Whether `d` is damaged by going from `old` to `new`, `same_playlists`
/// telling whether both show the very same playlists.
///
/// A marker's new line is damaged where the marker moved and its new line
/// is on screen; its old line, where it moved and its old line was on
/// screen. Everything is, where the terminal got a new known size, the
/// selected song moved to another playlist, or the playlists were replaced.
/// A menu's offset is, where it changed and either offset's line is on
/// screen in its state.
pub open spec fn damaged(d: Damage, old: DisplayState, new: DisplayState, same_playlists: bool) -> bool {
    match d {
        Damage::Draw(f, m) => marked(m, f, old) != marked(m, f, new) && match marked(m, f, new) {
            Some(i) => is_visible(new, f, i),
            None => false,
        },
        Damage::Remove(f, m) => marked(m, f, old) != marked(m, f, new) && match marked(m, f, old) {
            Some(i) => is_visible(old, f, i),
            None => false,
        },
        Damage::FullRedraw => (old.terminal_area != new.terminal_area && new.terminal_area is Some)
            || (old.selected_song matches Some(a) && new.selected_song matches Some(b) && a.playlist
            != b.playlist) || !same_playlists,
        Damage::MoveOffset(f) => old.offsets.spec_get(f) != new.offsets.spec_get(f) && (is_visible(
            old,
            f,
            old.offsets.spec_get(f),
        ) || is_visible(new, f, new.offsets.spec_get(f))),
    }
}

/// `std::ptr::eq` on two lists of playlists: the two references point to
/// the same place. Where it holds, the lists are the same value; which
/// lists share a place is left unsaid.
#[verifier::external_body]
fn same_place(a: &Vec<Playlist>, b: &Vec<Playlist>) -> (r: bool)
    ensures
        r ==> a@ == b@,
{
    std::ptr::eq(a, b)
}

fn same_area(a: Option<Area>, b: Option<Area>) -> (r: bool)
    ensures
        r == (a == b),
{
    match (a, b) {
        (Some(x), Some(y)) => x.width == y.width && x.height == y.height,
        (None, None) => true,
        _ => false,
    }
}

fn same_line(a: Option<u16>, b: Option<u16>) -> (r: bool)
    ensures
        r == (a == b),
{
    match (a, b) {
        (Some(x), Some(y)) => x == y,
        (None, None) => true,
        _ => false,
    }
}

/// A state compared with itself, showing the same playlists, damages
/// nothing.
pub proof fn law_unchanged_state_is_undamaged(d: Damage, s: DisplayState)
    ensures
        !damaged(d, s, s, true),
{
}

/// Where a marker moves to a line on screen, its new line is damaged, and
/// where it leaves a line that was on screen, its old line is.
pub proof fn law_moved_marker_is_damaged(f: Focus, m: Marker, old: DisplayState, new: DisplayState, same: bool)
    requires
        marked(m, f, old) != marked(m, f, new),
    ensures
        (marked(m, f, new) matches Some(i) && is_visible(new, f, i)) ==> damaged(Damage::Draw(f, m), old, new, same),
        (marked(m, f, old) matches Some(i) && is_visible(old, f, i)) ==> damaged(Damage::Remove(f, m), old, new, same),
{
}

/// Everything is redrawn where the terminal got a new known size, the
/// selected song moved to another playlist, or the playlists were replaced;
/// and only then.
pub proof fn law_full_redraw(old: DisplayState, new: DisplayState, same: bool)
    ensures
        (old.selected_song matches Some(a) && new.selected_song matches Some(b) && a.playlist != b.playlist)
            ==> damaged(Damage::FullRedraw, old, new, same),
        (old.terminal_area != new.terminal_area && new.terminal_area is Some) ==> damaged(Damage::FullRedraw, old, new, same),
        !same ==> damaged(Damage::FullRedraw, old, new, same),
        (old.terminal_area == new.terminal_area && same && (old.selected_song matches Some(a)
            ==> new.selected_song matches Some(b) ==> a.playlist == b.playlist))
            ==> !damaged(Damage::FullRedraw, old, new, same),
{
}

/// A menu whose offset changed is damaged where its line at either offset
/// is on screen, and a menu whose offset stayed is not.
pub proof fn law_moved_offset_is_damaged(f: Focus, old: DisplayState, new: DisplayState, same: bool)
    ensures
        (old.offsets.spec_get(f) != new.offsets.spec_get(f) && is_visible(new, f, new.offsets.spec_get(f)))
            ==> damaged(Damage::MoveOffset(f), old, new, same),
        (old.offsets.spec_get(f) != new.offsets.spec_get(f) && is_visible(old, f, old.offsets.spec_get(f)))
            ==> damaged(Damage::MoveOffset(f), old, new, same),
        old.offsets.spec_get(f) == new.offsets.spec_get(f) ==> !damaged(Damage::MoveOffset(f), old, new, same),
{
}

impl Damage {
    /// Whether this part is damaged by going from `old` to `new`, given
    /// whether both show the very same playlists (see [damaged]).
    pub fn predicate_with(&self, old: &DisplayState, new: &DisplayState, same_playlists: bool) -> (r: bool)
        ensures
            r == damaged(*self, *old, *new, same_playlists),
    {
        match self {
            Damage::Draw(focus, marker) => {
                let before = marker.get(*focus, old);
                let after = marker.get(*focus, new);
                !same_line(before, after) && match after {
                    Some(i) => new.visible(*focus, i),
                    None => false,
                }
            },
            Damage::Remove(focus, marker) => {
                let before = marker.get(*focus, old);
                let after = marker.get(*focus, new);
                !same_line(before, after) && match before {
                    Some(i) => old.visible(*focus, i),
                    None => false,
                }
            },
            Damage::FullRedraw => {
                let resized = !same_area(old.terminal_area, new.terminal_area)
                    && new.terminal_area.is_some();
                let moved = match (old.selected_song, new.selected_song) {
                    (Some(a), Some(b)) => a.playlist != b.playlist,
                    _ => false,
                };
                resized || moved || !same_playlists
            },
            Damage::MoveOffset(focus) => {
                let a = old.offsets.get(*focus);
                let b = new.offsets.get(*focus);
                a != b && (old.visible(*focus, a) || new.visible(*focus, b))
            },
        }
    }

    /// Whether this part is damaged by going from `old` to `new`: as
    /// [Damage::predicate_with], the playlists being the very same where
    /// both states point to the same place.
    pub fn predicate(&self, old: &DisplayState, new: &DisplayState) -> (r: bool)
        ensures
            exists|same: bool| (same ==> old.playlists@ == new.playlists@) && r == damaged(*self, *old, *new, same),
    {
        let same = same_place(old.playlists, new.playlists);
        self.predicate_with(old, new, same)
    }
}

} // verus!
