//! The configuration built into the program: its colors, its key bindings
//! and where it looks for playlists.

use vstd::prelude::*;
use crate::config::{Color, Colors, KeyCode, KeyModifiers, Playlist};

verus! {

/// What a built-in key binding does.
#[derive(Clone, Copy, Debug, PartialEq, Eq)]
pub enum KeyAction {
    Quit,
    /// Move the cursor up by this many rows.
    MoveUp(u16),
    /// Move the cursor down by this many rows.
    MoveDown(u16),
    MoveLeft,
    MoveRight,
    Select,
}

/// A key action and the keys, pressed in turn, that trigger it.
pub type Binding = (KeyAction, Vec<(KeyModifiers, KeyCode)>);

/// The longest of the key sequences of `bindings`, or `current` where that
/// is longer; `None` only where there is neither.
pub open spec fn max_binding_len(current: Option<nat>, bindings: Seq<Binding>) -> Option<nat>
    decreases bindings.len(),
{
    if bindings.len() == 0 {
        current
    } else {
        let len = bindings[0].1@.len();
        let next = match current {
            Some(m) => if len > m {
                len
            } else {
                m
            },
            None => len,
        };
        max_binding_len(Some(next), bindings.drop_first())
    }
}

/// The longest key sequence among `cons`, starting from `current_max`.
pub fn get_max_key_binding_len(current_max: Option<usize>, cons: &[Binding]) -> (r: Option<usize>)
    ensures
        match max_binding_len(
            match current_max {
                Some(m) => Some(m as nat),
                None => None,
            },
            cons@,
        ) {
            Some(m) => r == Some(m as usize),
            None => r is None,
        },
{
    let mut current = current_max;
    let mut i: usize = 0;
    assert(cons@.skip(0) =~= cons@);
    while i < cons.len()
        invariant
            i <= cons@.len(),
            max_binding_len(
                match current_max {
                    Some(m) => Some(m as nat),
                    None => None,
                },
                cons@,
            ) == max_binding_len(
                match current {
                    Some(m) => Some(m as nat),
                    None => None,
                },
                cons@.skip(i as int),
            ),
        decreases cons@.len() - i,
    {
        assert(cons@.skip(i as int).drop_first() =~= cons@.skip(i + 1));
        let len = cons[i].1.len();
        current = match current {
            Some(m) => if len > m {
                Some(len)
            } else {
                Some(m)
            },
            None => Some(len),
        };
        i = i + 1;
    }
    assert(cons@.skip(i as int) =~= Seq::<Binding>::empty());
    current
}

/// The configuration built into the program.
#[derive(Clone, Copy, Debug)]
pub struct DefaultConfig;

impl DefaultConfig {
    /// Black on white.
    pub fn cursor_colors() -> (r: Colors)
        ensures
            r == (Colors { foreground: Some(Color::Black), background: Some(Color::White) }),
    {
        Colors { foreground: Some(Color::Black), background: Some(Color::White) }
    }

    /// White on black.
    pub fn menu_colors() -> (r: Colors)
        ensures
            r == (Colors { foreground: Some(Color::White), background: Some(Color::Black) }),
    {
        Colors { foreground: Some(Color::White), background: Some(Color::Black) }
    }

    /// Red, on the background there is.
    pub fn selection_colors() -> (r: Colors)
        ensures
            r == (Colors { foreground: Some(Color::Red), background: None }),
    {
        Colors { foreground: Some(Color::Red), background: None }
    }

    /// `q` quits, `k` and `j` move up and down by one, `h` and `l` left and
    /// right, and enter selects; none with a modifier.
    pub fn key_bindings() -> (r: Vec<Binding>)
        ensures
            r@.len() == 6,
            r@[0].0 == KeyAction::Quit && r@[0].1@ == seq![(KeyModifiers(0), KeyCode::Char('q'))],
            r@[1].0 == KeyAction::MoveUp(1) && r@[1].1@ == seq![(KeyModifiers(0), KeyCode::Char('k'))],
            r@[2].0 == KeyAction::MoveDown(1) && r@[2].1@ == seq![(KeyModifiers(0), KeyCode::Char('j'))],
            r@[3].0 == KeyAction::MoveLeft && r@[3].1@ == seq![(KeyModifiers(0), KeyCode::Char('h'))],
            r@[4].0 == KeyAction::MoveRight && r@[4].1@ == seq![(KeyModifiers(0), KeyCode::Char('l'))],
            r@[5].0 == KeyAction::Select && r@[5].1@ == seq![(KeyModifiers(0), KeyCode::Enter)],
    {
        let none = KeyModifiers(KeyModifiers::NONE);
        let mut r: Vec<Binding> = Vec::new();
        r.push((KeyAction::Quit, vec![(none, KeyCode::Char('q'))]));
        r.push((KeyAction::MoveUp(1), vec![(none, KeyCode::Char('k'))]));
        r.push((KeyAction::MoveDown(1), vec![(none, KeyCode::Char('j'))]));
        r.push((KeyAction::MoveLeft, vec![(none, KeyCode::Char('h'))]));
        r.push((KeyAction::MoveRight, vec![(none, KeyCode::Char('l'))]));
        r.push((KeyAction::Select, vec![(none, KeyCode::Enter)]));
        r
    }

    /// The longest key sequence of the built-in bindings.
    pub fn max_key_binding_len() -> (r: usize)
        ensures
            r == 1,
    {
        let bindings = Self::key_bindings();
        let r = get_max_key_binding_len(None, bindings.as_slice());
        proof {
            let b = bindings@;
            assert(b.drop_first().drop_first().drop_first().drop_first().drop_first().drop_first()
                =~= Seq::<Binding>::empty());
            reveal_with_fuel(max_binding_len, 7);
        }
        match r {
            Some(n) => n,
            None => 1,
        }
    }
}

/// A directory of the music directory, as listed: its name, and its files
/// (name and path) where it could be read.
pub type ListedDir = (String, Option<Vec<(String, String)>>);

/// The playlists of a listing of the music directory: each directory that
/// could be read and holds files, in order.
pub open spec fn listed_playlists(dirs: Seq<ListedDir>) -> Seq<Playlist>
    decreases dirs.len(),
{
    if dirs.len() == 0 {
        Seq::empty()
    } else {
        let rest = listed_playlists(dirs.drop_first());
        match dirs[0].1 {
            Some(files) => if files@.len() > 0 {
                seq![(dirs[0].0, files)] + rest
            } else {
                rest
            },
            None => rest,
        }
    }
}

/// The playlists found in a listing of the music directory, or `None` when
/// there are none.
pub fn playlists_from_listing(dirs: Vec<ListedDir>) -> (r: Option<Vec<Playlist>>)
    ensures
        match r {
            Some(p) => p@ == listed_playlists(dirs@) && p@.len() > 0,
            None => listed_playlists(dirs@).len() == 0,
        },
{
    let mut playlists: Vec<Playlist> = Vec::new();
    let mut rest = dirs;
    while rest.len() > 0
        invariant
            listed_playlists(dirs@) == playlists@ + listed_playlists(rest@),
        decreases rest.len(),
    {
        let ghost before = rest@;
        let d = rest.remove(0);
        assert(rest@ =~= before.drop_first());
        let (name, files) = d;
        match files {
            Some(files) => {
                if files.len() > 0 {
                    let ghost p = playlists@;
                    playlists.push((name, files));
                    assert(playlists@ + listed_playlists(rest@) =~= p + (seq![(name, files)]
                        + listed_playlists(rest@)));
                }
            },
            None => {},
        }
    }
    assert(playlists@ + Seq::<Playlist>::empty() =~= playlists@);
    if playlists.len() > 0 {
        Some(playlists)
    } else {
        None
    }
}

} // verus!
