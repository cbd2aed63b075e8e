//! Configuration from command line flags.
//!
//! Colors are given with `-f`/`-b` and applied with `-c FIELD`; songs are a
//! name (`-n`) and a path (`-s`) collected into a playlist with `-P NAME`;
//! keys are a code (`-k`) and modifiers (`-m`) collected into a binding with
//! `-a ACTION`; `-C PATH` names the configuration file; `-v` asks for the
//! version.

use crate::config::{
    color_named, empty_config, join_colors, key_action_named, key_binding_view, key_code_named,
    modifiers_named, parse_key_code, parse_key_modifiers, playlist_view, Color, Colors,
    ConfigModel, IntermediateConfig, KeyAction, KeyCode, KeyModifiers, Playlist,
    UnknownKeyActionError, NAME, VERSION,
};
use crate::const_vec::ConstString;
use crate::flag::{
    arguments_next, arguments_value, lemma_next_consumes, lemma_value_consumes, pending_size,
    ArgumentsError, ArgumentsErrorModel, ArgumentsModel, Arguments, Flag, FlagModel,
};
use crate::text::{push_str, str_eq, to_string};
use vstd::prelude::*;

verus! {

/// Why the command line could not be read.
#[derive(Clone, Debug, PartialEq)]
pub enum CliError<'a, E> {
    Arguments(ArgumentsError<'a, E>),
    EmptyKeyBinding,
    EmptyPlaylist,
    MissingArgument(Flag<'a>),
    UnknownColor(&'a str),
    UnknownColorField(&'a str),
    UnknownFlag(Flag<'a>),
    UnknownKeyAction(UnknownKeyActionError<&'a str>),
    UnknownKeyCode(&'a str),
    UnknownKeyModifier(char),
    UnknownField(&'a str),
    UnsetSongName,
    UnsetSongPath,
    UnsetPlaylist,
}

/// The mathematical value of a [CliError].
pub enum CliErrorModel<E> {
    Arguments(ArgumentsErrorModel<E>),
    EmptyKeyBinding,
    EmptyPlaylist,
    MissingArgument(FlagModel),
    UnknownColor(Seq<char>),
    UnknownColorField(Seq<char>),
    UnknownFlag(FlagModel),
    UnknownKeyAction(Seq<char>),
    UnknownKeyCode(Seq<char>),
    UnknownKeyModifier(char),
    UnknownField(Seq<char>),
    UnsetSongName,
    UnsetSongPath,
    UnsetPlaylist,
}

impl<'a, E> View for CliError<'a, E> {
    type V = CliErrorModel<E>;

    open spec fn view(&self) -> CliErrorModel<E> {
        match self {
            CliError::Arguments(ArgumentsError::NonFlag(e)) => CliErrorModel::Arguments(
                ArgumentsErrorModel::NonFlag(e.0@),
            ),
            CliError::Arguments(ArgumentsError::Source(e)) => CliErrorModel::Arguments(
                ArgumentsErrorModel::Source(*e),
            ),
            CliError::EmptyKeyBinding => CliErrorModel::EmptyKeyBinding,
            CliError::EmptyPlaylist => CliErrorModel::EmptyPlaylist,
            CliError::MissingArgument(f) => CliErrorModel::MissingArgument(f@),
            CliError::UnknownColor(s) => CliErrorModel::UnknownColor(s@),
            CliError::UnknownColorField(s) => CliErrorModel::UnknownColorField(s@),
            CliError::UnknownFlag(f) => CliErrorModel::UnknownFlag(f@),
            CliError::UnknownKeyAction(e) => CliErrorModel::UnknownKeyAction(e.0@),
            CliError::UnknownKeyCode(s) => CliErrorModel::UnknownKeyCode(s@),
            CliError::UnknownKeyModifier(c) => CliErrorModel::UnknownKeyModifier(*c),
            CliError::UnknownField(s) => CliErrorModel::UnknownField(s@),
            CliError::UnsetSongName => CliErrorModel::UnsetSongName,
            CliError::UnsetSongPath => CliErrorModel::UnsetSongPath,
            CliError::UnsetPlaylist => CliErrorModel::UnsetPlaylist,
        }
    }
}

/// `prefix`, `quoted` in backquotes.
pub open spec fn quoted_after(prefix: Seq<char>, quoted: Seq<char>) -> Seq<char> {
    prefix + seq!['`'] + quoted + seq!['`']
}

/// What is printed for a command line error, `source` being the text of a
/// source's error.
pub open spec fn cli_error_text<E>(e: CliErrorModel<E>, source: Seq<char>) -> Seq<char> {
    match e {
        CliErrorModel::Arguments(ArgumentsErrorModel::NonFlag(s)) => seq!['`'] + s + "` is not a flag"@,
        CliErrorModel::Arguments(ArgumentsErrorModel::Source(_)) => "failed to source argument: "@ + source,
        CliErrorModel::EmptyKeyBinding => "cannot have empty key bindings"@,
        CliErrorModel::EmptyPlaylist => "cannot have empty playlist"@,
        CliErrorModel::MissingArgument(f) => "flag `"@ + crate::flag::flag_text(f) + "` requires an argument"@,
        CliErrorModel::UnknownColor(c) => quoted_after("unknown color "@, c),
        CliErrorModel::UnknownColorField(c) => quoted_after("unknown color field "@, c),
        CliErrorModel::UnknownFlag(f) => quoted_after("unknown flag "@, crate::flag::flag_text(f)),
        CliErrorModel::UnknownKeyAction(a) => quoted_after("unknown key action "@, a),
        CliErrorModel::UnknownKeyCode(c) => quoted_after("unknown key code "@, c),
        CliErrorModel::UnknownKeyModifier(c) => quoted_after("unknown key modifier "@, seq![c]),
        CliErrorModel::UnknownField(f) => quoted_after("unknown field "@, f),
        CliErrorModel::UnsetSongName => "song name not set"@,
        CliErrorModel::UnsetSongPath => "song path not set"@,
        CliErrorModel::UnsetPlaylist => "playlist not set"@,
    }
}

fn quote_after(prefix: &str, quoted: &str) -> (r: String)
    ensures
        r@ == quoted_after(prefix@, quoted@),
{
    let mut r = to_string(prefix);
    push_str(&mut r, "`");
    push_str(&mut r, quoted);
    push_str(&mut r, "`");
    proof {
        reveal_strlit("`");
        assert(r@ =~= quoted_after(prefix@, quoted@));
    }
    r
}

impl<'a, E> CliError<'a, E> {
    /// What is printed for the error (see [cli_error_text]).
    pub fn message(&self, source: &str) -> (r: String)
        ensures
            r@ == cli_error_text(self@, source@),
    {
        match self {
            CliError::Arguments(e) => e.message(source),
            CliError::EmptyKeyBinding => to_string("cannot have empty key bindings"),
            CliError::EmptyPlaylist => to_string("cannot have empty playlist"),
            CliError::MissingArgument(f) => {
                let mut r = to_string("flag `");
                let t = f.text();
                push_str(&mut r, t.as_str());
                push_str(&mut r, "` requires an argument");
                r
            },
            CliError::UnknownColor(c) => quote_after("unknown color ", c),
            CliError::UnknownColorField(c) => quote_after("unknown color field ", c),
            CliError::UnknownFlag(f) => {
                let t = f.text();
                quote_after("unknown flag ", t.as_str())
            },
            CliError::UnknownKeyAction(e) => quote_after("unknown key action ", e.0),
            CliError::UnknownKeyCode(c) => quote_after("unknown key code ", c),
            CliError::UnknownKeyModifier(c) => {
                let mut t = String::new();
                crate::text::push_char(&mut t, *c);
                assert(t@ =~= seq![*c]);
                quote_after("unknown key modifier ", t.as_str())
            },
            CliError::UnknownField(f) => quote_after("unknown field ", f),
            CliError::UnsetSongName => to_string("song name not set"),
            CliError::UnsetSongPath => to_string("song path not set"),
            CliError::UnsetPlaylist => to_string("playlist not set"),
        }
    }
}

/// What the command line leaves for the rest of the program.
#[derive(Clone, Copy, Debug, Default, PartialEq)]
pub struct Resources<'a> {
    /// The configuration file named on the command line.
    pub config_path: Option<&'a str>,
}

/// The items given so far and not yet collected.
struct State<'a> {
    foreground: Option<Color>,
    background: Option<Color>,
    song_name: Option<&'a str>,
    song_path: Option<&'a str>,
    songs: Vec<(&'a str, &'a str)>,
    key_code: Option<KeyCode>,
    key_modifiers: Option<KeyModifiers>,
    key_binding: Vec<(KeyModifiers, KeyCode)>,
    config_path: Option<&'a str>,
}

/// The mathematical value of the items given so far.
pub struct StateModel {
    pub foreground: Option<Color>,
    pub background: Option<Color>,
    pub song_name: Option<Seq<char>>,
    pub song_path: Option<Seq<char>>,
    pub songs: Seq<(Seq<char>, Seq<char>)>,
    pub key_code: Option<KeyCode>,
    pub key_modifiers: Option<KeyModifiers>,
    pub key_binding: Seq<(KeyModifiers, KeyCode)>,
    pub config_path: Option<Seq<char>>,
}

pub open spec fn opt_view(s: Option<&str>) -> Option<Seq<char>> {
    match s {
        Some(s) => Some(s@),
        None => None,
    }
}

pub open spec fn pair_view(p: (&str, &str)) -> (Seq<char>, Seq<char>) {
    (p.0@, p.1@)
}

impl<'a> View for State<'a> {
    type V = StateModel;

    closed spec fn view(&self) -> StateModel {
        StateModel {
            foreground: self.foreground,
            background: self.background,
            song_name: opt_view(self.song_name),
            song_path: opt_view(self.song_path),
            songs: self.songs@.map_values(|p: (&'a str, &'a str)| pair_view(p)),
            key_code: self.key_code,
            key_modifiers: self.key_modifiers,
            key_binding: self.key_binding@,
            config_path: opt_view(self.config_path),
        }
    }
}

/// Nothing given yet.
pub open spec fn empty_state() -> StateModel {
    StateModel {
        foreground: None,
        background: None,
        song_name: None,
        song_path: None,
        songs: Seq::empty(),
        key_code: None,
        key_modifiers: None,
        key_binding: Seq::empty(),
        config_path: None,
    }
}

/// A song is collected once it has both a name and a path.
pub open spec fn collect_song(st: StateModel) -> StateModel {
    if st.song_name is Some && st.song_path is Some {
        StateModel {
            songs: st.songs.push((st.song_name->0, st.song_path->0)),
            song_name: None,
            song_path: None,
            ..st
        }
    } else {
        st
    }
}

/// A key is collected once it has both modifiers and a code.
pub open spec fn collect_key(st: StateModel) -> StateModel {
    if st.key_modifiers is Some && st.key_code is Some {
        StateModel {
            key_binding: st.key_binding.push((st.key_modifiers->0, st.key_code->0)),
            key_modifiers: None,
            key_code: None,
            ..st
        }
    } else {
        st
    }
}

/// `f` is the short flag `short` or the long flag `long`.
pub open spec fn is_flag(f: FlagModel, short: char, long: Seq<char>) -> bool {
    f == FlagModel::Short(short) || f == FlagModel::Long(long)
}

/// The flags that take a value.
pub open spec fn takes_value(f: FlagModel) -> bool {
    ||| is_flag(f, 'b', "background"@)
    ||| is_flag(f, 'f', "foreground"@)
    ||| is_flag(f, 'c', "color"@)
    ||| is_flag(f, 'C', "config"@)
    ||| is_flag(f, 'P', "playlist"@)
    ||| is_flag(f, 's', "song-path"@)
    ||| is_flag(f, 'n', "song-name"@)
    ||| is_flag(f, 'a', "key-action"@)
    ||| is_flag(f, 'k', "key-code"@)
    ||| is_flag(f, 'm', "key-modifiers"@)
}

/// The names of the color fields that `-c` accepts.
pub open spec fn is_color_field(v: Seq<char>) -> bool {
    v == "cursor"@ || v == "c"@ || v == "menu"@ || v == "m"@ || v == "selection"@ || v == "s"@
}

/// The outcome of one flag.
pub enum StepModel<E> {
    Version,
    Fail(CliErrorModel<E>),
    Next(ConfigModel, StateModel),
}

/// What the flag `f` with the value `v` does.
///
/// Note: `-c` only checks that its value names a color field; whichever
/// field is named (`menu` and `selection` included), the pending colors are
/// joined into the cursor colors. No other field is ever set by `-c`, so
/// `-f red -c menu` changes the cursor, not the menu.
pub open spec fn apply_flag<E>(f: FlagModel, v: Seq<char>, cfg: ConfigModel, st: StateModel) -> StepModel<E> {
    if is_flag(f, 'b', "background"@) {
        match color_named(v) {
            Some(c) => StepModel::Next(cfg, StateModel { background: Some(c), ..st }),
            None => StepModel::Fail(CliErrorModel::UnknownColor(v)),
        }
    } else if is_flag(f, 'f', "foreground"@) {
        match color_named(v) {
            Some(c) => StepModel::Next(cfg, StateModel { foreground: Some(c), ..st }),
            None => StepModel::Fail(CliErrorModel::UnknownColor(v)),
        }
    } else if is_flag(f, 'c', "color"@) {
        if is_color_field(v) {
            StepModel::Next(
                ConfigModel {
                    cursor_colors: join_colors(
                        cfg.cursor_colors,
                        Colors { foreground: st.foreground, background: st.background },
                    ),
                    ..cfg
                },
                StateModel { foreground: None, background: None, ..st },
            )
        } else {
            StepModel::Fail(CliErrorModel::UnknownColorField(v))
        }
    } else if is_flag(f, 'C', "config"@) {
        StepModel::Next(cfg, StateModel { config_path: Some(v), ..st })
    } else if is_flag(f, 'P', "playlist"@) {
        if st.songs.len() == 0 {
            StepModel::Fail(CliErrorModel::EmptyPlaylist)
        } else {
            StepModel::Next(
                ConfigModel { playlists: cfg.playlists.push((v, st.songs)), ..cfg },
                StateModel { songs: Seq::empty(), ..st },
            )
        }
    } else if is_flag(f, 's', "song-path"@) {
        StepModel::Next(cfg, collect_song(StateModel { song_path: Some(v), ..st }))
    } else if is_flag(f, 'n', "song-name"@) {
        StepModel::Next(cfg, collect_song(StateModel { song_name: Some(v), ..st }))
    } else if is_flag(f, 'a', "key-action"@) {
        match key_action_named(v) {
            None => StepModel::Fail(CliErrorModel::UnknownKeyAction(v)),
            Some(a) => if st.key_binding.len() == 0 {
                StepModel::Fail(CliErrorModel::EmptyKeyBinding)
            } else {
                StepModel::Next(
                    ConfigModel { key_bindings: cfg.key_bindings.push((a, st.key_binding)), ..cfg },
                    StateModel { key_binding: Seq::empty(), ..st },
                )
            },
        }
    } else if is_flag(f, 'k', "key-code"@) {
        match key_code_named(v) {
            None => StepModel::Fail(CliErrorModel::UnknownKeyCode(v)),
            Some(k) => StepModel::Next(cfg, collect_key(StateModel { key_code: Some(k), ..st })),
        }
    } else {
        match modifiers_named(v, 0) {
            Err(c) => StepModel::Fail(CliErrorModel::UnknownKeyModifier(c)),
            Ok(bits) => StepModel::Next(
                cfg,
                collect_key(StateModel { key_modifiers: Some(KeyModifiers(bits)), ..st }),
            ),
        }
    }
}

/// `-b`/`--background` with a color name sets the pending background to
/// that color and leaves the pending foreground and the configuration as
/// they were; a `-c` naming a color field that follows joins them into the
/// cursor colors.
pub proof fn law_background_flag<E>(f: FlagModel, v: Seq<char>, c: FlagModel, field: Seq<char>, cfg: ConfigModel, st: StateModel)
    requires
        is_flag(f, 'b', "background"@),
        color_named(v) is Some,
        is_flag(c, 'c', "color"@),
        is_color_field(field),
    ensures
        apply_flag::<E>(f, v, cfg, st) matches StepModel::Next(cfg1, st1) && cfg1 == cfg
            && st1.background == color_named(v) && st1.foreground == st.foreground
            && (apply_flag::<E>(c, field, cfg1, st1) matches StepModel::Next(cfg2, _)
            && cfg2.cursor_colors == join_colors(
                cfg.cursor_colors,
                (Colors { foreground: st.foreground, background: color_named(v) }),
            )),
{
    reveal_strlit("background");
    reveal_strlit("foreground");
    reveal_strlit("color");
    assert("background"@[0] != "foreground"@[0]);
    assert("background"@.len() != "color"@.len() && "foreground"@.len() != "color"@.len());
}

/// `-f`/`--foreground` with a color name sets the pending foreground to
/// that color and leaves the pending background and the configuration as
/// they were.
pub proof fn law_foreground_flag<E>(f: FlagModel, v: Seq<char>, cfg: ConfigModel, st: StateModel)
    requires
        is_flag(f, 'f', "foreground"@),
        color_named(v) is Some,
    ensures
        apply_flag::<E>(f, v, cfg, st) matches StepModel::Next(cfg1, st1) && cfg1 == cfg
            && st1.foreground == color_named(v) && st1.background == st.background,
{
    reveal_strlit("background");
    reveal_strlit("foreground");
    assert("background"@[0] != "foreground"@[0]);
}

/// The outcome of reading the flags of `m`, starting from `cfg` and `st`:
/// `None` when the version was asked for, otherwise the configuration and
/// the configuration file named.
pub open spec fn cli_run<E>(m: ArgumentsModel<E>, cfg: ConfigModel, st: StateModel) -> Result<
    Option<(ConfigModel, Option<Seq<char>>)>,
    CliErrorModel<E>,
>
    decreases m.src.len(), pending_size(m.arg),
{
    let (m1, f) = arguments_next(m);
    match f {
        None => Ok(Some((cfg, st.config_path))),
        Some(Err(e)) => Err(CliErrorModel::Arguments(e)),
        Some(Ok(f)) => if is_flag(f, 'v', "version"@) {
            Ok(None)
        } else if takes_value(f) {
            let (m2, v) = arguments_value(m1);
            match v {
                None => Err(CliErrorModel::MissingArgument(f)),
                Some(Err(e)) => Err(CliErrorModel::Arguments(ArgumentsErrorModel::Source(e))),
                Some(Ok(v)) => match apply_flag::<E>(f, v, cfg, st) {
                    StepModel::Next(cfg2, st2) => {
                        proof {
                            lemma_next_consumes(m);
                            lemma_value_consumes(m1);
                        }
                        cli_run(m2, cfg2, st2)
                    },
                    StepModel::Fail(e) => Err(e),
                    StepModel::Version => Ok(None),
                },
            }
        } else {
            Err(CliErrorModel::UnknownFlag(f))
        },
    }
}

/// The view of the outcome of [execute].
pub open spec fn outcome_view<'a, E>(r: Result<Option<IntermediateConfig>, CliError<'a, E>>) -> Result<
    Option<ConfigModel>,
    CliErrorModel<E>,
> {
    match r {
        Ok(Some(c)) => Ok(Some(c@)),
        Ok(None) => Ok(None),
        Err(e) => Err(e@),
    }
}

/// `flag` is the short flag `short` or the long flag `long`.
fn flag_is(flag: Flag, short: char, long: &str) -> (r: bool)
    ensures
        r == is_flag(flag@, short, long@),
{
    match flag {
        Flag::Short(c) => c == short,
        Flag::Long(l) => str_eq(l, long),
    }
}

/// The value of `flag`.
fn value<'a, E>(args: &mut Arguments<'a, E>, flag: Flag<'a>) -> (r: Result<&'a str, CliError<'a, E>>)
    ensures
        final(args)@ == arguments_value(old(args)@).0,
        match arguments_value(old(args)@).1 {
            None => r matches Err(e) && e@ == CliErrorModel::<E>::MissingArgument(flag@),
            Some(Err(e)) => r matches Err(err) && err@ == CliErrorModel::Arguments(
                ArgumentsErrorModel::Source(e),
            ),
            Some(Ok(v)) => r matches Ok(s) && s@ == v,
        },
{
    match args.value() {
        None => Err(CliError::MissingArgument(flag)),
        Some(Err(e)) => Err(CliError::Arguments(ArgumentsError::Source(e))),
        Some(Ok(s)) => Ok(s),
    }
}

impl<'a> State<'a> {
    fn new() -> (r: Self)
        ensures
            r@ == empty_state(),
    {
        let r = State {
            foreground: None,
            background: None,
            song_name: None,
            song_path: None,
            songs: Vec::new(),
            key_code: None,
            key_modifiers: None,
            key_binding: Vec::new(),
            config_path: None,
        };
        assert(r@.songs =~= Seq::<(Seq<char>, Seq<char>)>::empty());
        r
    }

    fn collect_song(&mut self)
        ensures
            final(self)@ == collect_song(old(self)@),
    {
        if self.song_name.is_some() && self.song_path.is_some() {
            let name = self.song_name.unwrap();
            let path = self.song_path.unwrap();
            self.songs.push((name, path));
            self.song_name = None;
            self.song_path = None;
            assert(self@.songs =~= old(self)@.songs.push((name@, path@)));
        }
    }

    fn collect_key(&mut self)
        ensures
            final(self)@ == collect_key(old(self)@),
    {
        if self.key_modifiers.is_some() && self.key_code.is_some() {
            let m = self.key_modifiers.unwrap();
            let k = self.key_code.unwrap();
            self.key_binding.push((m, k));
            self.key_modifiers = None;
            self.key_code = None;
        }
    }
}

/// The songs of a playlist, owned.
fn own_songs<'a>(songs: &Vec<(&'a str, &'a str)>) -> (r: Vec<(String, String)>)
    ensures
        r@.map_values(|s: (String, String)| crate::config::song_view(s)) == songs@.map_values(
            |p: (&'a str, &'a str)| pair_view(p),
        ),
{
    let mut r: Vec<(String, String)> = Vec::new();
    let mut i: usize = 0;
    while i < songs.len()
        invariant
            i <= songs@.len(),
            r@.len() == i,
            forall|j: int| 0 <= j < i ==> #[trigger] crate::config::song_view(r@[j]) == pair_view(songs@[j]),
        decreases songs@.len() - i,
    {
        let (name, path) = songs[i];
        r.push((to_string(name), to_string(path)));
        i = i + 1;
    }
    assert(r@.map_values(|s: (String, String)| crate::config::song_view(s)) =~= songs@.map_values(
        |p: (&'a str, &'a str)| pair_view(p),
    ));
    r
}

/// The message printed for `-v`: the name and the version.
pub fn version_message() -> (r: ConstString<11>)
    ensures
        r@ == vstd::utf8::encode_utf8(NAME@ + seq![' '] + VERSION@),
{
    let mut message = ConstString::<11>::new();
    proof {
        reveal_strlit("empl");
        reveal_strlit("2.1.6");
        assert(vstd::utf8::is_ascii_chars(NAME@));
        assert(vstd::utf8::is_ascii_chars(VERSION@));
        assert(vstd::utf8::is_ascii_chars(seq![' ']));
        vstd::utf8::is_ascii_chars_encode_utf8(NAME@);
        vstd::utf8::is_ascii_chars_encode_utf8(VERSION@);
        vstd::utf8::is_ascii_chars_encode_utf8(seq![' ']);
    }
    message.push_str(NAME);
    message.push(' ');
    message.push_str(VERSION);
    proof {
        lemma_encode_concat(NAME@ + seq![' '], VERSION@);
        lemma_encode_concat(NAME@, seq![' ']);
    }
    message
}

/// The encoding of a concatenation is the concatenation of the encodings.
pub proof fn lemma_encode_concat(a: Seq<char>, b: Seq<char>)
    ensures
        vstd::utf8::encode_utf8(a + b) == vstd::utf8::encode_utf8(a) + vstd::utf8::encode_utf8(b),
    decreases a.len(),
{
    if a.len() == 0 {
        assert(a + b =~= b);
    } else {
        assert((a + b).drop_first() =~= a.drop_first() + b);
        lemma_encode_concat(a.drop_first(), b);
    }
}

/// Read the configuration given by command line flags. `Ok(None)` means the
/// version was asked for (the caller prints [version_message]); on success
/// the configuration file named with `-C` is recorded in `resources`.
pub fn execute<'a, E>(resources: &mut Resources<'a>, arguments: Arguments<'a, E>) -> (r: Result<
    Option<IntermediateConfig>,
    CliError<'a, E>,
>)
    ensures
        match cli_run(arguments@, empty_config(), empty_state()) {
            Ok(Some((cfg, path))) => r matches Ok(Some(c)) && c@ == cfg && opt_view(
                final(resources).config_path,
            ) == path,
            Ok(None) => r matches Ok(None) && *final(resources) == *old(resources),
            Err(e) => r matches Err(err) && err@ == e && *final(resources) == *old(resources),
        },
{
    let ghost start = arguments@;
    let mut args = arguments;
    let mut config = IntermediateConfig::new();
    let mut state = State::new();
    loop
        invariant
            cli_run(args@, config@, state@) == cli_run(start, empty_config(), empty_state()),
            start == arguments@,
            *resources == *old(resources),
        decreases args@.src.len(), pending_size(args@.arg),
    {
        let ghost m = args@;
        let next = args.next();
        proof {
            lemma_next_consumes(m);
        }
        assert(cli_run(m, config@, state@) == match arguments_next(m).1 {
            None => Ok(Some((config@, state@.config_path))),
            Some(Err(e)) => Err(CliErrorModel::Arguments(e)),
            Some(Ok(f)) => if is_flag(f, 'v', "version"@) {
                Ok(None)
            } else if takes_value(f) {
                let (m2, v) = arguments_value(arguments_next(m).0);
                match v {
                    None => Err(CliErrorModel::MissingArgument(f)),
                    Some(Err(e)) => Err(CliErrorModel::Arguments(ArgumentsErrorModel::Source(e))),
                    Some(Ok(v)) => match apply_flag::<E>(f, v, config@, state@) {
                        StepModel::Next(cfg2, st2) => cli_run(m2, cfg2, st2),
                        StepModel::Fail(e) => Err(e),
                        StepModel::Version => Ok(None),
                    },
                }
            } else {
                Err(CliErrorModel::UnknownFlag(f))
            },
        });
        let flag = match next {
            None => {
                resources.config_path = state.config_path;
                return Ok(Some(config));
            },
            Some(Err(e)) => {
                return Err(CliError::Arguments(e));
            },
            Some(Ok(flag)) => flag,
        };
        if flag_is(flag, 'v', "version") {
            return Ok(None);
        }
        let ghost m1 = args@;
        proof {
            lemma_value_consumes(m1);
        }
        if flag_is(flag, 'b', "background") {
            let v = value(&mut args, flag)?;
            match Color::from_name(v) {
                Some(c) => {
                    state.background = Some(c);
                },
                None => {
                    return Err(CliError::UnknownColor(v));
                },
            }
        } else if flag_is(flag, 'f', "foreground") {
            let v = value(&mut args, flag)?;
            match Color::from_name(v) {
                Some(c) => {
                    state.foreground = Some(c);
                },
                None => {
                    return Err(CliError::UnknownColor(v));
                },
            }
        } else if flag_is(flag, 'c', "color") {
            let v = value(&mut args, flag)?;
            if str_eq(v, "cursor") || str_eq(v, "c") || str_eq(v, "menu") || str_eq(v, "m")
                || str_eq(v, "selection") || str_eq(v, "s") {
                let given = Colors { foreground: state.foreground, background: state.background };
                config.cursor_colors.join(&given);
                state.foreground = None;
                state.background = None;
            } else {
                return Err(CliError::UnknownColorField(v));
            }
        } else if flag_is(flag, 'C', "config") {
            let v = value(&mut args, flag)?;
            state.config_path = Some(v);
        } else if flag_is(flag, 'P', "playlist") {
            let v = value(&mut args, flag)?;
            if state.songs.len() == 0 {
                return Err(CliError::EmptyPlaylist);
            }
            let songs = own_songs(&state.songs);
            let playlist: Playlist = (to_string(v), songs);
            let ghost before = config@;
            config.playlists.push(playlist);
            state.songs = Vec::new();
            proof {
                assert(config@.playlists =~= before.playlists.push(playlist_view(playlist)));
                assert(state@.songs =~= Seq::<(Seq<char>, Seq<char>)>::empty());
            }
        } else if flag_is(flag, 's', "song-path") {
            let v = value(&mut args, flag)?;
            state.song_path = Some(v);
            state.collect_song();
        } else if flag_is(flag, 'n', "song-name") {
            let v = value(&mut args, flag)?;
            state.song_name = Some(v);
            state.collect_song();
        } else if flag_is(flag, 'a', "key-action") {
            let v = value(&mut args, flag)?;
            let action = match KeyAction::parse(v) {
                Ok(a) => a,
                Err(e) => {
                    return Err(CliError::UnknownKeyAction(e));
                },
            };
            if state.key_binding.len() == 0 {
                return Err(CliError::EmptyKeyBinding);
            }
            let mut binding = Vec::new();
            std::mem::swap(&mut binding, &mut state.key_binding);
            let ghost before = config@;
            let ghost keys = binding@;
            config.key_bindings.push((action, binding));
            proof {
                assert(config@.key_bindings =~= before.key_bindings.push((action, keys)));
            }
        } else if flag_is(flag, 'k', "key-code") {
            let v = value(&mut args, flag)?;
            match parse_key_code(v) {
                Ok(k) => {
                    state.key_code = Some(k);
                    state.collect_key();
                },
                Err(s) => {
                    return Err(CliError::UnknownKeyCode(s));
                },
            }
        } else if flag_is(flag, 'm', "key-modifiers") {
            let v = value(&mut args, flag)?;
            match parse_key_modifiers(v) {
                Ok(k) => {
                    state.key_modifiers = Some(k);
                    state.collect_key();
                },
                Err(c) => {
                    return Err(CliError::UnknownKeyModifier(c));
                },
            }
        } else {
            return Err(CliError::UnknownFlag(flag));
        }
    }
}

} // verus!
