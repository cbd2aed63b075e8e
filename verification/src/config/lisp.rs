//! The configuration file: an expression of the configuration language
//! whose evaluation calls `set-cfg!` to set the fields of the
//! configuration.

use vstd::prelude::*;
use std::num::TryFromIntError;
use crate::clisp::arity::Arity;
use crate::clisp::ast::lexemes_model;
use crate::clisp::lexer::Lexeme;
use crate::config::{
    color_named, empty_config, key_action_named, key_binding_view, key_code_named, modifiers_named, parse_key_code,
    parse_key_modifiers, playlist_view, Color, Colors, ConfigModel, IntermediateConfig, KeyAction,
    KeyBinding, KeyBindingModel, KeyCode, KeyModifiers, Playlist, PlaylistModel, UnknownKeyActionError,
    NAME,
};
use crate::lisp::ast::{expr_view, parse_expr_at, Expr, ExprParser};
use crate::lisp::evaluator::{
    clone_value, eval, facts_view, frame_view, prelude, HostFact, HostFactModel, to_list, to_path, to_str, value_view, values_view, Builtin, EnvModel,
    Environment, ErrorModel, EvalError, FnModel, Function, Term, TermModel, Value, ValueKind, ValueModel,
};
use crate::text::{char_len, ends_with_char, push_char, push_str, str_eq, to_string};

verus! {

/// Why a value is not a color.
#[derive(Debug)]
pub enum InvalidColorError<'a> {
    /// An item of an RGB list is not a byte.
    InvalidRgb(TryFromIntError),
    /// An RGB list does not have three items.
    WrongListArity,
    /// The value is neither a list nor text.
    WrongType(Value<'a>),
    /// An item of an RGB list is not an integer.
    WrongListType(Value<'a>),
    /// No color has this name.
    UnknownColor(String),
}

/// The mathematical value of an [InvalidColorError].
pub enum InvalidColorModel {
    InvalidRgb,
    WrongListArity,
    WrongType(ValueModel),
    WrongListType(ValueModel),
    UnknownColor(Seq<char>),
}

impl<'a> View for InvalidColorError<'a> {
    type V = InvalidColorModel;

    open spec fn view(&self) -> InvalidColorModel {
        match *self {
            InvalidColorError::InvalidRgb(_) => InvalidColorModel::InvalidRgb,
            InvalidColorError::WrongListArity => InvalidColorModel::WrongListArity,
            InvalidColorError::WrongType(v) => InvalidColorModel::WrongType(value_view(v)),
            InvalidColorError::WrongListType(v) => InvalidColorModel::WrongListType(value_view(v)),
            InvalidColorError::UnknownColor(s) => InvalidColorModel::UnknownColor(s@),
        }
    }
}

/// `pre` put in front of the items in `r`, where `r` holds items.
pub open spec fn prepend<T>(pre: Seq<T>, r: Result<Seq<T>, ErrorModel>) -> Result<Seq<T>, ErrorModel> {
    match r {
        Ok(xs) => Ok(pre + xs),
        Err(e) => Err(e),
    }
}

proof fn lemma_prepend<T>(a: Seq<T>, b: Seq<T>, r: Result<Seq<T>, ErrorModel>)
    ensures
        prepend(a, prepend(b, r)) == prepend(a + b, r),
{
    if let Ok(xs) = r {
        assert(a + (b + xs) =~= (a + b) + xs);
    }
}

/// The byte that an item `v` of an RGB list stands for.
pub open spec fn byte_of(v: ValueModel) -> Result<u8, InvalidColorModel> {
    match v {
        ValueModel::Int(i) => if 0 <= i <= 255 {
            Ok(i as u8)
        } else {
            Err(InvalidColorModel::InvalidRgb)
        },
        _ => Err(InvalidColorModel::WrongListType(v)),
    }
}

/// The color named `name`, as the terminal library reads a name: white
/// where it knows no color of that name.
pub open spec fn named_color(name: Seq<char>) -> Color {
    match color_named(name) {
        Some(c) => c,
        None => Color::White,
    }
}

/// The color that `v` stands for: a list of three bytes is that red, green
/// and blue; the text `none` is no color; other text is a color's name.
pub open spec fn color_of(v: ValueModel) -> Result<Option<Color>, InvalidColorModel> {
    match v {
        ValueModel::List(items) => if items.len() != 3 {
            Err(InvalidColorModel::WrongListArity)
        } else {
            match (byte_of(items[0]), byte_of(items[1]), byte_of(items[2])) {
                (Err(e), _, _) => Err(e),
                (_, Err(e), _) => Err(e),
                (_, _, Err(e)) => Err(e),
                (Ok(r), Ok(g), Ok(b)) => Ok(Some(Color::Rgb { r, g, b })),
            }
        },
        ValueModel::Str(name) => if name == "none"@ {
            Ok(None)
        } else {
            Ok(Some(named_color(name)))
        },
        _ => Err(InvalidColorModel::WrongType(v)),
    }
}

/// The colors that `v` stands for: a list of a foreground and a background
/// color.
pub open spec fn colors_of(v: ValueModel) -> Result<Colors, ErrorModel> {
    match to_list(v) {
        Err(e) => Err(e),
        Ok(l) => if l.len() != 2 {
            Err(ErrorModel::WrongListArity(Arity::Static(2)))
        } else {
            match (color_of(l[0]), color_of(l[1])) {
                (Err(e), _) => Err(ErrorModel::InvalidColor(e)),
                (_, Err(e)) => Err(ErrorModel::InvalidColor(e)),
                (Ok(f), Ok(b)) => Ok(Colors { foreground: f, background: b }),
            }
        },
    }
}

/// The key that `v` stands for: a list of the letters of its modifiers
/// and the name of the key.
pub open spec fn key_of(v: ValueModel) -> Result<(KeyModifiers, KeyCode), ErrorModel> {
    match to_list(v) {
        Err(e) => Err(e),
        Ok(l) => if l.len() != 2 {
            Err(ErrorModel::WrongListArity(Arity::Static(2)))
        } else {
            match (to_str(l[0]), to_str(l[1])) {
                (Err(e), _) => Err(e),
                (_, Err(e)) => Err(e),
                (Ok(m), Ok(k)) => match modifiers_named(m, 0) {
                    Err(c) => Err(ErrorModel::UnknownKeyModifier(c)),
                    Ok(bits) => match key_code_named(k) {
                        None => Err(ErrorModel::UnknownKeyCode(k)),
                        Some(code) => Ok((KeyModifiers(bits), code)),
                    },
                },
            }
        },
    }
}

/// The keys that the items of `l` from `i` on stand for, up to the first
/// that stands for none.
pub open spec fn keys_from(l: Seq<ValueModel>, i: int) -> Result<Seq<(KeyModifiers, KeyCode)>, ErrorModel>
    decreases (if i < l.len() { l.len() - i } else { 0 }),
{
    if i < 0 || i >= l.len() {
        Ok(Seq::empty())
    } else {
        match key_of(l[i]) {
            Err(e) => Err(e),
            Ok(k) => prepend(seq![k], keys_from(l, i + 1)),
        }
    }
}

/// The key binding that `v` stands for: a list of the name of an action
/// and a list of one or more keys.
pub open spec fn binding_of(v: ValueModel) -> Result<KeyBindingModel, ErrorModel> {
    match to_list(v) {
        Err(e) => Err(e),
        Ok(l) => if l.len() != 2 {
            Err(ErrorModel::WrongListArity(Arity::Static(2)))
        } else {
            match to_str(l[0]) {
                Err(e) => Err(e),
                Ok(a) => match key_action_named(a) {
                    None => Err(ErrorModel::UnknownKeyAction(a)),
                    Some(action) => match to_list(l[1]) {
                        Err(e) => Err(e),
                        Ok(keys) => if keys.len() == 0 {
                            Err(ErrorModel::WrongListArity(Arity::RangeFrom(1)))
                        } else {
                            match keys_from(keys, 0) {
                                Err(e) => Err(e),
                                Ok(ks) => Ok((action, ks)),
                            }
                        },
                    },
                },
            }
        },
    }
}

/// The key bindings that the items of `l` from `i` on stand for.
pub open spec fn bindings_from(l: Seq<ValueModel>, i: int) -> Result<Seq<KeyBindingModel>, ErrorModel>
    decreases (if i < l.len() { l.len() - i } else { 0 }),
{
    if i < 0 || i >= l.len() {
        Ok(Seq::empty())
    } else {
        match binding_of(l[i]) {
            Err(e) => Err(e),
            Ok(b) => prepend(seq![b], bindings_from(l, i + 1)),
        }
    }
}

/// The key bindings that `v` stands for: a list of one or more.
pub open spec fn key_bindings_of(v: ValueModel) -> Result<Seq<KeyBindingModel>, ErrorModel> {
    match to_list(v) {
        Err(e) => Err(e),
        Ok(l) => if l.len() == 0 {
            Err(ErrorModel::WrongArity(Arity::RangeFrom(1)))
        } else {
            bindings_from(l, 0)
        },
    }
}

/// The song that `v` stands for: a list of its name and its path.
pub open spec fn song_of(v: ValueModel) -> Result<(Seq<char>, Seq<char>), ErrorModel> {
    match to_list(v) {
        Err(e) => Err(e),
        Ok(l) => if l.len() != 2 {
            Err(ErrorModel::WrongListArity(Arity::Static(2)))
        } else {
            match to_str(l[0]) {
                Err(e) => Err(e),
                Ok(name) => match to_path(l[1]) {
                    Err(e) => Err(e),
                    Ok(path) => Ok((name, path)),
                },
            }
        },
    }
}

/// The songs that the items of `l` from `i` on stand for.
pub open spec fn songs_from(l: Seq<ValueModel>, i: int) -> Result<Seq<(Seq<char>, Seq<char>)>, ErrorModel>
    decreases (if i < l.len() { l.len() - i } else { 0 }),
{
    if i < 0 || i >= l.len() {
        Ok(Seq::empty())
    } else {
        match song_of(l[i]) {
            Err(e) => Err(e),
            Ok(s) => prepend(seq![s], songs_from(l, i + 1)),
        }
    }
}

/// The playlist that `v` stands for: a list of its name and a list of one
/// or more songs.
pub open spec fn playlist_of(v: ValueModel) -> Result<PlaylistModel, ErrorModel> {
    match to_list(v) {
        Err(e) => Err(e),
        Ok(l) => if l.len() != 2 {
            Err(ErrorModel::WrongListArity(Arity::Static(2)))
        } else {
            match to_str(l[0]) {
                Err(e) => Err(e),
                Ok(name) => match to_list(l[1]) {
                    Err(e) => Err(e),
                    Ok(songs) => if songs.len() == 0 {
                        Err(ErrorModel::WrongListArity(Arity::RangeFrom(1)))
                    } else {
                        match songs_from(songs, 0) {
                            Err(e) => Err(e),
                            Ok(ss) => Ok((name, ss)),
                        }
                    },
                },
            }
        },
    }
}

/// The playlists that the items of `l` from `i` on stand for.
pub open spec fn playlists_from(l: Seq<ValueModel>, i: int) -> Result<Seq<PlaylistModel>, ErrorModel>
    decreases (if i < l.len() { l.len() - i } else { 0 }),
{
    if i < 0 || i >= l.len() {
        Ok(Seq::empty())
    } else {
        match playlist_of(l[i]) {
            Err(e) => Err(e),
            Ok(p) => prepend(seq![p], playlists_from(l, i + 1)),
        }
    }
}

/// The playlists that `v` stands for: a list of them.
pub open spec fn playlists_of(v: ValueModel) -> Result<Seq<PlaylistModel>, ErrorModel> {
    match to_list(v) {
        Err(e) => Err(e),
        Ok(l) => playlists_from(l, 0),
    }
}

/// The configuration `c` with its field `field` set to what `v` stands
/// for: the colors of the cursor, the menu or the selection, the key
/// bindings or the playlists, each replacing what was there.
pub open spec fn setting_of(c: ConfigModel, field: Seq<char>, v: ValueModel) -> Result<ConfigModel, ErrorModel> {
    if field == "cursor-colors"@ {
        match colors_of(v) {
            Err(e) => Err(e),
            Ok(cs) => Ok(ConfigModel { cursor_colors: cs, ..c }),
        }
    } else if field == "menu-colors"@ {
        match colors_of(v) {
            Err(e) => Err(e),
            Ok(cs) => Ok(ConfigModel { menu_colors: cs, ..c }),
        }
    } else if field == "selection-colors"@ {
        match colors_of(v) {
            Err(e) => Err(e),
            Ok(cs) => Ok(ConfigModel { selection_colors: cs, ..c }),
        }
    } else if field == "key-bindings"@ {
        match key_bindings_of(v) {
            Err(e) => Err(e),
            Ok(kb) => Ok(ConfigModel { key_bindings: kb, ..c }),
        }
    } else if field == "playlists"@ {
        match playlists_of(v) {
            Err(e) => Err(e),
            Ok(ps) => Ok(ConfigModel { playlists: ps, ..c }),
        }
    } else {
        Err(ErrorModel::UnknownCfgField(field))
    }
}


fn byte_from_value<'a>(v: &Value<'a>) -> (r: Result<u8, InvalidColorError<'a>>)
    ensures
        match byte_of(value_view(*v)) {
            Ok(b) => r matches Ok(x) && x == b,
            Err(e) => r matches Err(err) && err@ == e,
        },
{
    match v {
        Value::Int(i) => match u8::try_from(*i) {
            Ok(b) => Ok(b),
            Err(e) => Err(InvalidColorError::InvalidRgb(e)),
        },
        _ => Err(InvalidColorError::WrongListType(clone_value(v))),
    }
}

/// The color that `v` stands for (see [color_of]).
pub fn color_from_value<'a>(v: &Value<'a>) -> (r: Result<Option<Color>, InvalidColorError<'a>>)
    ensures
        match color_of(value_view(*v)) {
            Ok(c) => r matches Ok(x) && x == c,
            Err(e) => r matches Err(err) && err@ == e,
        },
{
    match v {
        Value::List(items) => {
            let ghost l = values_view(items@);
            assert(value_view(*v)->List_0 =~= l);
            if items.len() != 3 {
                return Err(InvalidColorError::WrongListArity);
            }
            assert(l[0] == value_view(items@[0]));
            assert(l[1] == value_view(items@[1]));
            assert(l[2] == value_view(items@[2]));
            let r = match byte_from_value(&items[0]) {
                Err(e) => {
                    return Err(e);
                },
                Ok(x) => x,
            };
            let g = match byte_from_value(&items[1]) {
                Err(e) => {
                    return Err(e);
                },
                Ok(x) => x,
            };
            let b = match byte_from_value(&items[2]) {
                Err(e) => {
                    return Err(e);
                },
                Ok(x) => x,
            };
            Ok(Some(Color::Rgb { r, g, b }))
        },
        Value::String(name) => {
            if str_eq(name.as_str(), "none") {
                Ok(None)
            } else {
                match Color::from_name(name.as_str()) {
                    Some(c) => Ok(Some(c)),
                    None => Ok(Some(Color::White)),
                }
            }
        },
        _ => Err(InvalidColorError::WrongType(clone_value(v))),
    }
}

/// The colors that `v` stands for (see [colors_of]).
pub fn colors_from_value<'a>(v: &Value<'a>) -> (r: Result<Colors, EvalError<'a>>)
    ensures
        match colors_of(value_view(*v)) {
            Ok(c) => r matches Ok(x) && x == c,
            Err(e) => r matches Err(err) && err@ == e,
        },
{
    match v {
        Value::List(items) => {
            let ghost l = values_view(items@);
            assert(value_view(*v)->List_0 =~= l);
            if items.len() != 2 {
                return Err(EvalError::WrongListArity(Arity::Static(2)));
            }
            assert(l[0] == value_view(items@[0]));
            assert(l[1] == value_view(items@[1]));
            let f = color_from_value(&items[0]);
            let b = color_from_value(&items[1]);
            match (f, b) {
                (Err(e), _) => Err(EvalError::InvalidColor(e)),
                (_, Err(e)) => Err(EvalError::InvalidColor(e)),
                (Ok(f), Ok(b)) => Ok(Colors { foreground: f, background: b }),
            }
        },
        _ => Err(EvalError::WrongType(ValueKind::List)),
    }
}

/// The key that `v` stands for (see [key_of]).
pub fn key_from_value<'a>(v: &Value<'a>) -> (r: Result<(KeyModifiers, KeyCode), EvalError<'a>>)
    ensures
        match key_of(value_view(*v)) {
            Ok(k) => r matches Ok(x) && x == k,
            Err(e) => r matches Err(err) && err@ == e,
        },
{
    match v {
        Value::List(items) => {
            let ghost l = values_view(items@);
            assert(value_view(*v)->List_0 =~= l);
            if items.len() != 2 {
                return Err(EvalError::WrongListArity(Arity::Static(2)));
            }
            assert(l[0] == value_view(items@[0]));
            assert(l[1] == value_view(items@[1]));
            let m = match &items[0] {
                Value::String(s) => s,
                _ => {
                    return Err(EvalError::WrongType(ValueKind::String));
                },
            };
            let k = match &items[1] {
                Value::String(s) => s,
                _ => {
                    return Err(EvalError::WrongType(ValueKind::String));
                },
            };
            let mods = match parse_key_modifiers(m.as_str()) {
                Ok(x) => x,
                Err(c) => {
                    return Err(EvalError::UnknownKeyModifier(c));
                },
            };
            let code = match parse_key_code(k.as_str()) {
                Ok(x) => x,
                Err(name) => {
                    return Err(EvalError::UnknownKeyCode(to_string(name)));
                },
            };
            Ok((mods, code))
        },
        _ => Err(EvalError::WrongType(ValueKind::List)),
    }
}

/// The keys that `items` stand for (see [keys_from]).
fn keys_from_values<'a>(items: &Vec<Value<'a>>) -> (r: Result<Vec<(KeyModifiers, KeyCode)>, EvalError<'a>>)
    ensures
        match keys_from(values_view(items@), 0) {
            Ok(ks) => r matches Ok(o) && o@ == ks,
            Err(e) => r matches Err(err) && err@ == e,
        },
{
    let ghost l = values_view(items@);
    let mut out: Vec<(KeyModifiers, KeyCode)> = Vec::new();
    let mut i: usize = 0;
    while i < items.len()
        invariant
            l == values_view(items@),
            i <= items@.len(),
            keys_from(l, 0) == prepend(out@, keys_from(l, i as int)),
        decreases items@.len() - i,
    {
        assert(l[i as int] == value_view(items@[i as int]));
        let k = match key_from_value(&items[i]) {
            Err(e) => {
                return Err(e);
            },
            Ok(k) => k,
        };
        proof {
            lemma_prepend(out@, seq![k], keys_from(l, i + 1));
        }
        let ghost before = out@;
        out.push(k);
        assert(out@ =~= before + seq![k]);
        i = i + 1;
    }
    assert(out@ + Seq::<(KeyModifiers, KeyCode)>::empty() =~= out@);
    Ok(out)
}

/// The key binding that `v` stands for (see [binding_of]).
pub fn binding_from_value<'a>(v: &Value<'a>) -> (r: Result<KeyBinding, EvalError<'a>>)
    ensures
        match binding_of(value_view(*v)) {
            Ok(b) => r matches Ok(x) && key_binding_view(x) == b,
            Err(e) => r matches Err(err) && err@ == e,
        },
{
    match v {
        Value::List(items) => {
            let ghost l = values_view(items@);
            assert(value_view(*v)->List_0 =~= l);
            if items.len() != 2 {
                return Err(EvalError::WrongListArity(Arity::Static(2)));
            }
            assert(l[0] == value_view(items@[0]));
            assert(l[1] == value_view(items@[1]));
            let a = match &items[0] {
                Value::String(s) => s,
                _ => {
                    return Err(EvalError::WrongType(ValueKind::String));
                },
            };
            let action = match KeyAction::parse(a.as_str()) {
                Ok(x) => x,
                Err(e) => {
                    return Err(EvalError::UnknownKeyAction(UnknownKeyActionError(to_string(e.0))));
                },
            };
            let keys = match &items[1] {
                Value::List(ks) => ks,
                _ => {
                    return Err(EvalError::WrongType(ValueKind::List));
                },
            };
            assert(value_view(items@[1])->List_0 =~= values_view(keys@));
            if keys.len() == 0 {
                return Err(EvalError::WrongListArity(Arity::RangeFrom(1)));
            }
            match keys_from_values(keys) {
                Err(e) => Err(e),
                Ok(ks) => Ok((action, ks)),
            }
        },
        _ => Err(EvalError::WrongType(ValueKind::List)),
    }
}

/// The mathematical values of key bindings.
pub open spec fn bindings_view(s: Seq<KeyBinding>) -> Seq<KeyBindingModel> {
    s.map_values(|k: KeyBinding| key_binding_view(k))
}

/// The key bindings that `v` stands for (see [key_bindings_of]).
pub fn key_bindings_from_value<'a>(v: &Value<'a>) -> (r: Result<Vec<KeyBinding>, EvalError<'a>>)
    ensures
        match key_bindings_of(value_view(*v)) {
            Ok(kb) => r matches Ok(o) && bindings_view(o@) == kb,
            Err(e) => r matches Err(err) && err@ == e,
        },
{
    let items = match v {
        Value::List(items) => items,
        _ => {
            return Err(EvalError::WrongType(ValueKind::List));
        },
    };
    let ghost l = values_view(items@);
    assert(value_view(*v)->List_0 =~= l);
    if items.len() == 0 {
        return Err(EvalError::WrongArity(Arity::RangeFrom(1)));
    }
    let mut out: Vec<KeyBinding> = Vec::new();
    let mut i: usize = 0;
    assert(bindings_view(out@) =~= Seq::<KeyBindingModel>::empty());
    while i < items.len()
        invariant
            l == values_view(items@),
            value_view(*v) == ValueModel::List(l),
            l.len() > 0,
            i <= items@.len(),
            bindings_from(l, 0) == prepend(bindings_view(out@), bindings_from(l, i as int)),
        decreases items@.len() - i,
    {
        assert(l[i as int] == value_view(items@[i as int]));
        let b = match binding_from_value(&items[i]) {
            Err(e) => {
                return Err(e);
            },
            Ok(b) => b,
        };
        let ghost bv = key_binding_view(b);
        proof {
            lemma_prepend(bindings_view(out@), seq![bv], bindings_from(l, i + 1));
        }
        let ghost before = bindings_view(out@);
        out.push(b);
        assert(bindings_view(out@) =~= before + seq![bv]);
        i = i + 1;
    }
    assert(bindings_view(out@) + Seq::<KeyBindingModel>::empty() =~= bindings_view(out@));
    Ok(out)
}

/// The song that `v` stands for (see [song_of]).
pub fn song_from_value<'a>(v: &Value<'a>) -> (r: Result<(String, String), EvalError<'a>>)
    ensures
        match song_of(value_view(*v)) {
            Ok(s) => r matches Ok(x) && x.0@ == s.0 && x.1@ == s.1,
            Err(e) => r matches Err(err) && err@ == e,
        },
{
    match v {
        Value::List(items) => {
            let ghost l = values_view(items@);
            assert(value_view(*v)->List_0 =~= l);
            if items.len() != 2 {
                return Err(EvalError::WrongListArity(Arity::Static(2)));
            }
            assert(l[0] == value_view(items@[0]));
            assert(l[1] == value_view(items@[1]));
            let name = match &items[0] {
                Value::String(s) => s,
                _ => {
                    return Err(EvalError::WrongType(ValueKind::String));
                },
            };
            let path = match &items[1] {
                Value::Path(p) => p,
                _ => {
                    return Err(EvalError::WrongType(ValueKind::Path));
                },
            };
            Ok((to_string(name.as_str()), to_string(path.as_str())))
        },
        _ => Err(EvalError::WrongType(ValueKind::List)),
    }
}

/// The mathematical values of songs.
pub open spec fn songs_view(s: Seq<(String, String)>) -> Seq<(Seq<char>, Seq<char>)> {
    s.map_values(|x: (String, String)| (x.0@, x.1@))
}

/// The playlist that `v` stands for (see [playlist_of]).
pub fn playlist_from_value<'a>(v: &Value<'a>) -> (r: Result<Playlist, EvalError<'a>>)
    ensures
        match playlist_of(value_view(*v)) {
            Ok(p) => r matches Ok(x) && playlist_view(x) == p,
            Err(e) => r matches Err(err) && err@ == e,
        },
{
    let items = match v {
        Value::List(items) => items,
        _ => {
            return Err(EvalError::WrongType(ValueKind::List));
        },
    };
    let ghost l = values_view(items@);
    assert(value_view(*v)->List_0 =~= l);
    if items.len() != 2 {
        return Err(EvalError::WrongListArity(Arity::Static(2)));
    }
    assert(l[0] == value_view(items@[0]));
    assert(l[1] == value_view(items@[1]));
    let name = match &items[0] {
        Value::String(s) => s,
        _ => {
            return Err(EvalError::WrongType(ValueKind::String));
        },
    };
    let songs = match &items[1] {
        Value::List(ss) => ss,
        _ => {
            return Err(EvalError::WrongType(ValueKind::List));
        },
    };
    let ghost sl = values_view(songs@);
    assert(value_view(items@[1])->List_0 =~= sl);
    if songs.len() == 0 {
        return Err(EvalError::WrongListArity(Arity::RangeFrom(1)));
    }
    let mut out: Vec<(String, String)> = Vec::new();
    let mut i: usize = 0;
    assert(songs_view(out@) =~= Seq::<(Seq<char>, Seq<char>)>::empty());
    while i < songs.len()
        invariant
            sl == values_view(songs@),
            value_view(*v) == ValueModel::List(l),
            l.len() == 2,
            l[0] == ValueModel::Str(name@),
            l[1] == ValueModel::List(sl),
            sl.len() > 0,
            i <= songs@.len(),
            songs_from(sl, 0) == prepend(songs_view(out@), songs_from(sl, i as int)),
        decreases songs@.len() - i,
    {
        assert(sl[i as int] == value_view(songs@[i as int]));
        let s = match song_from_value(&songs[i]) {
            Err(e) => {
                return Err(e);
            },
            Ok(s) => s,
        };
        let ghost sv = (s.0@, s.1@);
        proof {
            lemma_prepend(songs_view(out@), seq![sv], songs_from(sl, i + 1));
        }
        let ghost before = songs_view(out@);
        out.push(s);
        assert(songs_view(out@) =~= before + seq![sv]);
        i = i + 1;
    }
    assert(songs_view(out@) + Seq::<(Seq<char>, Seq<char>)>::empty() =~= songs_view(out@));
    let r = (to_string(name.as_str()), out);
    assert(playlist_view(r).1 =~= songs_view(r.1@));
    Ok(r)
}

/// The mathematical values of playlists.
pub open spec fn playlists_view(s: Seq<Playlist>) -> Seq<PlaylistModel> {
    s.map_values(|p: Playlist| playlist_view(p))
}

/// The playlists that `v` stands for (see [playlists_of]).
pub fn playlists_from_value<'a>(v: &Value<'a>) -> (r: Result<Vec<Playlist>, EvalError<'a>>)
    ensures
        match playlists_of(value_view(*v)) {
            Ok(ps) => r matches Ok(o) && playlists_view(o@) == ps,
            Err(e) => r matches Err(err) && err@ == e,
        },
{
    let items = match v {
        Value::List(items) => items,
        _ => {
            return Err(EvalError::WrongType(ValueKind::List));
        },
    };
    let ghost l = values_view(items@);
    assert(value_view(*v)->List_0 =~= l);
    let mut out: Vec<Playlist> = Vec::new();
    let mut i: usize = 0;
    assert(playlists_view(out@) =~= Seq::<PlaylistModel>::empty());
    while i < items.len()
        invariant
            l == values_view(items@),
            value_view(*v) == ValueModel::List(l),
            i <= items@.len(),
            playlists_from(l, 0) == prepend(playlists_view(out@), playlists_from(l, i as int)),
        decreases items@.len() - i,
    {
        assert(l[i as int] == value_view(items@[i as int]));
        let p = match playlist_from_value(&items[i]) {
            Err(e) => {
                return Err(e);
            },
            Ok(p) => p,
        };
        let ghost pv = playlist_view(p);
        proof {
            lemma_prepend(playlists_view(out@), seq![pv], playlists_from(l, i + 1));
        }
        let ghost before = playlists_view(out@);
        out.push(p);
        assert(playlists_view(out@) =~= before + seq![pv]);
        i = i + 1;
    }
    assert(playlists_view(out@) + Seq::<PlaylistModel>::empty() =~= playlists_view(out@));
    Ok(out)
}

/// Sets the field `field` of `config` to what `v` stands for (see
/// [setting_of]); on an error `config` is left as it was.
pub fn set_cfg<'a>(config: &mut IntermediateConfig, field: &str, v: &Value<'a>) -> (r: Result<(), EvalError<'a>>)
    ensures
        match setting_of(old(config)@, field@, value_view(*v)) {
            Ok(c) => r is Ok && final(config)@ == c,
            Err(e) => r matches Err(err) && err@ == e && final(config)@ == old(config)@,
        },
{
    if str_eq(field, "cursor-colors") {
        match colors_from_value(v) {
            Err(e) => Err(e),
            Ok(cs) => {
                config.cursor_colors = cs;
                Ok(())
            },
        }
    } else if str_eq(field, "menu-colors") {
        match colors_from_value(v) {
            Err(e) => Err(e),
            Ok(cs) => {
                config.menu_colors = cs;
                Ok(())
            },
        }
    } else if str_eq(field, "selection-colors") {
        match colors_from_value(v) {
            Err(e) => Err(e),
            Ok(cs) => {
                config.selection_colors = cs;
                Ok(())
            },
        }
    } else if str_eq(field, "key-bindings") {
        match key_bindings_from_value(v) {
            Err(e) => Err(e),
            Ok(kb) => {
                config.key_bindings = kb;
                assert(config@.key_bindings =~= bindings_view(kb@));
                Ok(())
            },
        }
    } else if str_eq(field, "playlists") {
        match playlists_from_value(v) {
            Err(e) => Err(e),
            Ok(ps) => {
                config.playlists = ps;
                assert(config@.playlists =~= playlists_view(ps@));
                Ok(())
            },
        }
    } else {
        Err(EvalError::UnknownCfgField(to_string(field)))
    }
}


/// Why the configuration could not be read.
#[derive(Debug)]
pub enum LispError<'a> {
    /// Evaluating the configuration failed.
    Eval(EvalError<'a>),
    /// The file does not start with an expression.
    InvalidSyntax,
    /// The file could not be read: why, and its path.
    ReadConfig(String, String),
    /// No path was given, and no environment variable tells where to look.
    UnsetEnvVars,
}

impl<'a> LispError<'a> {
    /// What is printed for the error; an evaluation error is described by
    /// the caller, so it has none here.
    pub fn message(&self) -> (r: Option<String>)
        ensures
            match *self {
                LispError::Eval(_) => r is None,
                LispError::InvalidSyntax => r matches Some(m) && m@ == "invalid syntax"@,
                LispError::ReadConfig(e, p) => r matches Some(m) && m@ == "failed to read configuration at `"@ + p@
                    + "`: "@ + e@,
                LispError::UnsetEnvVars => r matches Some(m) && m@ == "unset environment variables"@,
            },
    {
        match self {
            LispError::Eval(_) => None,
            LispError::InvalidSyntax => Some(to_string("invalid syntax")),
            LispError::ReadConfig(e, p) => {
                let mut m = to_string("failed to read configuration at `");
                push_str(&mut m, p.as_str());
                push_str(&mut m, "`: ");
                push_str(&mut m, e.as_str());
                Some(m)
            },
            LispError::UnsetEnvVars => Some(to_string("unset environment variables")),
        }
    }
}

/// The name of the configuration file.
pub const CONFIG_FILE_NAME: &'static str = "main.lisp";

/// `base` extended by the relative path `part`, as a path is extended: with
/// a `/` between them where `base` is neither empty nor ends in one.
pub open spec fn path_join(base: Seq<char>, part: Seq<char>) -> Seq<char> {
    if base.len() == 0 {
        part
    } else if base.last() == '/' {
        base + part
    } else {
        base + seq!['/'] + part
    }
}

/// Where the configuration file is: the path given, else the program's
/// file under `$XDG_CONFIG_HOME`, else under `$HOME/.config`.
pub open spec fn config_path_of(given: Option<Seq<char>>, xdg_config_home: Option<Seq<char>>, home: Option<Seq<char>>) -> Option<
    Seq<char>,
> {
    match given {
        Some(p) => Some(p),
        None => match xdg_config_home {
            Some(x) => Some(path_join(path_join(x, NAME@), CONFIG_FILE_NAME@)),
            None => match home {
                Some(h) => Some(path_join(path_join(path_join(h, ".config"@), NAME@), CONFIG_FILE_NAME@)),
                None => None,
            },
        },
    }
}

fn push_path(base: &mut String, part: &str)
    ensures
        final(base)@ == path_join(old(base)@, part@),
{
    if char_len(base.as_str()) > 0 && !ends_with_char(base.as_str(), '/') {
        push_char(base, '/');
    }
    push_str(base, part);
}

/// The path of the configuration file (see [config_path_of]), given the
/// path named on the command line and the values of `XDG_CONFIG_HOME` and
/// `HOME`.
pub fn config_path<'a>(given: Option<&str>, xdg_config_home: Option<&str>, home: Option<&str>) -> (r: Result<
    String,
    LispError<'a>,
>)
    ensures
        match config_path_of(
            match given { Some(p) => Some(p@), None => None },
            match xdg_config_home { Some(x) => Some(x@), None => None },
            match home { Some(h) => Some(h@), None => None },
        ) {
            Some(p) => r matches Ok(s) && s@ == p,
            None => r matches Err(LispError::UnsetEnvVars),
        },
{
    if let Some(p) = given {
        return Ok(to_string(p));
    }
    let mut path = if let Some(x) = xdg_config_home {
        to_string(x)
    } else if let Some(h) = home {
        let mut p = to_string(h);
        push_path(&mut p, ".config");
        p
    } else {
        return Err(LispError::UnsetEnvVars);
    };
    push_path(&mut path, NAME);
    push_path(&mut path, CONFIG_FILE_NAME);
    Ok(path)
}

/// The expression that the lexemes of a configuration start with; what
/// follows it is not read.
pub fn parse_source<'a>(lexemes: &'a [Lexeme<'a>]) -> (r: Result<Expr<'a>, LispError<'a>>)
    ensures
        match parse_expr_at(lexemes_model(lexemes@), 0) {
            Some((e, _)) => r matches Ok(x) && expr_view(x) == e,
            None => r matches Err(LispError::InvalidSyntax),
        },
{
    match ExprParser.parse(lexemes) {
        Some(o) => Ok(o.output),
        None => Err(LispError::InvalidSyntax),
    }
}

/// The environment a configuration is evaluated in: the built-in
/// functions and `set-cfg!`, in one frame, the empty configuration, the
/// answers `host` from the world outside, and the path separator `sep`.
pub open spec fn config_env(host: Seq<HostFactModel>, sep: Seq<char>) -> EnvModel {
    EnvModel {
        frames: seq![prelude() + seq![("set-cfg!"@, ValueModel::Fn(FnModel::Builtin(Builtin::SetCfg)))]],
        config: empty_config(),
        host,
        separator: sep,
    }
}

/// Evaluates the configuration `expr` in [config_env], with the answers
/// `facts` from the world outside and the platform's path separator, and
/// `fuel` levels of nesting: the configuration that `set-cfg!` set, or the
/// error that stopped the evaluation. Where that error is
/// [EvalError::NeedsHost], the caller finds the answer, adds it to `facts`
/// and evaluates again.
pub fn execute<'a>(expr: &'a Expr<'a>, facts: Vec<HostFact>, fuel: u64) -> (r: Result<IntermediateConfig, LispError<'a>>)
    ensures
        exists|sep: Seq<char>|
            match #[trigger] eval(config_env(facts_view(facts@), sep), TermModel::Expr(expr_view(*expr)), fuel as nat) {
                (env, Ok(_)) => r matches Ok(c) && c@ == env.config,
                (_, Err(e)) => r matches Err(LispError::Eval(err)) && err@ == e,
            },
{
    let mut syms: Vec<(&'a str, Value<'a>)> = Vec::new();
    syms.push(("set-cfg!", Value::Fn(Function::Builtin(Builtin::SetCfg))));
    assert(frame_view(syms@) =~= seq![("set-cfg!"@, ValueModel::Fn(FnModel::Builtin(Builtin::SetCfg)))]);
    let mut env = Environment::with_symbols(syms);
    let ghost fv = facts_view(facts@);
    let mut i: usize = 0;
    while i < facts.len()
        invariant
            i <= facts@.len(),
            fv == facts_view(facts@),
            env@.frames == config_env(fv, env@.separator).frames,
            env@.config == empty_config(),
            env@.host == fv.take(i as int),
        decreases facts@.len() - i,
    {
        let ghost before = env@;
        env.answer(facts[i].copy());
        assert(env@.host =~= fv.take(i + 1));
        i = i + 1;
    }
    assert(fv.take(i as int) =~= fv);
    let ghost sep = env@.separator;
    assert(env@ == config_env(fv, sep));
    let t = Term::Expr(expr);
    let r = env.eval(&t, fuel);
    match r {
        Ok(_) => Ok(env.take_config()),
        Err(e) => Err(LispError::Eval(e)),
    }
}


/// Setting a field twice is setting it the second time: the later value
/// wins, and the first leaves no trace.
pub proof fn law_set_cfg_last_wins(c: ConfigModel, field: Seq<char>, first: ValueModel, second: ValueModel)
    requires
        setting_of(c, field, first) is Ok,
    ensures
        setting_of(setting_of(c, field, first)->Ok_0, field, second) == setting_of(c, field, second),
{
}

/// Setting a field leaves every other field as it was.
pub proof fn law_set_cfg_keeps_other_fields(c: ConfigModel, field: Seq<char>, v: ValueModel)
    requires
        setting_of(c, field, v) is Ok,
    ensures
        ({
            let d = setting_of(c, field, v)->Ok_0;
            &&& field != "cursor-colors"@ ==> d.cursor_colors == c.cursor_colors
            &&& field != "menu-colors"@ ==> d.menu_colors == c.menu_colors
            &&& field != "selection-colors"@ ==> d.selection_colors == c.selection_colors
            &&& field != "key-bindings"@ ==> d.key_bindings == c.key_bindings
            &&& field != "playlists"@ ==> d.playlists == c.playlists
        }),
{
}

} // verus!
