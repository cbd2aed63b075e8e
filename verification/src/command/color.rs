//! The 16 terminal colors and the escape sequences that set them.

use vstd::prelude::*;
use crate::text::{push_char, push_str, to_string};

verus! {

/// One of the 16 colors of a terminal's palette.
#[derive(Clone, Copy, Debug, PartialEq, Eq, Structural)]
pub enum Color {
    Black,
    DarkRed,
    DarkGreen,
    DarkYellow,
    DarkBlue,
    DarkPurple,
    DarkCyan,
    LightGray,
    DarkGray,
    Red,
    Green,
    Yellow,
    Blue,
    Purple,
    Cyan,
    White,
}

/// The place of `c` in the palette.
pub open spec fn palette_index(c: Color) -> u8 {
    match c {
        Color::Black => 0,
        Color::DarkRed => 1,
        Color::DarkGreen => 2,
        Color::DarkYellow => 3,
        Color::DarkBlue => 4,
        Color::DarkPurple => 5,
        Color::DarkCyan => 6,
        Color::LightGray => 7,
        Color::DarkGray => 8,
        Color::Red => 9,
        Color::Green => 10,
        Color::Yellow => 11,
        Color::Blue => 12,
        Color::Purple => 13,
        Color::Cyan => 14,
        Color::White => 15,
    }
}

/// The decimal digits of `n`.
pub open spec fn decimal(n: nat) -> Seq<char>
    decreases n,
{
    if n < 10 {
        seq![('0' as u32 + n) as char]
    } else {
        decimal(n / 10) + seq![('0' as u32 + n % 10) as char]
    }
}

fn digit_char(d: u8) -> (c: char)
    requires
        d < 10,
    ensures
        c == ('0' as u32 + d) as char,
{
    (48u8 + d) as char
}

/// Appends the decimal digits of `n` to `s`.
fn push_decimal(s: &mut String, n: u8)
    ensures
        final(s)@ == old(s)@ + decimal(n as nat),
{
    let ghost start = s@;
    if n >= 100 {
        let a = digit_char(n / 100);
        let b = digit_char((n / 10) % 10);
        let c = digit_char(n % 10);
        push_char(s, a);
        push_char(s, b);
        push_char(s, c);
        proof {
            assert(decimal((n / 100) as nat) == seq![a]);
            assert(decimal((n / 10) as nat) == decimal((n / 100) as nat) + seq![b]);
            assert(decimal(n as nat) == decimal((n / 10) as nat) + seq![c]);
            assert(s@ =~= start + (seq![a] + seq![b] + seq![c]));
            assert(seq![a] + seq![b] + seq![c] =~= decimal(n as nat));
        }
    } else if n >= 10 {
        let a = digit_char(n / 10);
        let c = digit_char(n % 10);
        push_char(s, a);
        push_char(s, c);
        proof {
            assert(decimal((n / 10) as nat) == seq![a]);
            assert(decimal(n as nat) == decimal((n / 10) as nat) + seq![c]);
            assert(s@ =~= start + (seq![a] + seq![c]));
            assert(seq![a] + seq![c] =~= decimal(n as nat));
        }
    } else {
        let a = digit_char(n);
        push_char(s, a);
        proof {
            assert(decimal(n as nat) == seq![a]);
            assert(s@ =~= start + seq![a]);
        }
    }
}

impl Color {
    /// The place of this color in the palette.
    pub fn index(&self) -> (r: u8)
        ensures
            r == palette_index(*self),
    {
        match self {
            Color::Black => 0,
            Color::DarkRed => 1,
            Color::DarkGreen => 2,
            Color::DarkYellow => 3,
            Color::DarkBlue => 4,
            Color::DarkPurple => 5,
            Color::DarkCyan => 6,
            Color::LightGray => 7,
            Color::DarkGray => 8,
            Color::Red => 9,
            Color::Green => 10,
            Color::Yellow => 11,
            Color::Blue => 12,
            Color::Purple => 13,
            Color::Cyan => 14,
            Color::White => 15,
        }
    }
}

/// The escape sequence `ESC [ <layer> ; 5 ; <index> m`, which sets a
/// palette color on the foreground (layer 38) or the background (48).
pub open spec fn palette_sequence(layer: Seq<char>, c: Color) -> Seq<char> {
    seq!['\u{1b}', '['] + layer + seq![';', '5', ';'] + decimal(palette_index(c) as nat) + seq!['m']
}

fn sequence(layer: &str, c: Color) -> (r: String)
    ensures
        r@ == palette_sequence(layer@, c),
{
    let mut r = to_string("\u{1b}[");
    push_str(&mut r, layer);
    push_str(&mut r, ";5;");
    push_decimal(&mut r, c.index());
    push_char(&mut r, 'm');
    proof {
        reveal_strlit("\u{1b}[");
        reveal_strlit(";5;");
        assert(r@ =~= palette_sequence(layer@, c));
    }
    r
}

/// Sets the foreground color.
#[derive(Clone, Copy, Debug, PartialEq, Eq)]
pub struct Foreground(pub Color);

/// Sets the background color.
#[derive(Clone, Copy, Debug, PartialEq, Eq)]
pub struct Background(pub Color);

impl Foreground {
    /// The escape sequence, for layer 38.
    pub fn ansi(&self) -> (r: String)
        ensures
            r@ == palette_sequence("38"@, self.0),
    {
        sequence("38", self.0)
    }
}

impl Background {
    /// The escape sequence, for layer 48.
    pub fn ansi(&self) -> (r: String)
        ensures
            r@ == palette_sequence("48"@, self.0),
    {
        sequence("48", self.0)
    }
}

} // verus!
