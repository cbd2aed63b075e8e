//! Text written to the terminal.

use vstd::prelude::*;
use crate::text::push_char;

pub mod color;

verus! {

/// Text that can be read character by character.
pub trait AsChars {
    spec fn chars_view(&self) -> Seq<char>;

    fn as_chars(&self) -> (r: Vec<char>)
        ensures
            r@ == self.chars_view();
}

fn chars_of(s: &str) -> (r: Vec<char>)
    ensures
        r@ == s@,
{
    let n = s.unicode_len();
    let mut r: Vec<char> = Vec::new();
    let mut i: usize = 0;
    while i < n
        invariant
            n == s@.len(),
            i <= n,
            r@ == s@.take(i as int),
        decreases n - i,
    {
        r.push(s.get_char(i));
        assert(r@ =~= s@.take(i + 1));
        i = i + 1;
    }
    assert(s@.take(n as int) =~= s@);
    r
}

impl<'a> AsChars for &'a str {
    open spec fn chars_view(&self) -> Seq<char> {
        (*self)@
    }

    fn as_chars(&self) -> (r: Vec<char>) {
        chars_of(*self)
    }
}

impl AsChars for String {
    open spec fn chars_view(&self) -> Seq<char> {
        self@
    }

    fn as_chars(&self) -> (r: Vec<char>) {
        chars_of(self.as_str())
    }
}

/// The number of terminal columns that the `unicode-width` crate gives
/// `c`, for the characters from U+00A0 on, which it looks up in its tables.
pub uninterp spec fn unicode_char_width(c: char) -> Option<usize>;

/// The number of terminal columns `c` takes, as the `unicode-width` crate
/// reports it: none for the control characters below U+0020 and from
/// U+007F to U+009F, 1 for the rest of ASCII, and its table's width for
/// everything from U+00A0 on.
pub open spec fn char_width_of(c: char) -> Option<usize> {
    if (c as u32) < 0x20 {
        None
    } else if (c as u32) < 0x7f {
        Some(1)
    } else if (c as u32) < 0xa0 {
        None
    } else {
        unicode_char_width(c)
    }
}

/// `UnicodeWidthChar::width`: the crate gives `None` for the control
/// characters below U+0020 and from U+007F to U+009F, 1 for the rest of
/// ASCII, and a width from its tables for everything from U+00A0 on.
#[verifier::external_body]
fn char_width(c: char) -> (r: Option<usize>)
    ensures
        r == char_width_of(c),
        0xa0 <= (c as u32) ==> r == unicode_char_width(c) && r is Some,
{
    unicode_width::UnicodeWidthChar::width(c)
}

/// The columns `c` takes, control characters taking none.
pub open spec fn columns(c: char) -> nat {
    match char_width_of(c) {
        Some(n) => n as nat,
        None => 0,
    }
}

/// The columns that all of `s` takes.
pub open spec fn text_columns(s: Seq<char>) -> nat
    decreases s.len(),
{
    if s.len() == 0 {
        0
    } else {
        columns(s[0]) + text_columns(s.drop_first())
    }
}

/// The longest start of `s` that fits in `budget` columns, character by
/// character.
pub open spec fn fitting_prefix(s: Seq<char>, budget: int) -> Seq<char>
    decreases s.len(),
{
    if s.len() == 0 || columns(s[0]) > budget {
        Seq::empty()
    } else {
        seq![s[0]] + fitting_prefix(s.drop_first(), budget - columns(s[0]))
    }
}

/// Whether writing `text` padded with `padding` to `width` columns comes to
/// an end: the text does not fit, or the padding takes room.
pub open spec fn padding_ends(text: Seq<char>, padding: char, width: nat) -> bool {
    fitting_prefix(text, width as int).len() < text.len() || columns(padding) > 0
}

/// What [PrintPadded] writes: the characters of `text` while they fit in
/// `width` columns, then, where all of it fits, as many `padding`
/// characters as fit in the columns left.
pub open spec fn padded(text: Seq<char>, padding: char, width: nat) -> Seq<char> {
    let p = fitting_prefix(text, width as int);
    if p.len() < text.len() {
        p
    } else {
        p + Seq::new(((width - text_columns(text)) as nat / columns(padding)) as nat, |_i: int| padding)
    }
}

/// Text padded with a character up to a number of terminal columns, and cut
/// where it does not fit.
pub struct PrintPadded<T: AsChars> {
    pub text: T,
    pub padding: char,
    pub width: usize,
}

/// Why writing stopped.
#[derive(Debug)]
pub enum TryFoldError {
    /// The next character did not fit.
    Break,
    /// The writer failed.
    Fmt(std::fmt::Error),
}

#[verifier::external_type_specification]
#[verifier::external_body]
pub struct ExFmtError(std::fmt::Error);

impl TryFoldError {
    /// As the outcome of writing: running out of room is success.
    pub fn into_result(self) -> (r: Result<(), std::fmt::Error>)
        ensures
            match self {
                TryFoldError::Break => r is Ok,
                TryFoldError::Fmt(e) => r == Err::<(), std::fmt::Error>(e),
            },
    {
        match self {
            TryFoldError::Break => Ok(()),
            TryFoldError::Fmt(e) => Err(e),
        }
    }
}

proof fn lemma_fitting_prefix_len(s: Seq<char>, budget: int)
    requires
        budget >= 0,
    ensures
        fitting_prefix(s, budget).len() <= s.len(),
        fitting_prefix(s, budget).len() == s.len() ==> text_columns(s) <= budget,
        fitting_prefix(s, budget) =~= s.take(fitting_prefix(s, budget).len() as int),
    decreases s.len(),
{
    if s.len() > 0 && columns(s[0]) <= budget {
        lemma_fitting_prefix_len(s.drop_first(), budget - columns(s[0]));
        let k = fitting_prefix(s.drop_first(), budget - columns(s[0])).len();
        assert(seq![s[0]] + s.drop_first().take(k as int) =~= s.take((k + 1) as int));
    }
}

impl<T: AsChars> PrintPadded<T> {
    /// The characters to write (see [padded]).
    pub fn write_ansi(&self) -> (r: String)
        requires
            padding_ends(self.text.chars_view(), self.padding, self.width as nat),
        ensures
            r@ == padded(self.text.chars_view(), self.padding, self.width as nat),
    {
        let text = self.text.as_chars();
        let ghost t = text@;
        let mut out = String::new();
        let mut used: usize = 0;
        let mut i: usize = 0;
        proof {
            lemma_fitting_prefix_len(t, self.width as int);
            assert(t.skip(0) =~= t);
            assert(t.take(0) + fitting_prefix(t, self.width as int) =~= fitting_prefix(t, self.width as int));
            assert(t.take(0) =~= Seq::<char>::empty());
        }
        while i < text.len()
            invariant
                t == text@,
                t == self.text.chars_view(),
                i <= t.len(),
                used <= self.width,
                out@ == t.take(i as int),
                fitting_prefix(t, self.width as int) == t.take(i as int) + fitting_prefix(
                    t.skip(i as int),
                    self.width - used,
                ),
                used == text_columns(t.take(i as int)),
                padding_ends(t, self.padding, self.width as nat),
            decreases t.len() - i,
        {
            let c = text[i];
            let w = match char_width(c) {
                Some(n) => n,
                None => 0,
            };
            assert(t.skip(i as int)[0] == c);
            assert(t.skip(i as int).drop_first() =~= t.skip(i + 1));
            if w > self.width - used {
                assert(fitting_prefix(t.skip(i as int), self.width - used) =~= Seq::<char>::empty());
                assert(t.take(i as int) + Seq::<char>::empty() =~= t.take(i as int));
                return out;
            }
            push_char(&mut out, c);
            proof {
                assert(t.take(i + 1) =~= t.take(i as int).push(c));
                assert(t.take(i + 1) =~= t.take(i as int) + seq![c]);
                assert(t.take(i as int) + (seq![c] + fitting_prefix(t.skip(i + 1), self.width - used - w))
                    =~= t.take(i + 1) + fitting_prefix(t.skip(i + 1), self.width - used - w));
                lemma_text_columns_push(t.take(i as int), c);
            }
            used = used + w;
            i = i + 1;
        }
        assert(t.take(i as int) =~= t);
        assert(t.skip(i as int) =~= Seq::<char>::empty());
        assert(t + Seq::<char>::empty() =~= t);
        let pw = match char_width(self.padding) {
            Some(n) => n,
            None => 0,
        };
        assert(fitting_prefix(t, self.width as int) =~= t);
        let ghost start = out@;
        let ghost room: int = self.width - text_columns(t);
        let mut k: usize = 0;
        assert(start + Seq::new(0 as nat, |_i: int| self.padding) =~= start);
        while pw <= self.width - used
            invariant
                pw == columns(self.padding),
                pw > 0,
                used <= self.width,
                room == self.width - text_columns(t),
                used == text_columns(t) + k * pw,
                out@ == start + Seq::new(k as nat, |_i: int| self.padding),
            decreases self.width - used,
        {
            push_char(&mut out, self.padding);
            assert(out@ =~= start + Seq::new((k + 1) as nat, |_i: int| self.padding));
            assert((k + 1) * pw == k * pw + pw) by (nonlinear_arith);
            assert(k + 1 <= (k + 1) * pw) by (nonlinear_arith)
                requires
                    pw > 0,
            ;
            used = used + pw;
            k = k + 1;
        }
        proof {
            assert(room / (pw as int) == k as int) by (nonlinear_arith)
                requires
                    k * pw <= room,
                    room - k * pw < pw,
                    pw > 0,
            ;
        }
        out
    }
}

/// Whether all of `t` fits in `width` columns.
fn fits_entirely(t: &Vec<char>, width: usize) -> (r: bool)
    ensures
        r == (fitting_prefix(t@, width as int).len() == t@.len()),
{
    let mut used: usize = 0;
    let mut i: usize = 0;
    proof {
        lemma_fitting_prefix_len(t@, width as int);
        assert(t@.skip(0) =~= t@);
    }
    while i < t.len()
        invariant
            i <= t@.len(),
            used <= width,
            fitting_prefix(t@, width as int).len() == i + fitting_prefix(t@.skip(i as int), width - used).len(),
        decreases t@.len() - i,
    {
        let w = match char_width(t[i]) {
            Some(n) => n,
            None => 0,
        };
        assert(t@.skip(i as int)[0] == t@[i as int]);
        assert(t@.skip(i as int).drop_first() =~= t@.skip(i + 1));
        if w > width - used {
            return false;
        }
        used = used + w;
        i = i + 1;
    }
    assert(t@.skip(i as int) =~= Seq::<char>::empty());
    true
}

impl<T: AsChars> PrintPadded<T> {
    /// The characters to write (see [padded]), or `None` where writing
    /// would not end: all of the text fits and the padding takes no room.
    pub fn try_write_ansi(&self) -> (r: Option<String>)
        ensures
            padding_ends(self.text.chars_view(), self.padding, self.width as nat) ==> (r matches Some(s)
                && s@ == padded(self.text.chars_view(), self.padding, self.width as nat)),
            !padding_ends(self.text.chars_view(), self.padding, self.width as nat) ==> r is None,
    {
        let pw = match char_width(self.padding) {
            Some(n) => n,
            None => 0,
        };
        if pw == 0 {
            let text = self.text.as_chars();
            proof {
                lemma_fitting_prefix_len(text@, self.width as int);
            }
            if fits_entirely(&text, self.width) {
                return None;
            }
        }
        Some(self.write_ansi())
    }
}

/// The columns of a concatenation add up.
proof fn lemma_text_columns_concat(a: Seq<char>, b: Seq<char>)
    ensures
        text_columns(a + b) == text_columns(a) + text_columns(b),
    decreases a.len(),
{
    if a.len() == 0 {
        assert(a + b =~= b);
    } else {
        assert((a + b).drop_first() =~= a.drop_first() + b);
        assert((a + b)[0] == a[0]);
        lemma_text_columns_concat(a.drop_first(), b);
    }
}

/// `k` copies of `c` take `k` times its columns.
proof fn lemma_text_columns_repeat(c: char, k: nat)
    ensures
        text_columns(Seq::new(k, |_i: int| c)) == k * columns(c),
    decreases k,
{
    if k > 0 {
        assert(Seq::new(k, |_i: int| c).drop_first() =~= Seq::new((k - 1) as nat, |_i: int| c));
        assert(Seq::new(k, |_i: int| c)[0] == c);
        lemma_text_columns_repeat(c, (k - 1) as nat);
        assert(k * columns(c) == (k - 1) * columns(c) + columns(c)) by (nonlinear_arith);
    } else {
        assert(k * columns(c) == 0) by (nonlinear_arith)
            requires
                k == 0,
        ;
        assert(Seq::new(k, |_i: int| c) =~= Seq::<char>::empty());
    }
}

/// What fits takes no more than the room it was given.
proof fn lemma_fitting_prefix_columns(s: Seq<char>, budget: int)
    requires
        budget >= 0,
    ensures
        text_columns(fitting_prefix(s, budget)) <= budget,
    decreases s.len(),
{
    if s.len() > 0 && columns(s[0]) <= budget {
        let rest = fitting_prefix(s.drop_first(), budget - columns(s[0]));
        lemma_fitting_prefix_columns(s.drop_first(), budget - columns(s[0]));
        assert((seq![s[0]] + rest).drop_first() =~= rest);
        assert((seq![s[0]] + rest)[0] == s[0]);
    }
}

/// Padded text never takes more columns than the width it is padded to;
/// where all of the text fits, the padding fills the width up to less than
/// one more padding character.
pub proof fn law_padded_width(text: Seq<char>, padding: char, width: nat)
    requires
        padding_ends(text, padding, width),
    ensures
        text_columns(padded(text, padding, width)) <= width,
        fitting_prefix(text, width as int).len() == text.len() ==> width - text_columns(padded(
            text,
            padding,
            width,
        )) < columns(padding),
{
    let p = fitting_prefix(text, width as int);
    lemma_fitting_prefix_len(text, width as int);
    lemma_fitting_prefix_columns(text, width as int);
    if p.len() == text.len() {
        assert(p =~= text);
        let pw = columns(padding);
        let k = ((width - text_columns(text)) as nat / pw) as nat;
        lemma_text_columns_concat(p, Seq::new(k, |_i: int| padding));
        lemma_text_columns_repeat(padding, k);
        let room = (width - text_columns(text)) as nat;
        assert(k * pw <= room && room - k * pw < pw) by (nonlinear_arith)
            requires
                pw > 0,
                k == room / pw,
        ;
    }
}

/// Adding a character adds its columns.
proof fn lemma_text_columns_push(s: Seq<char>, c: char)
    ensures
        text_columns(s.push(c)) == text_columns(s) + columns(c),
    decreases s.len(),
{
    reveal_with_fuel(text_columns, 2);
    if s.len() == 0 {
        assert(s.push(c).drop_first() =~= Seq::<char>::empty());
    } else {
        assert(s.push(c)[0] == s[0]);
        assert(s.push(c).drop_first() =~= s.drop_first().push(c));
        lemma_text_columns_push(s.drop_first(), c);
    }
}

} // verus!
