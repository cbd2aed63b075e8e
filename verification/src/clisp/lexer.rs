//! The lexer of the configuration language: parentheses, whitespace and
//! comments, and literals (booleans, integers, identifiers and strings).

use crate::clisp::parser::ParserOutput;
use crate::text::{char_is_whitespace, char_len, is_white_space, push_char, skip_chars, slice_chars};
use std::borrow::Cow;
use std::marker::PhantomData;
use vstd::prelude::*;

verus! {

// ---------------------------------------------------------------------
// Character classes
// ---------------------------------------------------------------------
/// The value of `c` as a digit in any radix up to 36.
pub open spec fn digit_value(c: char) -> Option<nat> {
    if '0' <= c <= '9' {
        Some((c as nat - '0' as nat) as nat)
    } else if 'a' <= c <= 'z' {
        Some((c as nat - 'a' as nat + 10) as nat)
    } else if 'A' <= c <= 'Z' {
        Some((c as nat - 'A' as nat + 10) as nat)
    } else {
        None
    }
}

/// `c` is a digit in `radix`, as [char::is_digit] decides.
pub open spec fn is_digit_radix(c: char, radix: nat) -> bool {
    digit_value(c) matches Some(d) && d < radix
}

/// The value of the digits `s` in `radix`, most significant first.
pub open spec fn digits_value(s: Seq<char>, radix: nat) -> nat
    decreases s.len(),
{
    if s.len() == 0 {
        0
    } else {
        digits_value(s.drop_last(), radix) * radix + match digit_value(s.last()) {
            Some(d) => d,
            None => 0,
        }
    }
}

/// The digit `c` in `radix`, as [char::to_digit] gives it.
pub fn char_to_digit(c: char, radix: u32) -> (r: Option<u32>)
    requires
        radix <= 36,
    ensures
        match r {
            Some(d) => is_digit_radix(c, radix as nat) && digit_value(c) == Some(d as nat),
            None => !is_digit_radix(c, radix as nat),
        },
{
    let d: u32 = if '0' <= c && c <= '9' {
        (c as u32) - ('0' as u32)
    } else if 'a' <= c && c <= 'z' {
        (c as u32) - ('a' as u32) + 10
    } else if 'A' <= c && c <= 'Z' {
        (c as u32) - ('A' as u32) + 10
    } else {
        return None;
    };
    if d < radix {
        Some(d)
    } else {
        None
    }
}

/// Whether `c`, outside ASCII, has the Unicode `XID_Start` property, as
/// the `unicode-ident` tables give it.
pub uninterp spec fn xid_start(c: char) -> bool;

/// Whether `c`, outside ASCII, has the Unicode `XID_Continue` property, as
/// the `unicode-ident` tables give it.
pub uninterp spec fn xid_continue(c: char) -> bool;

/// Whether `c` is an ASCII letter.
pub open spec fn ascii_letter(c: char) -> bool {
    ('A' <= c && c <= 'Z') || ('a' <= c && c <= 'z')
}

/// Whether `c` may start an identifier by the Unicode `XID_Start`
/// property: in ASCII, the letters.
pub open spec fn xid_start_of(c: char) -> bool {
    if (c as u32) < 128 {
        ascii_letter(c)
    } else {
        xid_start(c)
    }
}

/// Whether `c` may go on an identifier by the Unicode `XID_Continue`
/// property: in ASCII, the letters, the digits and `_`.
pub open spec fn xid_continue_of(c: char) -> bool {
    if (c as u32) < 128 {
        ascii_letter(c) || ('0' <= c && c <= '9') || c == '_'
    } else {
        xid_continue(c)
    }
}

/// [unicode_ident::is_xid_start]: whether `c` has the Unicode `XID_Start`
/// property. ASCII is answered from a fixed bit set (the letters); the rest
/// is a table lookup, named here rather than stated.
#[verifier::external_body]
fn is_xid_start(c: char) -> (b: bool)
    ensures
        b == xid_start_of(c),
        (c as u32) >= 128 ==> b == xid_start(c),
{
    unicode_ident::is_xid_start(c)
}

/// [unicode_ident::is_xid_continue]: whether `c` has the Unicode
/// `XID_Continue` property. ASCII is answered from a fixed bit set (the
/// letters, the digits and `_`); the rest is a table lookup, named here
/// rather than stated.
#[verifier::external_body]
fn is_xid_continue(c: char) -> (b: bool)
    ensures
        b == xid_continue_of(c),
        (c as u32) >= 128 ==> b == xid_continue(c),
{
    unicode_ident::is_xid_continue(c)
}

/// Characters that may appear in identifiers besides letters and digits.
pub open spec fn special_char(c: char) -> bool {
    c == '-' || c == '+' || c == '*' || c == '/' || c == '%' || c == '!'
}

fn is_special_char(c: char) -> (b: bool)
    ensures
        b == special_char(c),
{
    c == '-' || c == '+' || c == '*' || c == '/' || c == '%' || c == '!'
}

pub open spec fn ident_start(c: char) -> bool {
    xid_start_of(c) || special_char(c)
}

pub open spec fn ident_continue(c: char) -> bool {
    xid_continue_of(c) || special_char(c)
}

/// The length of the longest prefix of `s` whose characters satisfy `p`.
pub open spec fn longest_prefix(s: Seq<char>, p: spec_fn(char) -> bool) -> nat
    decreases s.len(),
{
    if s.len() > 0 && p(s[0]) {
        1 + longest_prefix(s.drop_first(), p)
    } else {
        0
    }
}

/// `n` is where the longest prefix of `s` satisfying `p` ends.
pub open spec fn ends_prefix(s: Seq<char>, p: spec_fn(char) -> bool, n: int) -> bool {
    &&& 0 <= n <= s.len()
    &&& forall|j: int| 0 <= j < n ==> p(s[j])
    &&& n < s.len() ==> !p(s[n])
}

pub proof fn lemma_longest_prefix(s: Seq<char>, p: spec_fn(char) -> bool, n: int)
    requires
        ends_prefix(s, p, n),
    ensures
        longest_prefix(s, p) == n,
    decreases s.len(),
{
    if s.len() > 0 && p(s[0]) {
        assert(n > 0);
        assert(ends_prefix(s.drop_first(), p, n - 1));
        lemma_longest_prefix(s.drop_first(), p, n - 1);
    }
}

// ---------------------------------------------------------------------
// The grammar
// ---------------------------------------------------------------------
/// The escape sequence at the start of `s`: its length and the character
/// it stands for.
pub open spec fn escape_parse(s: Seq<char>) -> Option<(nat, char)> {
    if s.len() >= 2 && s[0] == '\\' {
        if s[1] == '0' {
            Some((2, '\0'))
        } else if s[1] == 'n' {
            Some((2, '\n'))
        } else if s[1] == 'r' {
            Some((2, '\r'))
        } else if s[1] == 't' {
            Some((2, '\t'))
        } else if s[1] == '\'' {
            Some((2, '\''))
        } else if s[1] == '"' {
            Some((2, '"'))
        } else if s[1] == '\\' {
            Some((2, '\\'))
        } else if s[1] == 'u' && s.len() >= 3 && s[2] == '{' {
            let body = s.skip(3);
            let k = longest_prefix(body, |c: char| is_digit_radix(c, 16));
            let v = digits_value(body.take(k as int), 16);
            if k > 0 && s.len() > 3 + k && s[3 + k as int] == '}' && v <= u32::MAX && is_char_value(v) {
                Some(((4 + k) as nat, v as u32 as char))
            } else {
                None
            }
        } else {
            None
        }
    } else {
        None
    }
}

/// `v` is the value of a `char`: at most `0x10FFFF` and not a surrogate.
pub open spec fn is_char_value(v: nat) -> bool {
    v <= 0x10FFFF && !(0xD800 <= v <= 0xDFFF)
}

/// The body of a string literal at the start of `s`: the number of
/// characters it spans, the characters it stands for, and whether it holds
/// an escape sequence.
pub open spec fn string_body(s: Seq<char>) -> (nat, Seq<char>, bool)
    decreases s.len(),
{
    if s.len() == 0 {
        (0, Seq::empty(), false)
    } else if s[0] != '"' && s[0] != '\\' {
        let (n, c, e) = string_body(s.drop_first());
        ((n + 1) as nat, seq![s[0]] + c, e)
    } else if s[0] == '\\' {
        match escape_parse(s) {
            Some((k, ch)) => {
                let (n, c, e) = string_body(s.skip(k as int));
                ((n + k) as nat, seq![ch] + c, true)
            },
            None => (0, Seq::empty(), false),
        }
    } else {
        (0, Seq::empty(), false)
    }
}

/// A string literal at the start of `s`: what follows it, its characters
/// and whether it holds an escape sequence.
pub open spec fn string_parse(s: Seq<char>) -> Option<(Seq<char>, Seq<char>, bool)> {
    if s.len() > 0 && s[0] == '"' {
        let (n, c, e) = string_body(s.drop_first());
        if s.len() > 1 + n && s[1 + n as int] == '"' {
            Some((s.skip(n as int + 2), c, e))
        } else {
            None
        }
    } else {
        None
    }
}

/// The letter that stands for `c` after a `\` in a string literal, for the
/// characters written that way: `"`, `\` and `'` stand for themselves, `n`
/// for a newline, `r` for a carriage return, `t` for a tab and `0` for the
/// null character.
pub open spec fn escape_letter(c: char) -> Option<char> {
    if c == '"' || c == '\\' || c == '\'' {
        Some(c)
    } else if c == '\n' {
        Some('n')
    } else if c == '\r' {
        Some('r')
    } else if c == '\t' {
        Some('t')
    } else if c == '\0' {
        Some('0')
    } else {
        None
    }
}

/// `t` written as the inside of a string literal: each character that has
/// an escape letter written as `\` and that letter, every other character
/// as it is.
pub open spec fn quoted_body(t: Seq<char>) -> Seq<char>
    decreases t.len(),
{
    if t.len() == 0 {
        Seq::empty()
    } else {
        match escape_letter(t[0]) {
            Some(l) => seq!['\\', l] + quoted_body(t.drop_first()),
            None => seq![t[0]] + quoted_body(t.drop_first()),
        }
    }
}

proof fn lemma_quoted_body(t: Seq<char>, rest: Seq<char>)
    ensures
        string_body(quoted_body(t) + seq!['"'] + rest).0 == quoted_body(t).len(),
        string_body(quoted_body(t) + seq!['"'] + rest).1 == t,
    decreases t.len(),
{
    let s = quoted_body(t) + seq!['"'] + rest;
    if t.len() == 0 {
        assert(s[0] == '"');
        assert(t =~= Seq::<char>::empty());
    } else {
        let t1 = t.drop_first();
        let tail = quoted_body(t1) + seq!['"'] + rest;
        lemma_quoted_body(t1, rest);
        if let Some(l) = escape_letter(t[0]) {
            assert(s =~= seq!['\\', l] + tail);
            assert(s.skip(2) =~= tail);
            assert(escape_parse(s) == Some((2nat, t[0])));
            assert(seq![t[0]] + t1 =~= t);
        } else {
            assert(s =~= seq![t[0]] + tail);
            assert(s.drop_first() =~= tail);
            assert(seq![t[0]] + t1 =~= t);
        }
    }
}

/// A text written as a string literal reads back as that text: the
/// characters of the literal are exactly `t`, and what follows the closing
/// quote is left as it was.
pub proof fn law_string_literal_round_trip(t: Seq<char>, rest: Seq<char>)
    ensures
        string_parse(seq!['"'] + quoted_body(t) + seq!['"'] + rest) matches Some((r, c, _)) && r == rest && c == t,
{
    let s = seq!['"'] + quoted_body(t) + seq!['"'] + rest;
    lemma_quoted_body(t, rest);
    assert(s.drop_first() =~= quoted_body(t) + seq!['"'] + rest);
    let n = quoted_body(t).len();
    assert(s[1 + n as int] == '"');
    assert(s.skip(n as int + 2) =~= rest);
}

/// The whitespace character or comment at the start of `s` and its length.
/// A comment runs from `;` up to and including the next newline.
pub open spec fn whitespace_item(s: Seq<char>) -> Option<nat> {
    if s.len() > 0 && is_white_space(s[0]) {
        Some(1)
    } else if s.len() > 0 && s[0] == ';' {
        match crate::text::first_index(s, '\n') {
            Some(j) => Some((j + 1) as nat),
            None => None,
        }
    } else {
        None
    }
}

/// The length of the run of whitespace and comments at the start of `s`.
pub open spec fn whitespace_len(s: Seq<char>) -> nat
    decreases s.len(),
{
    match whitespace_item(s) {
        Some(k) => if 0 < k <= s.len() {
            k + whitespace_len(s.skip(k as int))
        } else {
            0
        },
        None => 0,
    }
}

/// The length of the identifier at the start of `s`, if any.
pub open spec fn ident_len(s: Seq<char>) -> Option<nat> {
    if s.len() > 0 && ident_start(s[0]) {
        Some(1 + longest_prefix(s.drop_first(), |c: char| ident_continue(c)))
    } else {
        None
    }
}

/// The integer at the start of `s` in `radix`: the length of its digits
/// and their value.
pub open spec fn int_digits(s: Seq<char>, radix: nat) -> (nat, nat) {
    let n = longest_prefix(s, |c: char| is_digit_radix(c, radix));
    (n, digits_value(s.take(n as int), radix))
}

/// The mathematical value of a [Literal].
pub enum LiteralModel {
    Bool(bool),
    Ident(Seq<char>),
    Int(i32),
    String(Seq<char>),
}

/// The mathematical value of a [Lexeme].
pub enum LexemeModel {
    LParen,
    RParen,
    Whitespace,
    Literal(LiteralModel),
}

/// The literal at the start of `s` and what follows it. The alternatives
/// are tried in order: `#t`/`#f`, a decimal integer that fits in `i32`, an
/// identifier, a string.
pub open spec fn literal_parse(s: Seq<char>) -> Option<(Seq<char>, LiteralModel)> {
    if s.len() >= 2 && s[0] == '#' && (s[1] == 't' || s[1] == 'f') {
        Some((s.skip(2), LiteralModel::Bool(s[1] == 't')))
    } else if int_digits(s, 10).0 > 0 && int_digits(s, 10).1 <= i32::MAX {
        Some((s.skip(int_digits(s, 10).0 as int), LiteralModel::Int(int_digits(s, 10).1 as i32)))
    } else if ident_len(s) is Some {
        Some(
            (
                s.skip(ident_len(s)->0 as int),
                LiteralModel::Ident(s.take(ident_len(s)->0 as int)),
            ),
        )
    } else {
        match string_parse(s) {
            Some((rest, c, _)) => Some((rest, LiteralModel::String(c))),
            None => None,
        }
    }
}

/// The lexeme at the start of `s` and what follows it.
pub open spec fn lexeme_parse(s: Seq<char>) -> Option<(Seq<char>, LexemeModel)> {
    if s.len() > 0 && s[0] == '(' {
        Some((s.drop_first(), LexemeModel::LParen))
    } else if s.len() > 0 && s[0] == ')' {
        Some((s.drop_first(), LexemeModel::RParen))
    } else if whitespace_len(s) > 0 {
        Some((s.skip(whitespace_len(s) as int), LexemeModel::Whitespace))
    } else {
        match literal_parse(s) {
            Some((rest, l)) => Some((rest, LexemeModel::Literal(l))),
            None => None,
        }
    }
}

// ---------------------------------------------------------------------
// Numbers
// ---------------------------------------------------------------------
#[verifier::external_type_specification]
#[verifier::external_body]
pub struct ExParseIntError(std::num::ParseIntError);

/// Integer types that can be read from digits.
pub trait FromStrRadix: Sized {
    /// The number whose value is `v`, if the type can hold it.
    spec fn from_value(v: nat) -> Option<Self>;

    /// Read the digits `s` in `radix`.
    fn from_str_radix(s: &str, radix: u32) -> (r: Result<Self, std::num::ParseIntError>)
        requires
            2 <= radix <= 36,
            s@.len() > 0,
            forall|i: int| 0 <= i < s@.len() ==> is_digit_radix(#[trigger] s@[i], radix as nat),
        ensures
            match r {
                Ok(n) => Self::from_value(digits_value(s@, radix as nat)) == Some(n),
                Err(_) => Self::from_value(digits_value(s@, radix as nat)) is None,
            },
    ;
}

/// [i32::from_str_radix]: on a non-empty run of digits in `radix` it
/// gives their value, or an error when the value exceeds [i32::MAX].
#[verifier::external_body]
fn i32_from_str_radix(s: &str, radix: u32) -> (r: Result<i32, std::num::ParseIntError>)
    requires
        2 <= radix <= 36,
        s@.len() > 0,
        forall|i: int| 0 <= i < s@.len() ==> is_digit_radix(#[trigger] s@[i], radix as nat),
    ensures
        match r {
            Ok(n) => digits_value(s@, radix as nat) <= i32::MAX && n as int == digits_value(s@, radix as nat),
            Err(_) => digits_value(s@, radix as nat) > i32::MAX,
        },
{
    i32::from_str_radix(s, radix)
}

impl FromStrRadix for i32 {
    open spec fn from_value(v: nat) -> Option<i32> {
        if v <= i32::MAX {
            Some(v as i32)
        } else {
            None
        }
    }

    fn from_str_radix(s: &str, radix: u32) -> (r: Result<i32, std::num::ParseIntError>) {
        i32_from_str_radix(s, radix)
    }
}

/// [u8::from_str_radix]: on a non-empty run of digits in `radix` it
/// gives their value, or an error when the value exceeds [u8::MAX].
#[verifier::external_body]
fn u8_from_str_radix(s: &str, radix: u32) -> (r: Result<u8, std::num::ParseIntError>)
    requires
        2 <= radix <= 36,
        s@.len() > 0,
        forall|i: int| 0 <= i < s@.len() ==> is_digit_radix(#[trigger] s@[i], radix as nat),
    ensures
        match r {
            Ok(n) => digits_value(s@, radix as nat) <= u8::MAX && n as int == digits_value(s@, radix as nat),
            Err(_) => digits_value(s@, radix as nat) > u8::MAX,
        },
{
    u8::from_str_radix(s, radix)
}

impl FromStrRadix for u8 {
    open spec fn from_value(v: nat) -> Option<u8> {
        if v <= u8::MAX {
            Some(v as u8)
        } else {
            None
        }
    }

    fn from_str_radix(s: &str, radix: u32) -> (r: Result<u8, std::num::ParseIntError>) {
        u8_from_str_radix(s, radix)
    }
}

/// [u32::from_str_radix]: on a non-empty run of digits in `radix` it
/// gives their value, or an error when the value exceeds [u32::MAX].
#[verifier::external_body]
fn u32_from_str_radix(s: &str, radix: u32) -> (r: Result<u32, std::num::ParseIntError>)
    requires
        2 <= radix <= 36,
        s@.len() > 0,
        forall|i: int| 0 <= i < s@.len() ==> is_digit_radix(#[trigger] s@[i], radix as nat),
    ensures
        match r {
            Ok(n) => digits_value(s@, radix as nat) <= u32::MAX && n as int == digits_value(s@, radix as nat),
            Err(_) => digits_value(s@, radix as nat) > u32::MAX,
        },
{
    u32::from_str_radix(s, radix)
}

impl FromStrRadix for u32 {
    open spec fn from_value(v: nat) -> Option<u32> {
        if v <= u32::MAX {
            Some(v as u32)
        } else {
            None
        }
    }

    fn from_str_radix(s: &str, radix: u32) -> (r: Result<u32, std::num::ParseIntError>) {
        u32_from_str_radix(s, radix)
    }
}

/// The number of leading characters of `s` that are digits in `radix`.
fn digit_prefix(s: &str, radix: u32) -> (n: usize)
    requires
        radix <= 36,
    ensures
        n == longest_prefix(s@, |c: char| is_digit_radix(c, radix as nat)),
        n <= s@.len(),
{
    let len = char_len(s);
    let mut i: usize = 0;
    while i < len && char_to_digit(s.get_char(i), radix).is_some()
        invariant
            len == s@.len(),
            i <= len,
            radix <= 36,
            forall|j: int| 0 <= j < i ==> is_digit_radix(s@[j], radix as nat),
        decreases len - i,
    {
        i = i + 1;
    }
    proof {
        lemma_longest_prefix(s@, |c: char| is_digit_radix(c, radix as nat), i as int);
    }
    i
}

/// Integer parser: the longest run of digits in `RADIX`, read as an `N`.
#[derive(Debug, Default)]
pub struct IntParser<const RADIX: u32, N> {
    _marker: PhantomData<N>,
}

impl<const RADIX: u32, N> Clone for IntParser<RADIX, N> {
    fn clone(&self) -> Self {
        IntParser { _marker: PhantomData }
    }
}

impl<const RADIX: u32, N: FromStrRadix> IntParser<RADIX, N> {
    pub fn new() -> Self {
        IntParser { _marker: PhantomData }
    }

    /// The number at the start of `input`: fails when there is no digit
    /// or the value does not fit in `N`.
    pub fn parse<'a>(&self, input: &'a str) -> (r: Option<ParserOutput<&'a str, N>>)
        requires
            2 <= RADIX <= 36,
        ensures
            ({
                let (n, v) = int_digits(input@, RADIX as nat);
                match r {
                    Some(po) => n > 0 && N::from_value(v) == Some(po.output) && po.next@
                        == input@.skip(n as int),
                    None => n == 0 || N::from_value(v) is None,
                }
            }),
    {
        let n = digit_prefix(input, RADIX);
        if n == 0 {
            return None;
        }
        let digits = slice_chars(input, 0, n);
        proof {
            assert(digits@ =~= input@.take(n as int));
            assert forall|i: int| 0 <= i < digits@.len() implies is_digit_radix(
                #[trigger] digits@[i],
                RADIX as nat,
            ) by {
                lemma_prefix_members(input@, |c: char| is_digit_radix(c, RADIX as nat), i);
            }
        }
        match N::from_str_radix(digits, RADIX) {
            Ok(v) => Some(ParserOutput::new(skip_chars(input, n), v)),
            Err(_) => None,
        }
    }
}

/// The characters of the longest prefix satisfy the predicate.
pub proof fn lemma_prefix_members(s: Seq<char>, p: spec_fn(char) -> bool, i: int)
    requires
        0 <= i < longest_prefix(s, p),
    ensures
        p(s[i]),
    decreases s.len(),
{
    lemma_prefix_end(s, p);
    if s.len() > 0 && p(s[0]) {
        if i > 0 {
            lemma_prefix_members(s.drop_first(), p, i - 1);
            assert(s.drop_first()[i - 1] == s[i]);
        }
    } else {
        assert(longest_prefix(s, p) == 0);
    }
}

/// The longest prefix ends at a character that does not satisfy the
/// predicate, or at the end.
pub proof fn lemma_prefix_end(s: Seq<char>, p: spec_fn(char) -> bool)
    ensures
        longest_prefix(s, p) <= s.len(),
        longest_prefix(s, p) < s.len() ==> !p(s[longest_prefix(s, p) as int]),
    decreases s.len(),
{
    if s.len() > 0 && p(s[0]) {
        lemma_prefix_end(s.drop_first(), p);
    }
}


// ---------------------------------------------------------------------
// Lexemes
// ---------------------------------------------------------------------
/// A literal of the configuration language.
#[derive(Debug, PartialEq)]
pub enum Literal<'a> {
    Bool(bool),
    Ident(&'a str),
    Int(i32),
    String(Cow<'a, str>),
}

impl<'a> Clone for Literal<'a> {
    fn clone(&self) -> (r: Self)
        ensures
            r@ == self@,
    {
        match self {
            Literal::Bool(b) => Literal::Bool(*b),
            Literal::Ident(s) => Literal::Ident(s),
            Literal::Int(i) => Literal::Int(*i),
            Literal::String(Cow::Borrowed(s)) => Literal::String(Cow::Borrowed(s)),
            Literal::String(Cow::Owned(s)) => Literal::String(Cow::Owned(s.clone())),
        }
    }
}

impl<'a> View for Literal<'a> {
    type V = LiteralModel;

    open spec fn view(&self) -> LiteralModel {
        match self {
            Literal::Bool(b) => LiteralModel::Bool(*b),
            Literal::Ident(s) => LiteralModel::Ident(s@),
            Literal::Int(i) => LiteralModel::Int(*i),
            Literal::String(s) => LiteralModel::String(s@),
        }
    }
}

/// A lexeme of the configuration language.
#[derive(Clone, Debug, PartialEq)]
pub enum Lexeme<'a> {
    LParen,
    RParen,
    Whitespace,
    Literal(Literal<'a>),
}

impl<'a> View for Lexeme<'a> {
    type V = LexemeModel;

    open spec fn view(&self) -> LexemeModel {
        match self {
            Lexeme::LParen => LexemeModel::LParen,
            Lexeme::RParen => LexemeModel::RParen,
            Lexeme::Whitespace => LexemeModel::Whitespace,
            Lexeme::Literal(l) => LexemeModel::Literal(l@),
        }
    }
}

/// The character whose value is `v`, as [char::from_u32] gives it: `None`
/// for surrogates and values above `0x10FFFF`.
#[verifier::external_body]
fn char_from_u32(v: u32) -> (r: Option<char>)
    ensures
        r is Some <==> is_char_value(v as nat),
        r matches Some(c) ==> c == v as char,
{
    char::from_u32(v)
}

/// Identifier parser: a character that starts identifiers followed by the
/// longest run of characters that continue them.
#[derive(Clone, Copy, Debug)]
pub struct IdentParser;

impl IdentParser {
    pub fn parse<'a>(&self, input: &'a str) -> (r: Option<ParserOutput<&'a str, &'a str>>)
        ensures
            match ident_len(input@) {
                Some(n) => r matches Some(po) && po.output@ == input@.take(n as int) && po.next@
                    == input@.skip(n as int),
                None => r is None,
            },
    {
        let n = char_len(input);
        if n == 0 {
            return None;
        }
        let c0 = input.get_char(0);
        if !(is_xid_start(c0) || is_special_char(c0)) {
            return None;
        }
        let mut i: usize = 1;
        while i < n && (is_xid_continue(input.get_char(i)) || is_special_char(input.get_char(i)))
            invariant
                n == input@.len(),
                1 <= i <= n,
                forall|j: int| 1 <= j < i ==> ident_continue(#[trigger] input@[j]),
            decreases n - i,
        {
            i = i + 1;
        }
        proof {
            let t = input@.drop_first();
            assert forall|j: int| 0 <= j < i - 1 implies ident_continue(#[trigger] t[j]) by {
                assert(t[j] == input@[j + 1]);
            }
            if i < n {
                assert(t[i - 1] == input@[i as int]);
            }
            lemma_longest_prefix(t, |c: char| ident_continue(c), i - 1);
        }
        let out = slice_chars(input, 0, i);
        let next = skip_chars(input, i);
        assert(out@ =~= input@.take(i as int));
        assert(next@ =~= input@.skip(i as int));
        Some(ParserOutput::new(next, out))
    }
}

/// Escape code parser: `\0`, `\n`, `\r`, `\t`, `\'`, `\"`, `\\` and
/// `\u{...}` with hexadecimal digits.
#[derive(Clone, Copy, Debug)]
pub struct EscapeCharacterParser;

impl EscapeCharacterParser {
    /// The escape sequence at the start of `s`: its length and character.
    fn escape_at(s: &str) -> (r: Option<(usize, char)>)
        ensures
            match escape_parse(s@) {
                Some((k, c)) => r matches Some((kk, cc)) && kk == k && cc == c && k <= s@.len(),
                None => r is None,
            },
    {
        let n = char_len(s);
        if n < 2 || s.get_char(0) != '\\' {
            return None;
        }
        let c = s.get_char(1);
        if c == '0' {
            Some((2, '\0'))
        } else if c == 'n' {
            Some((2, '\n'))
        } else if c == 'r' {
            Some((2, '\r'))
        } else if c == 't' {
            Some((2, '\t'))
        } else if c == '\'' {
            Some((2, '\''))
        } else if c == '"' {
            Some((2, '"'))
        } else if c == '\\' {
            Some((2, '\\'))
        } else if c == 'u' {
            if n < 3 || s.get_char(2) != '{' {
                return None;
            }
            let body = skip_chars(s, 3);
            proof {
                lemma_prefix_end(body@, |c: char| is_digit_radix(c, 16));
            }
            let parsed = IntParser::<16, u32>::new().parse(body);
            match parsed {
                None => None,
                Some(po) => {
                    let k = char_len(body) - char_len(po.next);
                    proof {
                        let (kk, v) = int_digits(body@, 16);
                        assert(k == kk);
                    }
                    if 3 + k < n && s.get_char(3 + k) == '}' {
                        proof {
                            assert(s@[3 + k as int] == body@[k as int]);
                        }
                        match char_from_u32(po.output) {
                            Some(ch) => Some((4 + k, ch)),
                            None => None,
                        }
                    } else {
                        None
                    }
                },
            }
        } else {
            None
        }
    }

    pub fn parse<'a>(&self, input: &'a str) -> (r: Option<ParserOutput<&'a str, char>>)
        ensures
            match escape_parse(input@) {
                Some((k, c)) => r matches Some(po) && po.output == c && po.next@ == input@.skip(
                    k as int,
                ),
                None => r is None,
            },
    {
        match Self::escape_at(input) {
            Some((k, c)) => Some(ParserOutput::new(skip_chars(input, k), c)),
            None => None,
        }
    }
}

/// String parser: characters and escape sequences between double quotes.
/// The output borrows the input when the string holds no escape sequence.
#[derive(Clone, Copy, Debug)]
pub struct StringParser;

impl StringParser {
    pub fn parse<'a>(&self, input: &'a str) -> (r: Option<ParserOutput<&'a str, Cow<'a, str>>>)
        ensures
            match string_parse(input@) {
                Some((rest, c, escaped)) => r matches Some(po) && po.next@ == rest && po.output@
                    == c && (po.output is Borrowed <==> !escaped),
                None => r is None,
            },
    {
        let n = char_len(input);
        if n == 0 || input.get_char(0) != '"' {
            return None;
        }
        let mut i: usize = 1;
        let mut content = String::new();
        let mut escaped = false;
        loop
            invariant
                n == input@.len(),
                1 <= i <= n,
                input@[0] == '"',
                ({
                    let (m, c, e) = string_body(input@.skip(i as int));
                    let (m0, c0, e0) = string_body(input@.drop_first());
                    &&& m0 == (i - 1) + m
                    &&& c0 == content@ + c
                    &&& e0 == (escaped || e)
                }),
                !escaped ==> content@ == input@.subrange(1, i as int),
            decreases n - i,
        {
            let ghost rest = input@.skip(i as int);
            if i == n {
                assert(rest.len() == 0);
                return None;
            }
            let c = input.get_char(i);
            if c == '"' {
                proof {
                    assert(rest[0] == '"');
                    assert(content@ + Seq::<char>::empty() == content@);
                    assert(input@.drop_first() =~= input@.skip(1));
                }
                let next = skip_chars(input, i + 1);
                assert(next@ =~= input@.skip(i as int + 1));
                if escaped {
                    return Some(ParserOutput::new(next, Cow::Owned(content)));
                } else {
                    let body = slice_chars(input, 1, i);
                    return Some(ParserOutput::new(next, Cow::Borrowed(body)));
                }
            } else if c == '\\' {
                let tail = skip_chars(input, i);
                assert(tail@ =~= rest);
                match EscapeCharacterParser::escape_at(tail) {
                    Some((k, ch)) => {
                        proof {
                            assert(rest.skip(k as int) =~= input@.skip(i + k));
                            assert(seq![ch] + string_body(rest.skip(k as int)).1 == seq![ch]
                                + string_body(input@.skip(i + k)).1);
                            assert(content@.push(ch) + string_body(input@.skip(i + k)).1
                                =~= content@ + (seq![ch] + string_body(input@.skip(i + k)).1));
                        }
                        push_char(&mut content, ch);
                        escaped = true;
                        i = i + k;
                    },
                    None => {
                        return None;
                    },
                }
            } else {
                proof {
                    assert(rest.drop_first() =~= input@.skip(i + 1));
                    assert(content@.push(c) + string_body(input@.skip(i + 1)).1 =~= content@ + (
                    seq![c] + string_body(input@.skip(i + 1)).1));
                    assert(input@.subrange(1, i + 1) =~= input@.subrange(1, i as int).push(c));
                }
                push_char(&mut content, c);
                i = i + 1;
            }
        }
    }
}

/// Parser for things like comments, tabs and whitespace: succeeds when at
/// least one whitespace character or comment is read.
#[derive(Clone, Copy, Debug)]
pub struct WhitespaceParser;

impl WhitespaceParser {
    pub fn parse<'a>(&self, input: &'a str) -> (r: Option<ParserOutput<&'a str, ()>>)
        ensures
            match r {
                Some(po) => whitespace_len(input@) > 0 && po.next@ == input@.skip(
                    whitespace_len(input@) as int,
                ),
                None => whitespace_len(input@) == 0,
            },
    {
        let n = char_len(input);
        let mut i: usize = 0;
        assert(input@.skip(0) =~= input@);
        loop
            invariant
                n == input@.len(),
                i <= n,
                whitespace_len(input@) == i + whitespace_len(input@.skip(i as int)),
            decreases n - i,
        {
            let ghost rest = input@.skip(i as int);
            if i == n {
                return Self::finish(input, i);
            }
            let c = input.get_char(i);
            if char_is_whitespace(c) {
                proof {
                    assert(whitespace_item(rest) == Some(1nat));
                    assert(rest.skip(1) =~= input@.skip(i + 1));
                }
                i = i + 1;
            } else if c == ';' {
                let tail = skip_chars(input, i);
                assert(tail@ =~= rest);
                match crate::text::find_char(tail, '\n') {
                    Some(j) => {
                        proof {
                            assert(rest.skip(j + 1) =~= input@.skip(i + j + 1));
                        }
                        i = i + j + 1;
                    },
                    None => {
                        return Self::finish(input, i);
                    },
                }
            } else {
                return Self::finish(input, i);
            }
        }
    }

    /// The result once the whitespace ends at `i`.
    fn finish<'a>(input: &'a str, i: usize) -> (r: Option<ParserOutput<&'a str, ()>>)
        requires
            i <= input@.len(),
            whitespace_len(input@.skip(i as int)) == 0,
            whitespace_len(input@) == i + whitespace_len(input@.skip(i as int)),
        ensures
            match r {
                Some(po) => whitespace_len(input@) > 0 && po.next@ == input@.skip(
                    whitespace_len(input@) as int,
                ),
                None => whitespace_len(input@) == 0,
            },
    {
        if i == 0 {
            None
        } else {
            Some(ParserOutput::new(skip_chars(input, i), ()))
        }
    }
}

/// Literal parser: `#t`/`#f`, a decimal `i32`, an identifier or a string,
/// tried in that order.
#[derive(Clone, Copy, Debug)]
pub struct LiteralParser;

impl LiteralParser {
    pub fn parse<'a>(&self, input: &'a str) -> (r: Option<ParserOutput<&'a str, Literal<'a>>>)
        ensures
            match literal_parse(input@) {
                Some((rest, l)) => r matches Some(po) && po.next@ == rest && po.output@ == l,
                None => r is None,
            },
    {
        let n = char_len(input);
        if n >= 2 && input.get_char(0) == '#' {
            let c1 = input.get_char(1);
            if c1 == 't' || c1 == 'f' {
                return Some(ParserOutput::new(skip_chars(input, 2), Literal::Bool(c1 == 't')));
            }
        }
        match IntParser::<10, i32>::new().parse(input) {
            Some(po) => {
                return Some(ParserOutput::new(po.next, Literal::Int(po.output)));
            },
            None => {},
        }
        match IdentParser.parse(input) {
            Some(po) => {
                return Some(ParserOutput::new(po.next, Literal::Ident(po.output)));
            },
            None => {},
        }
        match StringParser.parse(input) {
            Some(po) => Some(ParserOutput::new(po.next, Literal::String(po.output))),
            None => None,
        }
    }
}

/// Lexeme parser: `(`, `)`, whitespace and comments, or a literal.
#[derive(Clone, Copy, Debug)]
pub struct LexemeParser;

/// The lexemes of `s`, read one after the other until none can be read.
pub open spec fn lexemes_of(s: Seq<char>) -> Seq<LexemeModel>
    decreases s.len(),
{
    match lexeme_parse(s) {
        Some((rest, l)) => if rest.len() < s.len() {
            seq![l] + lexemes_of(rest)
        } else {
            Seq::empty()
        },
        None => Seq::empty(),
    }
}

/// The views of a sequence of lexemes.
pub open spec fn lexemes_view(v: Seq<Lexeme>) -> Seq<LexemeModel> {
    v.map_values(|l: Lexeme| l@)
}

impl LexemeParser {
    pub fn parse<'a>(&self, input: &'a str) -> (r: Option<ParserOutput<&'a str, Lexeme<'a>>>)
        ensures
            match lexeme_parse(input@) {
                Some((rest, l)) => r matches Some(po) && po.next@ == rest && po.output@ == l,
                None => r is None,
            },
    {
        if crate::text::starts_with_char(input, '(') {
            return Some(ParserOutput::new(skip_chars(input, 1), Lexeme::LParen));
        }
        if crate::text::starts_with_char(input, ')') {
            return Some(ParserOutput::new(skip_chars(input, 1), Lexeme::RParen));
        }
        match WhitespaceParser.parse(input) {
            Some(po) => {
                return Some(ParserOutput::new(po.next, Lexeme::Whitespace));
            },
            None => {},
        }
        match LiteralParser.parse(input) {
            Some(po) => Some(ParserOutput::new(po.next, Lexeme::Literal(po.output))),
            None => None,
        }
    }

    /// All the lexemes of `input`, read from the start until no lexeme can
    /// be read.
    pub fn lexemes<'a>(&self, input: &'a str) -> (r: Vec<Lexeme<'a>>)
        ensures
            lexemes_view(r@) == lexemes_of(input@),
    {
        let mut out: Vec<Lexeme<'a>> = Vec::new();
        let mut rest = input;
        loop
            invariant
                lexemes_of(input@) == lexemes_view(out@) + lexemes_of(rest@),
            decreases rest@.len(),
        {
            let len = char_len(rest);
            match self.parse(rest) {
                Some(po) => {
                    if char_len(po.next) < len {
                        let ghost old_out = out@;
                        let ghost l = po.output@;
                        out.push(po.output);
                        proof {
                            assert(lexemes_view(out@) =~= lexemes_view(old_out).push(l));
                            assert(lexemes_view(old_out) + lexemes_of(rest@) =~= lexemes_view(
                                old_out,
                            ).push(l) + lexemes_of(po.next@));
                        }
                        rest = po.next;
                    } else {
                        assert(lexemes_view(out@) + Seq::<LexemeModel>::empty() =~= lexemes_view(
                            out@,
                        ));
                        return out;
                    }
                },
                None => {
                    assert(lexemes_view(out@) + Seq::<LexemeModel>::empty() =~= lexemes_view(out@));
                    return out;
                },
            }
        }
    }
}

} // verus!
