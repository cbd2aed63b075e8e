//! Expressions of the second dialect, parsed from lexemes.

use vstd::prelude::*;
use crate::clisp::lexer::{Lexeme, LexemeModel, Literal, LiteralModel};
use crate::clisp::ast::{clamp_end, lexemes_model};
use crate::clisp::parser::ParserOutput;

verus! {

/// An expression: a literal, or a list of expressions, possibly empty.
#[derive(Debug)]
pub enum Expr<'a> {
    List(Vec<Expr<'a>>),
    Literal(&'a Literal<'a>),
}

/// The mathematical value of an [Expr].
pub enum ExprModel {
    List(Seq<ExprModel>),
    Literal(LiteralModel),
}

/// The mathematical value of `e`.
pub open spec fn expr_view(e: Expr) -> ExprModel
    decreases e,
{
    match e {
        Expr::List(v) => ExprModel::List(
            Seq::new(v@.len(), |i: int| if 0 <= i < v@.len() { expr_view(v@[i]) } else { ExprModel::List(Seq::empty()) }),
        ),
        Expr::Literal(l) => ExprModel::Literal(l@),
    }
}

/// The mathematical values of `v`.
pub open spec fn exprs_view(v: Seq<Expr>) -> Seq<ExprModel> {
    Seq::new(v.len(), |i: int| expr_view(v[i]))
}

/// The kind of an expression.
#[derive(Clone, Copy, Debug, PartialEq, Eq, Structural)]
pub enum ExprTy {
    List,
    Literal,
    /// A value handed in directly rather than parsed.
    Value,
}

impl ExprTy {
    /// The kind of `expr`.
    pub fn from(expr: &Expr) -> (r: ExprTy)
        ensures
            r == (match *expr {
                Expr::List(_) => ExprTy::List,
                Expr::Literal(_) => ExprTy::Literal,
            }),
    {
        match expr {
            Expr::List(_) => ExprTy::List,
            Expr::Literal(_) => ExprTy::Literal,
        }
    }

    /// The name of the kind.
    pub fn name(&self) -> (r: &'static str)
        ensures
            r@ == (match *self {
                ExprTy::List => "list"@,
                ExprTy::Literal => "literal"@,
                ExprTy::Value => "value"@,
            }),
    {
        match self {
            ExprTy::List => "list",
            ExprTy::Literal => "literal",
            ExprTy::Value => "value",
        }
    }
}

/// `pos`, or one past it where whitespace stands there.
pub open spec fn skip_space(s: Seq<LexemeModel>, pos: int) -> int {
    if 0 <= pos < s.len() && s[pos] == LexemeModel::Whitespace {
        pos + 1
    } else {
        pos
    }
}

/// The expression that starts at `pos` of `s`, after optional whitespace,
/// and where it ends.
///
/// A literal is an expression. So is `(`, optional whitespace, zero or
/// more expressions separated by whitespace, optional whitespace and `)`.
pub open spec fn parse_expr_at(s: Seq<LexemeModel>, pos: int) -> Option<(ExprModel, int)>
    decreases s.len() - pos, 1int,
{
    let p0 = skip_space(s, pos);
    if pos < 0 || p0 >= s.len() {
        None
    } else {
        match s[p0] {
            LexemeModel::Literal(l) => Some((ExprModel::Literal(l), p0 + 1)),
            LexemeModel::LParen => {
                let start = skip_space(s, p0 + 1);
                let (items, q) = match parse_expr_at(s, start) {
                    None => (Seq::<ExprModel>::empty(), start),
                    Some((first, end)) => {
                        let (rest, end2) = parse_tail_at(s, clamp_end(s.len() as int, pos, end));
                        (seq![first] + rest, clamp_end(s.len() as int, pos, end2))
                    },
                };
                let close = skip_space(s, q);
                if close < s.len() && s[close] == LexemeModel::RParen {
                    Some((ExprModel::List(items), close + 1))
                } else {
                    None
                }
            },
            _ => None,
        }
    }
}

/// The expressions, each after whitespace, that follow one another from
/// `pos` of `s`, and where the last one ends.
pub open spec fn parse_tail_at(s: Seq<LexemeModel>, pos: int) -> (Seq<ExprModel>, int)
    decreases s.len() - pos, 0int,
{
    if 0 <= pos < s.len() && s[pos] == LexemeModel::Whitespace {
        match parse_expr_at(s, pos + 1) {
            Some((e, end)) => {
                let (rest, end2) = parse_tail_at(s, clamp_end(s.len() as int, pos, end));
                (seq![e] + rest, end2)
            },
            None => (Seq::empty(), pos),
        }
    } else {
        (Seq::empty(), pos)
    }
}

fn is_space(lexemes: &[Lexeme], pos: usize) -> (r: bool)
    ensures
        r == (pos < lexemes@.len() && lexemes_model(lexemes@)[pos as int] == LexemeModel::Whitespace),
{
    if pos < lexemes.len() {
        assert(lexemes_model(lexemes@)[pos as int] == lexemes@[pos as int]@);
        matches!(lexemes[pos], Lexeme::Whitespace)
    } else {
        false
    }
}

fn parse_at<'a>(lexemes: &'a [Lexeme<'a>], pos: usize) -> (r: Option<(Expr<'a>, usize)>)
    requires
        pos <= lexemes@.len(),
    ensures
        match parse_expr_at(lexemes_model(lexemes@), pos as int) {
            None => r is None,
            Some((e, end)) => r matches Some((x, end2)) && expr_view(x) == e && end2 == end,
        },
        r matches Some((_, end)) ==> pos < end <= lexemes@.len(),
    decreases lexemes@.len() - pos,
{
    let ghost s = lexemes_model(lexemes@);
    let len = lexemes.len();
    let p0 = if is_space(lexemes, pos) {
        pos + 1
    } else {
        pos
    };
    if p0 >= len {
        return None;
    }
    assert(s[p0 as int] == lexemes@[p0 as int]@);
    match &lexemes[p0] {
        Lexeme::Literal(l) => Some((Expr::Literal(l), p0 + 1)),
        Lexeme::LParen => {
            let start = if is_space(lexemes, p0 + 1) {
                p0 + 2
            } else {
                p0 + 1
            };
            let mut items: Vec<Expr<'a>> = Vec::new();
            let mut cur = start;
            match parse_at(lexemes, start) {
                None => {
                    assert(exprs_view(items@) =~= Seq::<ExprModel>::empty());
                },
                Some((first, end)) => {
                    let ghost fv = expr_view(first);
                    items.push(first);
                    cur = end;
                    proof {
                        assert(exprs_view(items@).drop_first() =~= Seq::<ExprModel>::empty());
                    }
                    loop
                        invariant_except_break
                            s == lexemes_model(lexemes@),
                            len == lexemes@.len(),
                            pos < end <= len,
                            pos < cur <= len,
                            items@.len() >= 1,
                            expr_view(items@[0]) == fv,
                            parse_expr_at(s, start as int) == Some((fv, end as int)),
                            parse_tail_at(s, end as int) == (
                                exprs_view(items@).drop_first() + parse_tail_at(s, cur as int).0,
                                parse_tail_at(s, cur as int).1,
                            ),
                        ensures
                            s == lexemes_model(lexemes@),
                            len == lexemes@.len(),
                            pos < cur <= len,
                            items@.len() >= 1,
                            expr_view(items@[0]) == fv,
                            parse_expr_at(s, start as int) == Some((fv, end as int)),
                            parse_tail_at(s, end as int) == (exprs_view(items@).drop_first(), cur as int),
                        decreases len - cur,
                    {
                        if is_space(lexemes, cur) {
                            match parse_at(lexemes, cur + 1) {
                                Some((e, next)) => {
                                    let ghost before = items@;
                                    items.push(e);
                                    proof {
                                        assert(exprs_view(items@).drop_first() =~= exprs_view(before).drop_first()
                                            + seq![expr_view(e)]);
                                    }
                                    cur = next;
                                },
                                None => {
                                    break;
                                },
                            }
                        } else {
                            break;
                        }
                    }
                    proof {
                        assert(clamp_end(len as int, pos as int, end as int) == end);
                        assert(clamp_end(len as int, pos as int, cur as int) == cur);
                        assert(exprs_view(items@) =~= seq![fv] + exprs_view(items@).drop_first());
                    }
                },
            }
            let close = if is_space(lexemes, cur) {
                cur + 1
            } else {
                cur
            };
            proof {
                if close < len {
                    assert(s[close as int] == lexemes@[close as int]@);
                }
            }
            if close < len && matches!(lexemes[close], Lexeme::RParen) {
                let ghost iv = items@;
                let r = Expr::List(items);
                proof {
                    assert(expr_view(r)->List_0 =~= exprs_view(iv));
                }
                Some((r, close + 1))
            } else {
                None
            }
        },
        _ => None,
    }
}

/// Parser for one [Expr] at the start of a list of lexemes.
#[derive(Clone, Copy, Debug)]
pub struct ExprParser;

impl ExprParser {
    /// The expression at the start of `input` (see [parse_expr_at]), and
    /// the lexemes after it.
    pub fn parse<'a>(&self, input: &'a [Lexeme<'a>]) -> (r: Option<ParserOutput<&'a [Lexeme<'a>], Expr<'a>>>)
        ensures
            match parse_expr_at(lexemes_model(input@), 0) {
                Some((e, end)) => r matches Some(o) && expr_view(o.output) == e && o.next@ == input@.skip(end),
                None => r is None,
            },
    {
        match parse_at(input, 0) {
            Some((e, end)) => {
                let next = input.split_at(end).1;
                Some(ParserOutput { next, output: e })
            },
            None => None,
        }
    }
}

} // verus!
