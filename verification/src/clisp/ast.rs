//! Expressions of the configuration language, parsed from its lexemes.

use vstd::prelude::*;
use crate::clisp::lexer::{Lexeme, LexemeModel, Literal, LiteralModel};
use crate::clisp::parser::{EofError, ParserError, ParserOutput};

verus! {

/// An expression: a literal, or the application of the first of a
/// non-empty list of expressions to the others.
#[derive(Debug)]
pub enum Expr<'a> {
    Apply(Vec<Expr<'a>>),
    Literal(&'a Literal<'a>),
}

/// The mathematical value of an [Expr].
pub enum ExprModel {
    Apply(Seq<ExprModel>),
    Literal(LiteralModel),
}

/// The mathematical value of `e`.
pub open spec fn expr_view(e: Expr) -> ExprModel
    decreases e,
{
    match e {
        Expr::Apply(v) => ExprModel::Apply(
            Seq::new(v@.len(), |i: int| if 0 <= i < v@.len() { expr_view(v@[i]) } else { ExprModel::Apply(Seq::empty()) }),
        ),
        Expr::Literal(l) => ExprModel::Literal(l@),
    }
}

/// The mathematical values of `v`.
pub open spec fn exprs_view(v: Seq<Expr>) -> Seq<ExprModel> {
    Seq::new(v.len(), |i: int| expr_view(v[i]))
}

/// The mathematical values of a list of lexemes.
pub open spec fn lexemes_model(s: Seq<Lexeme>) -> Seq<LexemeModel> {
    s.map_values(|l: Lexeme| l@)
}

/// `end` where it lies after `pos` and within `len`, `len` otherwise.
pub open spec fn clamp_end(len: int, pos: int, end: int) -> int {
    if pos < end && end <= len {
        end
    } else {
        len
    }
}

/// The expression that starts at `pos` of `s`, and where it ends.
///
/// A literal is an expression. So is `(`, optional whitespace, one or more
/// expressions separated by whitespace, optional whitespace and `)`.
pub open spec fn parse_expr_at(s: Seq<LexemeModel>, pos: int) -> Option<(ExprModel, int)>
    decreases s.len() - pos, 1int,
{
    if pos < 0 || pos >= s.len() {
        None
    } else {
        match s[pos] {
            LexemeModel::Literal(l) => Some((ExprModel::Literal(l), pos + 1)),
            LexemeModel::LParen => {
                let start = if pos + 1 < s.len() && s[pos + 1] == LexemeModel::Whitespace {
                    pos + 2
                } else {
                    pos + 1
                };
                match parse_expr_at(s, start) {
                    None => None,
                    Some((first, end)) => {
                        let (rest, end2) = parse_tail_at(s, clamp_end(s.len() as int, pos, end));
                        let e = clamp_end(s.len() as int, pos, end2);
                        let close = if e < s.len() && s[e] == LexemeModel::Whitespace {
                            e + 1
                        } else {
                            e
                        };
                        if close < s.len() && s[close] == LexemeModel::RParen {
                            Some((ExprModel::Apply(seq![first] + rest), close + 1))
                        } else {
                            None
                        }
                    },
                }
            },
            _ => None,
        }
    }
}

/// The expressions, each after whitespace, that follow one another from
/// `pos` of `s`, and where the last one ends.
pub open spec fn parse_tail_at(s: Seq<LexemeModel>, pos: int) -> (Seq<ExprModel>, int)
    decreases s.len() - pos, 0int,
{
    if 0 <= pos < s.len() && s[pos] == LexemeModel::Whitespace {
        match parse_expr_at(s, pos + 1) {
            Some((e, end)) => {
                let (rest, end2) = parse_tail_at(s, clamp_end(s.len() as int, pos, end));
                (seq![e] + rest, end2)
            },
            None => (Seq::empty(), pos),
        }
    } else {
        (Seq::empty(), pos)
    }
}

/// Why no expression could be read.
pub enum ExprError<'a> {
    Eof(EofError),
    Delimiter(ParserError<&'a Lexeme<'a>>),
    Whitespace(ParserError<&'a Lexeme<'a>>),
    NonLiteral(&'a Lexeme<'a>),
}

/// Parser for one [Expr] at the start of a list of lexemes.
#[derive(Clone, Copy, Debug)]
pub struct ExprParser;

fn parse_at<'a>(lexemes: &'a [Lexeme<'a>], pos: usize) -> (r: Option<(Expr<'a>, usize)>)
    requires
        pos <= lexemes@.len(),
    ensures
        match parse_expr_at(lexemes_model(lexemes@), pos as int) {
            None => r is None,
            Some((e, end)) => r matches Some((x, end2)) && expr_view(x) == e && end2 == end,
        },
        r matches Some((_, end)) ==> pos < end <= lexemes@.len(),
    decreases lexemes@.len() - pos,
{
    let ghost s = lexemes_model(lexemes@);
    let len = lexemes.len();
    if pos >= len {
        return None;
    }
    assert(s[pos as int] == lexemes@[pos as int]@);
    match &lexemes[pos] {
        Lexeme::Literal(l) => Some((Expr::Literal(l), pos + 1)),
        Lexeme::LParen => {
            proof {
                if pos + 1 < len {
                    assert(s[pos + 1] == lexemes@[pos + 1]@);
                }
            }
            let start = if pos + 1 < len && matches!(lexemes[pos + 1], Lexeme::Whitespace) {
                pos + 2
            } else {
                pos + 1
            };
            let (first, end) = match parse_at(lexemes, start) {
                None => {
                    return None;
                },
                Some(p) => p,
            };
            let ghost fv = expr_view(first);
            let mut items: Vec<Expr<'a>> = Vec::new();
            items.push(first);
            let mut cur = end;
            proof {
                assert(exprs_view(items@).drop_first() =~= Seq::<ExprModel>::empty());
            }
            loop
                invariant_except_break
                    s == lexemes_model(lexemes@),
                    len == lexemes@.len(),
                    pos < end <= len,
                    pos < cur <= len,
                    items@.len() >= 1,
                    expr_view(items@[0]) == fv,
                    parse_expr_at(s, start as int) == Some((fv, end as int)),
                    parse_tail_at(s, end as int) == (
                        exprs_view(items@).drop_first() + parse_tail_at(s, cur as int).0,
                        parse_tail_at(s, cur as int).1,
                    ),
                ensures
                    s == lexemes_model(lexemes@),
                    len == lexemes@.len(),
                    pos < cur <= len,
                    items@.len() >= 1,
                    expr_view(items@[0]) == fv,
                    parse_expr_at(s, start as int) == Some((fv, end as int)),
                    parse_tail_at(s, end as int) == (exprs_view(items@).drop_first(), cur as int),
                decreases len - cur,
            {
                proof {
                    if cur < len {
                        assert(s[cur as int] == lexemes@[cur as int]@);
                    }
                }
                if cur < len && matches!(lexemes[cur], Lexeme::Whitespace) {
                    match parse_at(lexemes, cur + 1) {
                        Some((e, next)) => {
                            let ghost before = items@;
                            items.push(e);
                            proof {
                                assert(exprs_view(items@).drop_first() =~= exprs_view(before).drop_first()
                                    + seq![expr_view(e)]);
                            }
                            cur = next;
                        },
                        None => {
                            break;
                        },
                    }
                } else {
                    break;
                }
            }
            proof {
                if cur < len {
                    assert(s[cur as int] == lexemes@[cur as int]@);
                }
                if cur + 1 < len {
                    assert(s[cur + 1] == lexemes@[cur + 1]@);
                }
                assert(clamp_end(len as int, pos as int, end as int) == end);
                assert(clamp_end(len as int, pos as int, cur as int) == cur);
            }
            let close = if cur < len && matches!(lexemes[cur], Lexeme::Whitespace) {
                cur + 1
            } else {
                cur
            };
            if close < len && matches!(lexemes[close], Lexeme::RParen) {
                let ghost iv = items@;
                let r = Expr::Apply(items);
                proof {
                    assert(exprs_view(iv) =~= seq![exprs_view(iv)[0]] + exprs_view(iv).drop_first());
                    assert(expr_view(r)->Apply_0 =~= exprs_view(iv));
                }
                Some((r, close + 1))
            } else {
                None
            }
        },
        _ => None,
    }
}

impl ExprParser {
    /// The expression at the start of `input`. Without one, the error is
    /// [EofError] for empty input, otherwise the first lexeme.
    pub fn parse<'a>(&self, input: &'a [Lexeme<'a>]) -> (r: Result<ParserOutput<&'a [Lexeme<'a>], Expr<'a>>, ExprError<'a>>)
        ensures
            match parse_expr_at(lexemes_model(input@), 0) {
                Some((e, end)) => r matches Ok(o) && expr_view(o.output) == e && o.next@ == input@.skip(end),
                None => if input@.len() == 0 {
                    r matches Err(ExprError::Eof(_))
                } else {
                    r matches Err(ExprError::NonLiteral(l)) && *l == input@[0]
                },
            },
    {
        match parse_at(input, 0) {
            Some((e, end)) => {
                let next = input.split_at(end).1;
                Ok(ParserOutput { next, output: e })
            },
            None => if input.len() == 0 {
                Err(ExprError::Eof(EofError))
            } else {
                Err(ExprError::NonLiteral(&input[0]))
            },
        }
    }
}

} // verus!
