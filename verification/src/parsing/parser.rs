//! The recursive-descent parser. It consumes a whitespace-filtered token
//! sequence with one token of lookahead and builds a precedence-correct,
//! left-associated expression tree, or a non-empty ordered list of
//! positioned syntax errors.
//!
//! The grammar, highest to lowest precedence:
//! ```text
//! expression -> equality
//! equality   -> comparison ( ("!="|"==") comparison )*
//! comparison -> term ( (">"|">="|"<"|"<=") term )*
//! term       -> factor ( ("-"|"+") factor )*
//! factor     -> unary ( ("/"|"*") unary )*
//! unary      -> ("!"|"-") unary | primary
//! primary    -> NUMBER | STRING | "true" | "false" | "nil" | "(" expression ")"
//! ```
//! Errors accumulate rather than abort: a failing sub-rule's list is passed
//! upward, and when input ends before a group's `)` the grouping rule
//! appends its own early-end and unclosed-parenthesis diagnostics to
//! whatever the inner expression produced. The exact behaviour of each rule
//! is given by the `sp_*` functions below.

use crate::error::{ParsingError, SpecParsingError};
use crate::lexing::lexer::is_digit_char;
use crate::lexing::token::{Token, TokenType};
use crate::parsing::expr::{BinaryOp, Expr, PositionedExpr, UnaryOp};
use crate::position::Position;
use vstd::prelude::*;
use vstd::string::StrSliceExecFns;
use vstd::string::StringExecFns;

verus! {

/// A parse outcome: a tree or an error list, plus where parsing stopped.
pub type ParsingResult = Result<PositionedExpr, Vec<ParsingError>>;

/// The numeric value of a run of decimal digits, most significant first.
pub open spec fn dec_val(s: Seq<char>) -> int
    decreases s.len(),
{
    if s.len() == 0 {
        0
    } else {
        dec_val(s.drop_last()) * 10 + (s.last() as u32 - 0x30)
    }
}

/// Whether every character of `s` is an ASCII digit.
pub open spec fn all_digits(s: Seq<char>) -> bool {
    forall|j: int| 0 <= j < s.len() ==> is_digit_char(s[j])
}

/// Whether `s` is a numeric lexeme denoting a value an `i64` can hold: all
/// digits, at least one, and no larger than `i64::MAX`.
pub open spec fn is_i64_lexeme(s: Seq<char>) -> bool {
    s.len() > 0 && all_digits(s) && dec_val(s) <= i64::MAX
}

/// Extending a digit run on the right never shrinks its value.
proof fn lemma_dec_val_prefix_monotone(s: Seq<char>, i: int, j: int)
    requires
        0 <= i <= j <= s.len(),
        0 <= dec_val(s.subrange(0, i)),
        forall|k: int| i <= k < j ==> is_digit_char(s[k]),
    ensures
        dec_val(s.subrange(0, i)) <= dec_val(s.subrange(0, j)),
        0 <= dec_val(s.subrange(0, j)),
    decreases j - i,
{
    if i < j {
        lemma_dec_val_prefix_monotone(s, i, j - 1);
        assert(s.subrange(0, j).drop_last() =~= s.subrange(0, j - 1));
        let v = dec_val(s.subrange(0, j - 1));
        assert(s.subrange(0, j).last() == s[j - 1]);
        assert(is_digit_char(s[j - 1]));
        assert(dec_val(s.subrange(0, j)) == v * 10 + (s[j - 1] as u32 - 0x30));
        assert(v * 10 == v + 9 * v);
    }
}

/// Parses a numeric lexeme as a 64-bit integer: exactly the lexemes
/// satisfying [`is_i64_lexeme`] succeed, and the value is [`dec_val`].
pub fn parse_i64(s: &str) -> (r: Option<i64>)
    ensures
        r == if is_i64_lexeme(s@) {
            Some(dec_val(s@) as i64)
        } else {
            None::<i64>
        },
{
    let n = s.unicode_len();
    if n == 0 {
        return None;
    }
    let mut i: usize = 0;
    let mut acc: i64 = 0;
    while i < n
        invariant
            0 < n == s@.len(),
            0 <= i <= n,
            forall|j: int| 0 <= j < i ==> is_digit_char(s@[j]),
            0 <= acc,
            acc == dec_val(s@.subrange(0, i as int)),
        decreases n - i,
    {
        let c = s.get_char(i);
        if !char_is_digit_local(c) {
            return None;
        }
        let d: i64 = (c as u32 as i64) - 0x30;
        let ghost pre = s@.subrange(0, i as int);
        proof {
            assert(s@.subrange(0, i + 1).drop_last() =~= pre);
            assert(acc * 10 == acc + 9 * acc);
        }
        if acc > (i64::MAX - d) / 10 {
            proof {
                let q = (i64::MAX - d) / 10;
                assert(q * 10 <= i64::MAX - d < q * 10 + 10);
                assert(acc * 10 + d > i64::MAX);
                assert(dec_val(s@.subrange(0, i + 1)) == acc * 10 + d);
                if is_i64_lexeme(s@) {
                    lemma_dec_val_prefix_monotone(s@, i + 1, s@.len() as int);
                    assert(s@.subrange(0, s@.len() as int) =~= s@);
                }
            }
            return None;
        }
        acc = acc * 10 + d;
        i = i + 1;
    }
    proof {
        assert(s@.subrange(0, n as int) =~= s@);
    }
    Some(acc)
}

/// The ASCII-digit test, shared with the scanner's character class.
fn char_is_digit_local(c: char) -> (r: bool)
    ensures
        r == is_digit_char(c),
{
    let u = c as u32;
    0x30 <= u && u <= 0x39
}

/// What one grammar rule did: the tree or error list it produced, and the
/// index of the next unconsumed token.
pub ghost struct SpecParsed {
    pub res: Result<PositionedExpr, Seq<SpecParsingError>>,
    pub next: int,
}

/// The image of an error list under the [`ParsingError`] view.
pub open spec fn errs_view(v: Seq<ParsingError>) -> Seq<SpecParsingError> {
    v.map_values(|e: ParsingError| e@)
}

/// Whether the executable outcome `r` denotes the specified outcome `s`.
pub open spec fn res_matches(r: ParsingResult, s: Result<PositionedExpr, Seq<SpecParsingError>>) -> bool {
    match (r, s) {
        (Ok(a), Ok(b)) => a == b,
        (Err(v), Err(w)) => errs_view(v@) == w,
        _ => false,
    }
}

/// The `primary` rule: a literal token becomes a leaf; `(` opens a group; a
/// numeric lexeme that no `i64` can hold, a token that cannot start an
/// expression, and an exhausted stream are errors.
pub open spec fn sp_primary(t: Seq<Token>, i: int, last: Position) -> SpecParsed
    decreases t.len() - i, 2int
        when 0 <= i <= t.len()
{
    if i >= t.len() {
        SpecParsed { res: Err(seq![SpecParsingError::EarlyEof { pos: last }]), next: i }
    } else {
        let tok = t[i];
        if tok.typ == TokenType::FALSE {
            SpecParsed {
                res: Ok(PositionedExpr { expr: Expr::F, start: tok.from_pos, end: tok.to_pos }),
                next: i + 1,
            }
        } else if tok.typ == TokenType::TRUE {
            SpecParsed {
                res: Ok(PositionedExpr { expr: Expr::T, start: tok.from_pos, end: tok.to_pos }),
                next: i + 1,
            }
        } else if tok.typ == TokenType::NIL {
            SpecParsed {
                res: Ok(PositionedExpr { expr: Expr::Nil, start: tok.from_pos, end: tok.to_pos }),
                next: i + 1,
            }
        } else if tok.typ == TokenType::NUMBER {
            if is_i64_lexeme(tok.lexeme@) {
                SpecParsed {
                    res: Ok(
                        PositionedExpr {
                            expr: Expr::Num(dec_val(tok.lexeme@) as i64),
                            start: tok.from_pos,
                            end: tok.to_pos,
                        },
                    ),
                    next: i + 1,
                }
            } else {
                SpecParsed {
                    res: Err(
                        seq![
                            SpecParsingError::IllegalToken {
                                start: tok.from_pos,
                                end: tok.to_pos,
                                expected: "integer literal"@,
                            },
                        ],
                    ),
                    next: i + 1,
                }
            }
        } else if tok.typ == TokenType::STRING {
            SpecParsed {
                res: Ok(
                    PositionedExpr {
                        expr: Expr::Str(tok.lexeme),
                        start: tok.from_pos,
                        end: tok.to_pos,
                    },
                ),
                next: i + 1,
            }
        } else if tok.typ == TokenType::LEFTPAREN {
            sp_handle_parens(t, i + 1, tok.from_pos, tok.to_pos)
        } else {
            SpecParsed {
                res: Err(
                    seq![
                        SpecParsingError::IllegalToken {
                            start: tok.from_pos,
                            end: tok.to_pos,
                            expected: "Primary token"@,
                        },
                    ],
                ),
                next: i + 1,
            }
        }
    }
}

/// The grouping rule, entered after `(` was consumed; `open_start` is where
/// that `(` begins and `last` where it ends. The token right after the inner
/// expression must be `)` and is consumed; any other token is consumed and
/// reported as illegal. When input ends before a `)` is found, an early-end
/// diagnostic and an unclosed-parenthesis diagnostic naming the opening
/// position are appended to whatever the inner expression produced.
pub open spec fn sp_handle_parens(t: Seq<Token>, i: int, open_start: Position, last: Position) -> SpecParsed
    decreases t.len() - i, 14int
        when 0 <= i <= t.len()
{
    let e = sp_expression(t, i, last);
    if 0 <= e.next < t.len() {
        let par = t[e.next];
        if par.typ == TokenType::RIGHTPAREN {
            SpecParsed { res: e.res, next: e.next + 1 }
        } else {
            match e.res {
                Ok(_) => SpecParsed {
                    res: Err(
                        seq![
                            SpecParsingError::IllegalToken {
                                start: par.from_pos,
                                end: par.to_pos,
                                expected: "closing parenthesis"@,
                            },
                        ],
                    ),
                    next: e.next + 1,
                },
                Err(_) => SpecParsed { res: e.res, next: e.next + 1 },
            }
        }
    } else {
        match e.res {
            Ok(pexpr) => SpecParsed {
                res: Err(
                    seq![
                        SpecParsingError::EarlyEof { pos: pexpr.end },
                        SpecParsingError::UnclosedParenthesis { open_paren_start: open_start },
                    ],
                ),
                next: e.next,
            },
            Err(v) => SpecParsed {
                res: Err(
                    v.push(SpecParsingError::EarlyEof { pos: last }).push(
                        SpecParsingError::UnclosedParenthesis { open_paren_start: open_start },
                    ),
                ),
                next: e.next,
            },
        }
    }
}

/// The `unary` rule: `!` and `-` apply right-associatively, else `primary`.
pub open spec fn sp_unary(t: Seq<Token>, i: int, last: Position) -> SpecParsed
    decreases t.len() - i, 3int
        when 0 <= i <= t.len()
{
    if i < t.len() && (t[i].typ == TokenType::BANG || t[i].typ == TokenType::MINUS) {
        let tok = t[i];
        let op = if tok.typ == TokenType::BANG {
            UnaryOp::Not
        } else {
            UnaryOp::UnaMinus
        };
        let r = sp_unary(t, i + 1, tok.to_pos);
        match r.res {
            Ok(pexpr) => SpecParsed {
                res: Ok(
                    PositionedExpr {
                        start: tok.from_pos,
                        end: pexpr.end,
                        expr: Expr::Unary { op, e1: Box::new(pexpr) },
                    },
                ),
                next: r.next,
            },
            Err(_) => r,
        }
    } else {
        sp_primary(t, i, last)
    }
}

/// Left-associated iteration of the `factor` level: as long as `/` or `*`
/// follows, parse another `unary` and fold it into `acc`.
pub open spec fn sp_factor_rest(t: Seq<Token>, i: int, acc: PositionedExpr) -> SpecParsed
    decreases t.len() - i, 4int
        when 0 <= i <= t.len()
{
    if i < t.len() && (t[i].typ == TokenType::SLASH || t[i].typ == TokenType::STAR) {
        let tok = t[i];
        let op = if tok.typ == TokenType::SLASH {
            BinaryOp::Div
        } else {
            BinaryOp::Times
        };
        let right = sp_unary(t, i + 1, tok.to_pos);
        match right.res {
            Ok(r) => {
                let combined = PositionedExpr {
                    start: acc.start,
                    end: r.end,
                    expr: Expr::Binary { e1: Box::new(acc), op, e2: Box::new(r) },
                };
                if i < right.next <= t.len() {
                    sp_factor_rest(t, right.next, combined)
                } else {
                    SpecParsed { res: Ok(combined), next: right.next }
                }
            },
            Err(_) => right,
        }
    } else {
        SpecParsed { res: Ok(acc), next: i }
    }
}

/// The `factor` rule: a `unary`, then [`sp_factor_rest`].
pub open spec fn sp_factor(t: Seq<Token>, i: int, last: Position) -> SpecParsed
    decreases t.len() - i, 5int
        when 0 <= i <= t.len()
{
    let first = sp_unary(t, i, last);
    match first.res {
        Ok(e) => {
            if i < first.next <= t.len() {
                sp_factor_rest(t, first.next, e)
            } else {
                SpecParsed { res: Ok(e), next: first.next }
            }
        },
        Err(_) => first,
    }
}

/// Left-associated iteration of the `term` level over `-` and `+`.
pub open spec fn sp_term_rest(t: Seq<Token>, i: int, acc: PositionedExpr) -> SpecParsed
    decreases t.len() - i, 6int
        when 0 <= i <= t.len()
{
    if i < t.len() && (t[i].typ == TokenType::MINUS || t[i].typ == TokenType::PLUS) {
        let tok = t[i];
        let op = if tok.typ == TokenType::MINUS {
            BinaryOp::BinMinus
        } else {
            BinaryOp::Plus
        };
        let right = sp_factor(t, i + 1, tok.to_pos);
        match right.res {
            Ok(r) => {
                let combined = PositionedExpr {
                    start: acc.start,
                    end: r.end,
                    expr: Expr::Binary { e1: Box::new(acc), op, e2: Box::new(r) },
                };
                if i < right.next <= t.len() {
                    sp_term_rest(t, right.next, combined)
                } else {
                    SpecParsed { res: Ok(combined), next: right.next }
                }
            },
            Err(_) => right,
        }
    } else {
        SpecParsed { res: Ok(acc), next: i }
    }
}

/// The `term` rule: a `factor`, then [`sp_term_rest`].
pub open spec fn sp_term(t: Seq<Token>, i: int, last: Position) -> SpecParsed
    decreases t.len() - i, 7int
        when 0 <= i <= t.len()
{
    let first = sp_factor(t, i, last);
    match first.res {
        Ok(e) => {
            if i < first.next <= t.len() {
                sp_term_rest(t, first.next, e)
            } else {
                SpecParsed { res: Ok(e), next: first.next }
            }
        },
        Err(_) => first,
    }
}

/// Left-associated iteration of the `comparison` level over the orderings.
pub open spec fn sp_comparison_rest(t: Seq<Token>, i: int, acc: PositionedExpr) -> SpecParsed
    decreases t.len() - i, 8int
        when 0 <= i <= t.len()
{
    if i < t.len() && (t[i].typ == TokenType::GREATER || t[i].typ == TokenType::GREATEREQUAL
        || t[i].typ == TokenType::LESS || t[i].typ == TokenType::LESSEQUAL) {
        let tok = t[i];
        let op = if tok.typ == TokenType::GREATER {
            BinaryOp::Ge
        } else if tok.typ == TokenType::GREATEREQUAL {
            BinaryOp::Geq
        } else if tok.typ == TokenType::LESS {
            BinaryOp::Le
        } else {
            BinaryOp::Leq
        };
        let right = sp_term(t, i + 1, tok.to_pos);
        match right.res {
            Ok(r) => {
                let combined = PositionedExpr {
                    start: acc.start,
                    end: r.end,
                    expr: Expr::Binary { e1: Box::new(acc), op, e2: Box::new(r) },
                };
                if i < right.next <= t.len() {
                    sp_comparison_rest(t, right.next, combined)
                } else {
                    SpecParsed { res: Ok(combined), next: right.next }
                }
            },
            Err(_) => right,
        }
    } else {
        SpecParsed { res: Ok(acc), next: i }
    }
}

/// The `comparison` rule: a `term`, then [`sp_comparison_rest`].
pub open spec fn sp_comparison(t: Seq<Token>, i: int, last: Position) -> SpecParsed
    decreases t.len() - i, 9int
        when 0 <= i <= t.len()
{
    let first = sp_term(t, i, last);
    match first.res {
        Ok(e) => {
            if i < first.next <= t.len() {
                sp_comparison_rest(t, first.next, e)
            } else {
                SpecParsed { res: Ok(e), next: first.next }
            }
        },
        Err(_) => first,
    }
}

/// Left-associated iteration of the `equality` level over `!=` and `==`.
pub open spec fn sp_equality_rest(t: Seq<Token>, i: int, acc: PositionedExpr) -> SpecParsed
    decreases t.len() - i, 10int
        when 0 <= i <= t.len()
{
    if i < t.len() && (t[i].typ == TokenType::BANGEQUAL || t[i].typ == TokenType::EQUALEQUAL) {
        let tok = t[i];
        let op = if tok.typ == TokenType::BANGEQUAL {
            BinaryOp::NotEqual
        } else {
            BinaryOp::Equalequal
        };
        let right = sp_comparison(t, i + 1, tok.to_pos);
        match right.res {
            Ok(r) => {
                let combined = PositionedExpr {
                    start: acc.start,
                    end: r.end,
                    expr: Expr::Binary { e1: Box::new(acc), op, e2: Box::new(r) },
                };
                if i < right.next <= t.len() {
                    sp_equality_rest(t, right.next, combined)
                } else {
                    SpecParsed { res: Ok(combined), next: right.next }
                }
            },
            Err(_) => right,
        }
    } else {
        SpecParsed { res: Ok(acc), next: i }
    }
}

/// The `equality` rule: a `comparison`, then [`sp_equality_rest`].
pub open spec fn sp_equality(t: Seq<Token>, i: int, last: Position) -> SpecParsed
    decreases t.len() - i, 11int
        when 0 <= i <= t.len()
{
    let first = sp_comparison(t, i, last);
    match first.res {
        Ok(e) => {
            if i < first.next <= t.len() {
                sp_equality_rest(t, first.next, e)
            } else {
                SpecParsed { res: Ok(e), next: first.next }
            }
        },
        Err(_) => first,
    }
}

/// The whole `expression` rule.
pub open spec fn sp_expression(t: Seq<Token>, i: int, last: Position) -> SpecParsed
    decreases t.len() - i, 12int
        when 0 <= i <= t.len()
{
    sp_equality(t, i, last)
}

/// One `parse` call: an `expression` starting at index `i`, with the origin
/// as the fallback error position.
pub open spec fn sp_parse(t: Seq<Token>, i: int) -> SpecParsed {
    sp_expression(t, i, Position { line: 0, col: 0 })
}

/// The parser: a cursor into a token sequence.
pub struct Parser {
    tokens: Vec<Token>,
    /// Index of the next unconsumed token.
    idx: usize,
}

impl Parser {
    pub closed spec fn wf(&self) -> bool {
        self.idx <= self.tokens@.len()
    }

    pub closed spec fn spec_tokens(&self) -> Seq<Token> {
        self.tokens@
    }

    pub closed spec fn spec_idx(&self) -> int {
        self.idx as int
    }

    /// A parser at the start of `tokens` (which the caller has usually run
    /// through [`crate::lexing::token::filter_whitespace`]).
    pub fn new(tokens: Vec<Token>) -> (p: Parser)
        ensures
            p.wf(),
            p.spec_tokens() == tokens@,
            p.spec_idx() == 0,
    {
        Parser { tokens, idx: 0 }
    }

    /// Consumes and returns the next token, if any.
    fn next_token(&mut self) -> (t: Option<Token>)
        requires
            old(self).wf(),
        ensures
            final(self).wf(),
            final(self).tokens == old(self).tokens,
            ({
                match t {
                    Some(tok) => old(self).spec_idx() < old(self).spec_tokens().len() && tok
                        == old(self).spec_tokens()[old(self).spec_idx()] && final(self).spec_idx()
                        == old(self).spec_idx() + 1,
                    None => old(self).spec_idx() >= old(self).spec_tokens().len()
                        && final(self).spec_idx() == old(self).spec_idx(),
                }
            }),
    {
        if self.idx < self.tokens.len() {
            let tok = self.tokens[self.idx].clone();
            self.idx = self.idx + 1;
            Some(tok)
        } else {
            None
        }
    }

    /// Whether the next token exists and has kind `typ`.
    fn peek_is(&self, typ: TokenType) -> (r: bool)
        requires
            self.wf(),
        ensures
            r == (self.spec_idx() < self.spec_tokens().len()
                && self.spec_tokens()[self.spec_idx()].typ == typ),
    {
        if self.idx < self.tokens.len() {
            self.tokens[self.idx].typ == typ
        } else {
            false
        }
    }

    /// Parses one expression from the cursor; the outcome and the new cursor
    /// are exactly [`sp_parse`] of the token sequence.
    pub fn parse(&mut self) -> (r: ParsingResult)
        requires
            old(self).wf(),
        ensures
            final(self).wf(),
            final(self).spec_tokens() == old(self).spec_tokens(),
            ({
                let sp = sp_parse(old(self).spec_tokens(), old(self).spec_idx());
                final(self).spec_idx() == sp.next && res_matches(r, sp.res)
            }),
        decreases old(self).spec_tokens().len() - old(self).spec_idx(), 15int,
    {
        self.expression(&Position { line: 0, col: 0 })
    }

    fn expression(&mut self, last_position: &Position) -> (r: ParsingResult)
        requires
            old(self).wf(),
        ensures
            final(self).wf(),
            final(self).tokens == old(self).tokens,
            old(self).spec_idx() <= final(self).spec_idx(),
            r is Ok ==> old(self).spec_idx() < final(self).spec_idx(),
            ({
                let sp = sp_expression(old(self).spec_tokens(), old(self).spec_idx(), *last_position);
                final(self).spec_idx() == sp.next && res_matches(r, sp.res)
            }),
        decreases old(self).spec_tokens().len() - old(self).spec_idx(), 12int,
    {
        self.equality(last_position)
    }

    fn equality(&mut self, last_position: &Position) -> (r: ParsingResult)
        requires
            old(self).wf(),
        ensures
            final(self).wf(),
            final(self).tokens == old(self).tokens,
            old(self).spec_idx() <= final(self).spec_idx(),
            r is Ok ==> old(self).spec_idx() < final(self).spec_idx(),
            ({
                let sp = sp_equality(old(self).spec_tokens(), old(self).spec_idx(), *last_position);
                final(self).spec_idx() == sp.next && res_matches(r, sp.res)
            }),
        decreases old(self).spec_tokens().len() - old(self).spec_idx(), 11int,
    {
        let mut expr = match self.comparison(last_position) {
            Ok(e) => e,
            Err(v) => {
                return Err(v);
            },
        };
        while self.peek_is(TokenType::BANGEQUAL) || self.peek_is(TokenType::EQUALEQUAL)
            invariant
                self.wf(),
                self.tokens == old(self).tokens,
                old(self).spec_idx() < self.spec_idx(),
                sp_equality(old(self).spec_tokens(), old(self).spec_idx(), *last_position)
                    == sp_equality_rest(self.spec_tokens(), self.spec_idx(), expr),
            decreases self.spec_tokens().len() - self.spec_idx(),
        {
            let tok = self.next_token().unwrap();
            let op = if tok.typ == TokenType::BANGEQUAL {
                BinaryOp::NotEqual
            } else {
                BinaryOp::Equalequal
            };
            let right = match self.comparison(&tok.to_pos) {
                Ok(e) => e,
                Err(v) => {
                    return Err(v);
                },
            };
            expr = PositionedExpr {
                start: expr.start,
                end: right.end,
                expr: Expr::Binary { e1: Box::new(expr), op, e2: Box::new(right) },
            };
        }
        Ok(expr)
    }

    fn comparison(&mut self, last_position: &Position) -> (r: ParsingResult)
        requires
            old(self).wf(),
        ensures
            final(self).wf(),
            final(self).tokens == old(self).tokens,
            old(self).spec_idx() <= final(self).spec_idx(),
            r is Ok ==> old(self).spec_idx() < final(self).spec_idx(),
            ({
                let sp = sp_comparison(old(self).spec_tokens(), old(self).spec_idx(), *last_position);
                final(self).spec_idx() == sp.next && res_matches(r, sp.res)
            }),
        decreases old(self).spec_tokens().len() - old(self).spec_idx(), 9int,
    {
        let mut expr = match self.term(last_position) {
            Ok(e) => e,
            Err(v) => {
                return Err(v);
            },
        };
        while self.peek_is(TokenType::GREATER) || self.peek_is(TokenType::GREATEREQUAL)
            || self.peek_is(TokenType::LESS) || self.peek_is(TokenType::LESSEQUAL)
            invariant
                self.wf(),
                self.tokens == old(self).tokens,
                old(self).spec_idx() < self.spec_idx(),
                sp_comparison(old(self).spec_tokens(), old(self).spec_idx(), *last_position)
                    == sp_comparison_rest(self.spec_tokens(), self.spec_idx(), expr),
            decreases self.spec_tokens().len() - self.spec_idx(),
        {
            let tok = self.next_token().unwrap();
            let op = if tok.typ == TokenType::GREATER {
                BinaryOp::Ge
            } else if tok.typ == TokenType::GREATEREQUAL {
                BinaryOp::Geq
            } else if tok.typ == TokenType::LESS {
                BinaryOp::Le
            } else {
                BinaryOp::Leq
            };
            let right = match self.term(&tok.to_pos) {
                Ok(e) => e,
                Err(v) => {
                    return Err(v);
                },
            };
            expr = PositionedExpr {
                start: expr.start,
                end: right.end,
                expr: Expr::Binary { e1: Box::new(expr), op, e2: Box::new(right) },
            };
        }
        Ok(expr)
    }

    fn term(&mut self, last_position: &Position) -> (r: ParsingResult)
        requires
            old(self).wf(),
        ensures
            final(self).wf(),
            final(self).tokens == old(self).tokens,
            old(self).spec_idx() <= final(self).spec_idx(),
            r is Ok ==> old(self).spec_idx() < final(self).spec_idx(),
            ({
                let sp = sp_term(old(self).spec_tokens(), old(self).spec_idx(), *last_position);
                final(self).spec_idx() == sp.next && res_matches(r, sp.res)
            }),
        decreases old(self).spec_tokens().len() - old(self).spec_idx(), 7int,
    {
        let mut expr = match self.factor(last_position) {
            Ok(e) => e,
            Err(v) => {
                return Err(v);
            },
        };
        while self.peek_is(TokenType::MINUS) || self.peek_is(TokenType::PLUS)
            invariant
                self.wf(),
                self.tokens == old(self).tokens,
                old(self).spec_idx() < self.spec_idx(),
                sp_term(old(self).spec_tokens(), old(self).spec_idx(), *last_position)
                    == sp_term_rest(self.spec_tokens(), self.spec_idx(), expr),
            decreases self.spec_tokens().len() - self.spec_idx(),
        {
            let tok = self.next_token().unwrap();
            let op = if tok.typ == TokenType::MINUS {
                BinaryOp::BinMinus
            } else {
                BinaryOp::Plus
            };
            let right = match self.factor(&tok.to_pos) {
                Ok(e) => e,
                Err(v) => {
                    return Err(v);
                },
            };
            expr = PositionedExpr {
                start: expr.start,
                end: right.end,
                expr: Expr::Binary { e1: Box::new(expr), op, e2: Box::new(right) },
            };
        }
        Ok(expr)
    }

    fn factor(&mut self, last_position: &Position) -> (r: ParsingResult)
        requires
            old(self).wf(),
        ensures
            final(self).wf(),
            final(self).tokens == old(self).tokens,
            old(self).spec_idx() <= final(self).spec_idx(),
            r is Ok ==> old(self).spec_idx() < final(self).spec_idx(),
            ({
                let sp = sp_factor(old(self).spec_tokens(), old(self).spec_idx(), *last_position);
                final(self).spec_idx() == sp.next && res_matches(r, sp.res)
            }),
        decreases old(self).spec_tokens().len() - old(self).spec_idx(), 5int,
    {
        let mut expr = match self.unary(last_position) {
            Ok(e) => e,
            Err(v) => {
                return Err(v);
            },
        };
        while self.peek_is(TokenType::SLASH) || self.peek_is(TokenType::STAR)
            invariant
                self.wf(),
                self.tokens == old(self).tokens,
                old(self).spec_idx() < self.spec_idx(),
                sp_factor(old(self).spec_tokens(), old(self).spec_idx(), *last_position)
                    == sp_factor_rest(self.spec_tokens(), self.spec_idx(), expr),
            decreases self.spec_tokens().len() - self.spec_idx(),
        {
            let tok = self.next_token().unwrap();
            let op = if tok.typ == TokenType::SLASH {
                BinaryOp::Div
            } else {
                BinaryOp::Times
            };
            let right = match self.unary(&tok.to_pos) {
                Ok(e) => e,
                Err(v) => {
                    return Err(v);
                },
            };
            expr = PositionedExpr {
                start: expr.start,
                end: right.end,
                expr: Expr::Binary { e1: Box::new(expr), op, e2: Box::new(right) },
            };
        }
        Ok(expr)
    }

    fn unary(&mut self, last_position: &Position) -> (r: ParsingResult)
        requires
            old(self).wf(),
        ensures
            final(self).wf(),
            final(self).tokens == old(self).tokens,
            old(self).spec_idx() <= final(self).spec_idx(),
            r is Ok ==> old(self).spec_idx() < final(self).spec_idx(),
            ({
                let sp = sp_unary(old(self).spec_tokens(), old(self).spec_idx(), *last_position);
                final(self).spec_idx() == sp.next && res_matches(r, sp.res)
            }),
        decreases old(self).spec_tokens().len() - old(self).spec_idx(), 3int,
    {
        if self.peek_is(TokenType::BANG) || self.peek_is(TokenType::MINUS) {
            let tok = self.next_token().unwrap();
            let op = if tok.typ == TokenType::BANG {
                UnaryOp::Not
            } else {
                UnaryOp::UnaMinus
            };
            match self.unary(&tok.to_pos) {
                Ok(pexpr) => Ok(
                    PositionedExpr {
                        start: tok.from_pos,
                        end: pexpr.end,
                        expr: Expr::Unary { op, e1: Box::new(pexpr) },
                    },
                ),
                Err(v) => Err(v),
            }
        } else {
            self.primary(last_position)
        }
    }

    fn primary(&mut self, last_position: &Position) -> (r: ParsingResult)
        requires
            old(self).wf(),
        ensures
            final(self).wf(),
            final(self).tokens == old(self).tokens,
            old(self).spec_idx() <= final(self).spec_idx(),
            r is Ok ==> old(self).spec_idx() < final(self).spec_idx(),
            ({
                let sp = sp_primary(old(self).spec_tokens(), old(self).spec_idx(), *last_position);
                final(self).spec_idx() == sp.next && res_matches(r, sp.res)
            }),
        decreases old(self).spec_tokens().len() - old(self).spec_idx(), 2int,
    {
        let tok = match self.next_token() {
            Some(tok) => tok,
            None => {
                let v = vec![ParsingError::EarlyEof { pos: *last_position }];
                proof {
                    assert(errs_view(v@) =~= seq![SpecParsingError::EarlyEof { pos: *last_position }]);
                }
                return Err(v);
            },
        };
        if tok.typ == TokenType::FALSE {
            Ok(PositionedExpr { expr: Expr::F, start: tok.from_pos, end: tok.to_pos })
        } else if tok.typ == TokenType::TRUE {
            Ok(PositionedExpr { expr: Expr::T, start: tok.from_pos, end: tok.to_pos })
        } else if tok.typ == TokenType::NIL {
            Ok(PositionedExpr { expr: Expr::Nil, start: tok.from_pos, end: tok.to_pos })
        } else if tok.typ == TokenType::NUMBER {
            match parse_i64(tok.lexeme.as_str()) {
                Some(n) => Ok(
                    PositionedExpr { expr: Expr::Num(n), start: tok.from_pos, end: tok.to_pos },
                ),
                None => {
                    let v = vec![
                        ParsingError::IllegalToken {
                            start: tok.from_pos,
                            end: tok.to_pos,
                            expected: String::from_str("integer literal"),
                        },
                    ];
                    proof {
                        assert(errs_view(v@) =~= seq![
                            SpecParsingError::IllegalToken {
                                start: tok.from_pos,
                                end: tok.to_pos,
                                expected: "integer literal"@,
                            },
                        ]);
                    }
                    Err(v)
                },
            }
        } else if tok.typ == TokenType::STRING {
            let start = tok.from_pos;
            let end = tok.to_pos;
            Ok(PositionedExpr { expr: Expr::Str(tok.lexeme), start, end })
        } else if tok.typ == TokenType::LEFTPAREN {
            self.handle_parens(&tok.from_pos, &tok.to_pos)
        } else {
            let v = vec![
                ParsingError::IllegalToken {
                    start: tok.from_pos,
                    end: tok.to_pos,
                    expected: String::from_str("Primary token"),
                },
            ];
            proof {
                assert(errs_view(v@) =~= seq![
                    SpecParsingError::IllegalToken {
                        start: tok.from_pos,
                        end: tok.to_pos,
                        expected: "Primary token"@,
                    },
                ]);
            }
            Err(v)
        }
    }

    fn handle_parens(&mut self, open_start: &Position, last_position: &Position) -> (r: ParsingResult)
        requires
            old(self).wf(),
        ensures
            final(self).wf(),
            final(self).tokens == old(self).tokens,
            old(self).spec_idx() <= final(self).spec_idx(),
            r is Ok ==> old(self).spec_idx() < final(self).spec_idx(),
            ({
                let sp = sp_handle_parens(
                    old(self).spec_tokens(),
                    old(self).spec_idx(),
                    *open_start,
                    *last_position,
                );
                final(self).spec_idx() == sp.next && res_matches(r, sp.res)
            }),
        decreases old(self).spec_tokens().len() - old(self).spec_idx(), 14int,
    {
        let expr = self.expression(last_position);
        // The token after the inner expression must be `)`; a stray token is
        // consumed and reported, and an exhausted stream gains an early-end
        // and an unclosed-parenthesis diagnostic naming the opening position.
        match self.next_token() {
            Some(par) => {
                if par.typ == TokenType::RIGHTPAREN {
                    expr
                } else {
                    match expr {
                        Ok(_) => {
                            let v = vec![
                                ParsingError::IllegalToken {
                                    start: par.from_pos,
                                    end: par.to_pos,
                                    expected: String::from_str("closing parenthesis"),
                                },
                            ];
                            proof {
                                assert(errs_view(v@) =~= seq![
                                    SpecParsingError::IllegalToken {
                                        start: par.from_pos,
                                        end: par.to_pos,
                                        expected: "closing parenthesis"@,
                                    },
                                ]);
                            }
                            Err(v)
                        },
                        Err(v) => Err(v),
                    }
                }
            },
            None => {
                match expr {
                    Ok(pexpr) => {
                        let v = vec![
                            ParsingError::EarlyEof { pos: pexpr.end },
                            ParsingError::UnclosedParenthesis { open_paren_start: *open_start },
                        ];
                        proof {
                            assert(errs_view(v@) =~= seq![
                                SpecParsingError::EarlyEof { pos: pexpr.end },
                                SpecParsingError::UnclosedParenthesis { open_paren_start: *open_start },
                            ]);
                        }
                        Err(v)
                    },
                    Err(mut v) => {
                        let ghost v0 = v@;
                        v.push(ParsingError::EarlyEof { pos: *last_position });
                        v.push(ParsingError::UnclosedParenthesis { open_paren_start: *open_start });
                        proof {
                            assert(errs_view(v@) =~= errs_view(v0).push(
                                SpecParsingError::EarlyEof { pos: *last_position },
                            ).push(
                                SpecParsingError::UnclosedParenthesis { open_paren_start: *open_start },
                            ));
                        }
                        Err(v)
                    },
                }
            },
        }
    }
}

/// Whether two token sequences agree in kind and lexeme at every index;
/// their positions may differ arbitrarily.
pub open spec fn tokens_agree(a: Seq<Token>, b: Seq<Token>) -> bool {
    a.len() == b.len() && forall|k: int|
        0 <= k < a.len() ==> (#[trigger] a[k]).typ == (#[trigger] b[k]).typ && a[k].lexeme@
            == b[k].lexeme@
}

/// Whether two trees agree in shape: same operators and literal values
/// everywhere, spans aside.
pub open spec fn shape_eq(a: PositionedExpr, b: PositionedExpr) -> bool
    decreases a,
{
    match (a.expr, b.expr) {
        (Expr::Num(x), Expr::Num(y)) => x == y,
        (Expr::Str(x), Expr::Str(y)) => x@ == y@,
        (Expr::T, Expr::T) => true,
        (Expr::F, Expr::F) => true,
        (Expr::Nil, Expr::Nil) => true,
        (Expr::Unary { op: o1, e1: a1 }, Expr::Unary { op: o2, e1: b1 }) => {
            o1 == o2 && shape_eq(*a1, *b1)
        },
        (
            Expr::Binary { e1: a1, op: o1, e2: a2 },
            Expr::Binary { e1: b1, op: o2, e2: b2 },
        ) => o1 == o2 && shape_eq(*a1, *b1) && shape_eq(*a2, *b2),
        _ => false,
    }
}

/// Whether two syntax errors agree, positions aside: same variant and the
/// same expectation text.
pub open spec fn perr_agree(a: SpecParsingError, b: SpecParsingError) -> bool {
    match (a, b) {
        (SpecParsingError::EarlyEof { .. }, SpecParsingError::EarlyEof { .. }) => true,
        (
            SpecParsingError::UnclosedParenthesis { .. },
            SpecParsingError::UnclosedParenthesis { .. },
        ) => true,
        (
            SpecParsingError::IllegalToken { expected: e1, .. },
            SpecParsingError::IllegalToken { expected: e2, .. },
        ) => e1 == e2,
        _ => false,
    }
}

/// Whether two rule outcomes agree, positions aside: the same number of
/// tokens consumed, and shape-equal trees or pointwise-agreeing error lists.
pub open spec fn parsed_agree(x: SpecParsed, y: SpecParsed) -> bool {
    x.next == y.next && match (x.res, y.res) {
        (Ok(a), Ok(b)) => shape_eq(a, b),
        (Err(v), Err(w)) => v.len() == w.len() && forall|k: int|
            0 <= k < v.len() ==> perr_agree(#[trigger] v[k], w[k]),
        _ => false,
    }
}

/// `sp_primary` depends only on the kinds and lexemes of the tokens.
proof fn lemma_primary_agree(a: Seq<Token>, b: Seq<Token>, i: int, la: Position, lb: Position)
    requires
        tokens_agree(a, b),
        0 <= i <= a.len(),
    ensures
        parsed_agree(sp_primary(a, i, la), sp_primary(b, i, lb)),
    decreases a.len() - i, 2int,
{
    if i < a.len() {
        assert(a[i].typ == b[i].typ && a[i].lexeme@ == b[i].lexeme@);
        if a[i].typ == TokenType::LEFTPAREN {
            lemma_handle_parens_agree(a, b, i + 1, a[i].from_pos, a[i].to_pos, b[i].from_pos, b[i].to_pos);
        }
    }
}

/// `sp_handle_parens` depends only on the kinds and lexemes of the tokens.
#[verifier::rlimit(50)]
proof fn lemma_handle_parens_agree(
    a: Seq<Token>,
    b: Seq<Token>,
    i: int,
    oa: Position,
    la: Position,
    ob: Position,
    lb: Position,
)
    requires
        tokens_agree(a, b),
        0 <= i <= a.len(),
    ensures
        parsed_agree(sp_handle_parens(a, i, oa, la), sp_handle_parens(b, i, ob, lb)),
    decreases a.len() - i, 14int,
{
    lemma_expression_agree(a, b, i, la, lb);
    let ea = sp_expression(a, i, la);
    let eb = sp_expression(b, i, lb);
    if 0 <= ea.next < a.len() {
        assert(a[ea.next].typ == b[eb.next].typ);
    } else {
        match (ea.res, eb.res) {
            (Err(v), Err(w)) => {
                let va = v.push(SpecParsingError::EarlyEof { pos: la }).push(
                    SpecParsingError::UnclosedParenthesis { open_paren_start: oa },
                );
                let vb = w.push(SpecParsingError::EarlyEof { pos: lb }).push(
                    SpecParsingError::UnclosedParenthesis { open_paren_start: ob },
                );
                assert forall|k: int| 0 <= k < va.len() implies perr_agree(
                    #[trigger] va[k],
                    vb[k],
                ) by {
                    if k < v.len() {
                        assert(va[k] == v[k] && vb[k] == w[k]);
                    }
                }
            },
            _ => {},
        }
    }
}

/// `sp_unary` depends only on the kinds and lexemes of the tokens.
proof fn lemma_unary_agree(a: Seq<Token>, b: Seq<Token>, i: int, la: Position, lb: Position)
    requires
        tokens_agree(a, b),
        0 <= i <= a.len(),
    ensures
        parsed_agree(sp_unary(a, i, la), sp_unary(b, i, lb)),
    decreases a.len() - i, 3int,
{
    if i < a.len() && (a[i].typ == TokenType::BANG || a[i].typ == TokenType::MINUS) {
        assert(a[i].typ == b[i].typ);
        lemma_unary_agree(a, b, i + 1, a[i].to_pos, b[i].to_pos);
    } else {
        if i < a.len() {
            assert(a[i].typ == b[i].typ);
        }
        lemma_primary_agree(a, b, i, la, lb);
    }
}

/// `sp_factor_rest` depends only on the kinds and lexemes of the tokens and
/// the shape of the tree folded so far.
proof fn lemma_factor_rest_agree(
    a: Seq<Token>,
    b: Seq<Token>,
    i: int,
    acc_a: PositionedExpr,
    acc_b: PositionedExpr,
)
    requires
        tokens_agree(a, b),
        0 <= i <= a.len(),
        shape_eq(acc_a, acc_b),
    ensures
        parsed_agree(sp_factor_rest(a, i, acc_a), sp_factor_rest(b, i, acc_b)),
    decreases a.len() - i, 4int,
{
    if i < a.len() {
        assert(a[i].typ == b[i].typ);
    }
    if i < a.len() && (a[i].typ == TokenType::SLASH || a[i].typ == TokenType::STAR) {
        lemma_unary_agree(a, b, i + 1, a[i].to_pos, b[i].to_pos);
        let ra = sp_unary(a, i + 1, a[i].to_pos);
        let rb = sp_unary(b, i + 1, b[i].to_pos);
        match (ra.res, rb.res) {
            (Ok(xa), Ok(xb)) => {
                let op = if a[i].typ == TokenType::SLASH {
                    BinaryOp::Div
                } else {
                    BinaryOp::Times
                };
                let ca = PositionedExpr {
                    start: acc_a.start,
                    end: xa.end,
                    expr: Expr::Binary { e1: Box::new(acc_a), op, e2: Box::new(xa) },
                };
                let cb = PositionedExpr {
                    start: acc_b.start,
                    end: xb.end,
                    expr: Expr::Binary { e1: Box::new(acc_b), op, e2: Box::new(xb) },
                };
                assert(shape_eq(ca, cb));
                if i < ra.next <= a.len() {
                    lemma_factor_rest_agree(a, b, ra.next, ca, cb);
                }
            },
            _ => {},
        }
    }
}

/// `sp_factor` depends only on the kinds and lexemes of the tokens.
proof fn lemma_factor_agree(a: Seq<Token>, b: Seq<Token>, i: int, la: Position, lb: Position)
    requires
        tokens_agree(a, b),
        0 <= i <= a.len(),
    ensures
        parsed_agree(sp_factor(a, i, la), sp_factor(b, i, lb)),
    decreases a.len() - i, 5int,
{
    lemma_unary_agree(a, b, i, la, lb);
    let fa = sp_unary(a, i, la);
    let fb = sp_unary(b, i, lb);
    match (fa.res, fb.res) {
        (Ok(xa), Ok(xb)) => {
            if i < fa.next <= a.len() {
                lemma_factor_rest_agree(a, b, fa.next, xa, xb);
            }
        },
        _ => {},
    }
}

/// `sp_term_rest` depends only on the kinds and lexemes of the tokens and
/// the shape of the tree folded so far.
proof fn lemma_term_rest_agree(
    a: Seq<Token>,
    b: Seq<Token>,
    i: int,
    acc_a: PositionedExpr,
    acc_b: PositionedExpr,
)
    requires
        tokens_agree(a, b),
        0 <= i <= a.len(),
        shape_eq(acc_a, acc_b),
    ensures
        parsed_agree(sp_term_rest(a, i, acc_a), sp_term_rest(b, i, acc_b)),
    decreases a.len() - i, 6int,
{
    if i < a.len() {
        assert(a[i].typ == b[i].typ);
    }
    if i < a.len() && (a[i].typ == TokenType::MINUS || a[i].typ == TokenType::PLUS) {
        lemma_factor_agree(a, b, i + 1, a[i].to_pos, b[i].to_pos);
        let ra = sp_factor(a, i + 1, a[i].to_pos);
        let rb = sp_factor(b, i + 1, b[i].to_pos);
        match (ra.res, rb.res) {
            (Ok(xa), Ok(xb)) => {
                let op = if a[i].typ == TokenType::MINUS {
                    BinaryOp::BinMinus
                } else {
                    BinaryOp::Plus
                };
                let ca = PositionedExpr {
                    start: acc_a.start,
                    end: xa.end,
                    expr: Expr::Binary { e1: Box::new(acc_a), op, e2: Box::new(xa) },
                };
                let cb = PositionedExpr {
                    start: acc_b.start,
                    end: xb.end,
                    expr: Expr::Binary { e1: Box::new(acc_b), op, e2: Box::new(xb) },
                };
                assert(shape_eq(ca, cb));
                if i < ra.next <= a.len() {
                    lemma_term_rest_agree(a, b, ra.next, ca, cb);
                }
            },
            _ => {},
        }
    }
}

/// `sp_term` depends only on the kinds and lexemes of the tokens.
proof fn lemma_term_agree(a: Seq<Token>, b: Seq<Token>, i: int, la: Position, lb: Position)
    requires
        tokens_agree(a, b),
        0 <= i <= a.len(),
    ensures
        parsed_agree(sp_term(a, i, la), sp_term(b, i, lb)),
    decreases a.len() - i, 7int,
{
    lemma_factor_agree(a, b, i, la, lb);
    let fa = sp_factor(a, i, la);
    let fb = sp_factor(b, i, lb);
    match (fa.res, fb.res) {
        (Ok(xa), Ok(xb)) => {
            if i < fa.next <= a.len() {
                lemma_term_rest_agree(a, b, fa.next, xa, xb);
            }
        },
        _ => {},
    }
}

/// `sp_comparison_rest` depends only on the kinds and lexemes of the tokens
/// and the shape of the tree folded so far.
proof fn lemma_comparison_rest_agree(
    a: Seq<Token>,
    b: Seq<Token>,
    i: int,
    acc_a: PositionedExpr,
    acc_b: PositionedExpr,
)
    requires
        tokens_agree(a, b),
        0 <= i <= a.len(),
        shape_eq(acc_a, acc_b),
    ensures
        parsed_agree(sp_comparison_rest(a, i, acc_a), sp_comparison_rest(b, i, acc_b)),
    decreases a.len() - i, 8int,
{
    if i < a.len() {
        assert(a[i].typ == b[i].typ);
    }
    if i < a.len() && (a[i].typ == TokenType::GREATER || a[i].typ == TokenType::GREATEREQUAL
        || a[i].typ == TokenType::LESS || a[i].typ == TokenType::LESSEQUAL) {
        lemma_term_agree(a, b, i + 1, a[i].to_pos, b[i].to_pos);
        let ra = sp_term(a, i + 1, a[i].to_pos);
        let rb = sp_term(b, i + 1, b[i].to_pos);
        match (ra.res, rb.res) {
            (Ok(xa), Ok(xb)) => {
                let op = if a[i].typ == TokenType::GREATER {
                    BinaryOp::Ge
                } else if a[i].typ == TokenType::GREATEREQUAL {
                    BinaryOp::Geq
                } else if a[i].typ == TokenType::LESS {
                    BinaryOp::Le
                } else {
                    BinaryOp::Leq
                };
                let ca = PositionedExpr {
                    start: acc_a.start,
                    end: xa.end,
                    expr: Expr::Binary { e1: Box::new(acc_a), op, e2: Box::new(xa) },
                };
                let cb = PositionedExpr {
                    start: acc_b.start,
                    end: xb.end,
                    expr: Expr::Binary { e1: Box::new(acc_b), op, e2: Box::new(xb) },
                };
                assert(shape_eq(ca, cb));
                if i < ra.next <= a.len() {
                    lemma_comparison_rest_agree(a, b, ra.next, ca, cb);
                }
            },
            _ => {},
        }
    }
}

/// `sp_comparison` depends only on the kinds and lexemes of the tokens.
proof fn lemma_comparison_agree(a: Seq<Token>, b: Seq<Token>, i: int, la: Position, lb: Position)
    requires
        tokens_agree(a, b),
        0 <= i <= a.len(),
    ensures
        parsed_agree(sp_comparison(a, i, la), sp_comparison(b, i, lb)),
    decreases a.len() - i, 9int,
{
    lemma_term_agree(a, b, i, la, lb);
    let fa = sp_term(a, i, la);
    let fb = sp_term(b, i, lb);
    match (fa.res, fb.res) {
        (Ok(xa), Ok(xb)) => {
            if i < fa.next <= a.len() {
                lemma_comparison_rest_agree(a, b, fa.next, xa, xb);
            }
        },
        _ => {},
    }
}

/// `sp_equality_rest` depends only on the kinds and lexemes of the tokens
/// and the shape of the tree folded so far.
proof fn lemma_equality_rest_agree(
    a: Seq<Token>,
    b: Seq<Token>,
    i: int,
    acc_a: PositionedExpr,
    acc_b: PositionedExpr,
)
    requires
        tokens_agree(a, b),
        0 <= i <= a.len(),
        shape_eq(acc_a, acc_b),
    ensures
        parsed_agree(sp_equality_rest(a, i, acc_a), sp_equality_rest(b, i, acc_b)),
    decreases a.len() - i, 10int,
{
    if i < a.len() {
        assert(a[i].typ == b[i].typ);
    }
    if i < a.len() && (a[i].typ == TokenType::BANGEQUAL || a[i].typ == TokenType::EQUALEQUAL) {
        lemma_comparison_agree(a, b, i + 1, a[i].to_pos, b[i].to_pos);
        let ra = sp_comparison(a, i + 1, a[i].to_pos);
        let rb = sp_comparison(b, i + 1, b[i].to_pos);
        match (ra.res, rb.res) {
            (Ok(xa), Ok(xb)) => {
                let op = if a[i].typ == TokenType::BANGEQUAL {
                    BinaryOp::NotEqual
                } else {
                    BinaryOp::Equalequal
                };
                let ca = PositionedExpr {
                    start: acc_a.start,
                    end: xa.end,
                    expr: Expr::Binary { e1: Box::new(acc_a), op, e2: Box::new(xa) },
                };
                let cb = PositionedExpr {
                    start: acc_b.start,
                    end: xb.end,
                    expr: Expr::Binary { e1: Box::new(acc_b), op, e2: Box::new(xb) },
                };
                assert(shape_eq(ca, cb));
                if i < ra.next <= a.len() {
                    lemma_equality_rest_agree(a, b, ra.next, ca, cb);
                }
            },
            _ => {},
        }
    }
}

/// `sp_equality` depends only on the kinds and lexemes of the tokens.
proof fn lemma_equality_agree(a: Seq<Token>, b: Seq<Token>, i: int, la: Position, lb: Position)
    requires
        tokens_agree(a, b),
        0 <= i <= a.len(),
    ensures
        parsed_agree(sp_equality(a, i, la), sp_equality(b, i, lb)),
    decreases a.len() - i, 11int,
{
    lemma_comparison_agree(a, b, i, la, lb);
    let fa = sp_comparison(a, i, la);
    let fb = sp_comparison(b, i, lb);
    match (fa.res, fb.res) {
        (Ok(xa), Ok(xb)) => {
            if i < fa.next <= a.len() {
                lemma_equality_rest_agree(a, b, fa.next, xa, xb);
            }
        },
        _ => {},
    }
}

/// `sp_expression` depends only on the kinds and lexemes of the tokens.
proof fn lemma_expression_agree(a: Seq<Token>, b: Seq<Token>, i: int, la: Position, lb: Position)
    requires
        tokens_agree(a, b),
        0 <= i <= a.len(),
    ensures
        parsed_agree(sp_expression(a, i, la), sp_expression(b, i, lb)),
    decreases a.len() - i, 12int,
{
    lemma_equality_agree(a, b, i, la, lb);
}

/// Parsing depends only on the kinds and lexemes of the tokens, never on
/// their positions: two token sequences that agree pointwise in kind and
/// lexeme — as the whitespace-filtered streams of two sources differing only
/// in the whitespace and comments between their tokens do — consume the same
/// number of tokens and yield shape-equal trees or pointwise-agreeing error
/// lists.
pub proof fn lemma_parse_agrees_on_kinds_and_lexemes(a: Seq<Token>, b: Seq<Token>, i: int)
    requires
        tokens_agree(a, b),
        0 <= i <= a.len(),
    ensures
        parsed_agree(sp_parse(a, i), sp_parse(b, i)),
{
    lemma_expression_agree(a, b, i, Position { line: 0, col: 0 }, Position { line: 0, col: 0 });
}

} // verus!
