//! Whole-pipeline behaviour: whitespace and comment insensitivity, the
//! whitespace filter, and position rendering.

use lox::error::{LoxError, ParsingError};
use lox::interpreting::interpret::{interpret, LoxValue};
use lox::lexing::lexer::Lexer;
use lox::lexing::token::{filter_whitespace, Token, TokenType};
use lox::parsing::expr::{Expr, PositionedExpr};
use lox::parsing::parser::Parser;
use lox::position::Position;

fn lex_all(src: &str) -> Vec<Token> {
    let mut lx = Lexer::new(src.to_string());
    let mut toks = Vec::new();
    while let Some(t) = lx.scan_token() {
        toks.push(t);
    }
    toks
}

fn parse_src(src: &str) -> Result<PositionedExpr, Vec<ParsingError>> {
    let mut p = Parser::new(filter_whitespace(&lex_all(src)));
    p.parse()
}

fn eval_src(src: &str) -> Result<LoxValue, LoxError> {
    interpret(&parse_src(src).unwrap())
}

/// Tree equality up to positions: spans move when whitespace is inserted,
/// the shape and the literals may not.
fn same_shape(a: &PositionedExpr, b: &PositionedExpr) -> bool {
    match (&a.expr, &b.expr) {
        (Expr::Num(x), Expr::Num(y)) => x == y,
        (Expr::Str(x), Expr::Str(y)) => x == y,
        (Expr::T, Expr::T) | (Expr::F, Expr::F) | (Expr::Nil, Expr::Nil) => true,
        (Expr::Unary { op: o1, e1: a1 }, Expr::Unary { op: o2, e1: b1 }) => {
            o1 == o2 && same_shape(a1, b1)
        }
        (
            Expr::Binary { e1: a1, op: o1, e2: a2 },
            Expr::Binary { e1: b1, op: o2, e2: b2 },
        ) => o1 == o2 && same_shape(a1, b1) && same_shape(a2, b2),
        _ => false,
    }
}

#[test]
fn whitespace_insertion_changes_nothing() {
    let bare = parse_src("1-2-3").unwrap();
    let spaced = parse_src("  1 -\t2   - 3 ").unwrap();
    let commented = parse_src("1 - 2 // note\n - 3").unwrap();
    let multiline = parse_src("1\n-\n2\n-\n3").unwrap();
    assert!(same_shape(&bare, &spaced));
    assert!(same_shape(&bare, &commented));
    assert!(same_shape(&bare, &multiline));
    assert_eq!(eval_src("1-2-3"), Ok(LoxValue::Int(-4)));
    assert_eq!(eval_src("  1 -\t2   - 3 "), Ok(LoxValue::Int(-4)));
    assert_eq!(eval_src("1 - 2 // note\n - 3"), Ok(LoxValue::Int(-4)));
    assert_eq!(eval_src("1\n-\n2\n-\n3"), Ok(LoxValue::Int(-4)));
}

#[test]
fn whitespace_insertion_around_strings() {
    assert_eq!(eval_src("\"a\"+\"b\""), eval_src(" \"a\" + \"b\" "));
}

#[test]
fn filtering_is_idempotent_on_a_lexed_stream() {
    let toks = lex_all(" 1 + // c\n 2 ");
    let once = filter_whitespace(&toks);
    let twice = filter_whitespace(&once);
    assert_eq!(once, twice);
    assert!(once.iter().all(|t| t.typ != TokenType::WHITESPACE));
}

#[test]
fn filter_keeps_order_and_content() {
    let toks = lex_all("1 + 2");
    let filtered = filter_whitespace(&toks);
    let kinds: Vec<TokenType> = filtered.iter().map(|t| t.typ).collect();
    assert_eq!(kinds, vec![TokenType::NUMBER, TokenType::PLUS, TokenType::NUMBER]);
    assert_eq!(filtered[0].lexeme, "1");
    assert_eq!(filtered[2].lexeme, "2");
}

#[test]
fn position_transitions() {
    let p = Position::default();
    assert_eq!(p, Position { line: 0, col: 0 });
    let q = p.bump(3);
    assert_eq!(q, Position { line: 0, col: 3 });
    let r = q.brk();
    assert_eq!(r, Position { line: 1, col: 0 });
    let s = r.bump(2).bump(5);
    assert_eq!(s, Position { line: 1, col: 7 });
}

#[test]
fn position_pretty_print() {
    assert_eq!(Position { line: 3, col: 7 }.pretty_print(), "3:7");
    assert_eq!(Position { line: 0, col: 0 }.pretty_print(), "0:0");
    assert_eq!(Position { line: 12, col: 345 }.pretty_print(), "12:345");
    assert_eq!(
        Position { line: 18446744073709551615, col: 10 }.pretty_print(),
        "18446744073709551615:10"
    );
}

#[test]
fn parser_runs_on_unfiltered_stream_differently() {
    // The parser has no special case for whitespace tokens: feeding it an
    // unfiltered stream makes the whitespace token an illegal primary.
    let mut p = Parser::new(lex_all(" 1"));
    let errs = p.parse().unwrap_err();
    assert!(matches!(errs[0], ParsingError::IllegalToken { .. }));
}
