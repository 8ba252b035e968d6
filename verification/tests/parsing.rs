//! Parser behaviour: precedence, associativity, spans and error
//! accumulation.

use lox::error::ParsingError;
use lox::lexing::lexer::Lexer;
use lox::lexing::token::{filter_whitespace, Token};
use lox::parsing::expr::{BinaryOp, Expr, PositionedExpr, UnaryOp};
use lox::parsing::parser::{parse_i64, Parser};
use lox::position::Position;

fn lex_filtered(src: &str) -> Vec<Token> {
    let mut lx = Lexer::new(src.to_string());
    let mut toks = Vec::new();
    while let Some(t) = lx.scan_token() {
        toks.push(t);
    }
    filter_whitespace(&toks)
}

fn parse_src(src: &str) -> Result<PositionedExpr, Vec<ParsingError>> {
    let mut p = Parser::new(lex_filtered(src));
    p.parse()
}

fn pos(line: u64, col: u64) -> Position {
    Position { line, col }
}

#[test]
fn round_trip_number_literal() {
    let e = parse_src("123").unwrap();
    assert_eq!(e.expr, Expr::Num(123));
    assert_eq!(e.start, pos(0, 0));
    assert_eq!(e.end, pos(0, 3));
}

#[test]
fn string_literal_parses() {
    let e = parse_src("\"ab\"").unwrap();
    assert_eq!(e.expr, Expr::Str("ab".to_string()));
}

#[test]
fn keyword_literals_parse() {
    assert_eq!(parse_src("true").unwrap().expr, Expr::T);
    assert_eq!(parse_src("false").unwrap().expr, Expr::F);
    assert_eq!(parse_src("nil").unwrap().expr, Expr::Nil);
}

#[test]
fn subtraction_is_left_associated() {
    let e = parse_src("1 - 2 - 3").unwrap();
    match e.expr {
        Expr::Binary { e1, op: BinaryOp::BinMinus, e2 } => {
            assert_eq!(e2.expr, Expr::Num(3));
            match e1.expr {
                Expr::Binary { e1: l, op: BinaryOp::BinMinus, e2: r } => {
                    assert_eq!(l.expr, Expr::Num(1));
                    assert_eq!(r.expr, Expr::Num(2));
                }
                other => panic!("inner tree not left-associated: {:?}", other),
            }
        }
        other => panic!("not a subtraction at the root: {:?}", other),
    }
    assert_eq!(e.start, pos(0, 0));
    assert_eq!(e.end, pos(0, 9));
}

#[test]
fn precedence_of_star_over_plus() {
    let e = parse_src("1 + 2 * 3").unwrap();
    match e.expr {
        Expr::Binary { e1, op: BinaryOp::Plus, e2 } => {
            assert_eq!(e1.expr, Expr::Num(1));
            assert!(matches!(e2.expr, Expr::Binary { op: BinaryOp::Times, .. }));
        }
        other => panic!("not an addition at the root: {:?}", other),
    }
}

#[test]
fn slash_parses_as_division() {
    let e = parse_src("6 / 2").unwrap();
    assert!(matches!(e.expr, Expr::Binary { op: BinaryOp::Div, .. }));
}

#[test]
fn unary_is_right_associated() {
    let e = parse_src("!!true").unwrap();
    match e.expr {
        Expr::Unary { op: UnaryOp::Not, e1 } => {
            assert!(matches!(e1.expr, Expr::Unary { op: UnaryOp::Not, .. }));
        }
        other => panic!("not a negation at the root: {:?}", other),
    }
}

#[test]
fn grouping_parses_inner_expression() {
    let e = parse_src("(1)").unwrap();
    assert_eq!(e.expr, Expr::Num(1));
}

#[test]
fn unclosed_group_accumulates_both_errors() {
    let errs = parse_src("(1 + 2").unwrap_err();
    assert_eq!(errs.len(), 2);
    assert!(matches!(errs[0], ParsingError::EarlyEof { pos: p } if p == pos(0, 6)));
    assert!(
        matches!(errs[1], ParsingError::UnclosedParenthesis { open_paren_start: p } if p == pos(0, 0))
    );
}

#[test]
fn group_must_be_closed_by_right_paren() {
    // A stray closer is consumed and reported, never accepted.
    let errs = parse_src("(1 + 2}").unwrap_err();
    assert_eq!(errs.len(), 1);
    match &errs[0] {
        ParsingError::IllegalToken { start, end, expected } => {
            assert_eq!(*start, pos(0, 6));
            assert_eq!(*end, pos(0, 7));
            assert_eq!(expected, "closing parenthesis");
        }
        other => panic!("wrong error: {:?}", other),
    }
}

#[test]
fn empty_input_is_early_end() {
    let errs = parse_src("").unwrap_err();
    assert_eq!(errs.len(), 1);
    assert!(matches!(errs[0], ParsingError::EarlyEof { pos: p } if p == pos(0, 0)));
}

#[test]
fn token_that_cannot_start_an_expression() {
    let errs = parse_src("+").unwrap_err();
    assert_eq!(errs.len(), 1);
    match &errs[0] {
        ParsingError::IllegalToken { start, end, expected } => {
            assert_eq!(*start, pos(0, 0));
            assert_eq!(*end, pos(0, 1));
            assert_eq!(expected, "Primary token");
        }
        other => panic!("wrong error: {:?}", other),
    }
}

#[test]
fn decimal_number_is_rejected_by_the_grammar() {
    // The lexer accepts "2.5" as one numeric token, but the tree holds
    // 64-bit integers alone, so the parser reports it rather than panic.
    let errs = parse_src("2.5").unwrap_err();
    assert_eq!(errs.len(), 1);
    match &errs[0] {
        ParsingError::IllegalToken { expected, .. } => assert_eq!(expected, "integer literal"),
        other => panic!("wrong error: {:?}", other),
    }
}

#[test]
fn oversized_number_is_rejected() {
    let errs = parse_src("99999999999999999999").unwrap_err();
    assert!(matches!(errs[0], ParsingError::IllegalToken { .. }));
}

#[test]
fn parse_i64_exact_values() {
    assert_eq!(parse_i64("0"), Some(0));
    assert_eq!(parse_i64("123"), Some(123));
    assert_eq!(parse_i64("0042"), Some(42));
    assert_eq!(parse_i64("9223372036854775807"), Some(i64::MAX));
    assert_eq!(parse_i64("9223372036854775808"), None);
    assert_eq!(parse_i64(""), None);
    assert_eq!(parse_i64("2.5"), None);
    assert_eq!(parse_i64("12a"), None);
}

#[test]
fn nested_unclosed_groups_accumulate() {
    // "((1": the inner group reports early end and its own unclosed
    // parenthesis; the outer group appends the same pair for itself.
    let errs = parse_src("((1").unwrap_err();
    assert_eq!(errs.len(), 4);
    assert!(matches!(errs[0], ParsingError::EarlyEof { pos: p } if p == pos(0, 3)));
    assert!(
        matches!(errs[1], ParsingError::UnclosedParenthesis { open_paren_start: p } if p == pos(0, 1))
    );
    assert!(matches!(errs[2], ParsingError::EarlyEof { pos: p } if p == pos(0, 1)));
    assert!(
        matches!(errs[3], ParsingError::UnclosedParenthesis { open_paren_start: p } if p == pos(0, 0))
    );
}

#[test]
fn error_inside_group_gains_early_end_and_unclosed() {
    // "(" then end of input: the inner expression already failed with an
    // early end, and the grouping rule appends its own early-end and
    // unclosed-parenthesis diagnostics.
    let errs = parse_src("(").unwrap_err();
    assert_eq!(errs.len(), 3);
    assert!(matches!(errs[0], ParsingError::EarlyEof { .. }));
    assert!(matches!(errs[1], ParsingError::EarlyEof { pos: p } if p == pos(0, 1)));
    assert!(
        matches!(errs[2], ParsingError::UnclosedParenthesis { open_paren_start: p } if p == pos(0, 0))
    );
}
