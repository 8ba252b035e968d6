//! Interpreter behaviour: literal values, operator typing rules, errors.

use lox::error::{LoxError, ParsingError};
use lox::interpreting::interpret::{interpret, LoxValue};
use lox::lexing::lexer::Lexer;
use lox::lexing::token::{filter_whitespace, Token};
use lox::parsing::expr::PositionedExpr;
use lox::parsing::parser::Parser;

fn lex_filtered(src: &str) -> Vec<Token> {
    let mut lx = Lexer::new(src.to_string());
    let mut toks = Vec::new();
    while let Some(t) = lx.scan_token() {
        toks.push(t);
    }
    filter_whitespace(&toks)
}

fn parse_src(src: &str) -> Result<PositionedExpr, Vec<ParsingError>> {
    let mut p = Parser::new(lex_filtered(src));
    p.parse()
}

fn eval_src(src: &str) -> Result<LoxValue, LoxError> {
    interpret(&parse_src(src).unwrap())
}

fn eval_err(src: &str) -> String {
    eval_src(src).unwrap_err().msg
}

#[test]
fn round_trip_number_evaluates() {
    assert_eq!(eval_src("123"), Ok(LoxValue::Int(123)));
}

#[test]
fn literals_evaluate_to_themselves() {
    assert_eq!(eval_src("true"), Ok(LoxValue::Bool(true)));
    assert_eq!(eval_src("false"), Ok(LoxValue::Bool(false)));
    assert_eq!(eval_src("nil"), Ok(LoxValue::Nil));
    assert_eq!(eval_src("\"hi\""), Ok(LoxValue::Strng("hi".to_string())));
}

#[test]
fn left_associated_subtraction_evaluates() {
    assert_eq!(eval_src("1 - 2 - 3"), Ok(LoxValue::Int(-4)));
}

#[test]
fn equality_never_type_errors() {
    assert_eq!(eval_src("2 == false"), Ok(LoxValue::Bool(false)));
    assert_eq!(eval_src("2 != false"), Ok(LoxValue::Bool(true)));
    assert_eq!(eval_src("nil == nil"), Ok(LoxValue::Bool(true)));
    assert_eq!(eval_src("\"a\" == \"a\""), Ok(LoxValue::Bool(true)));
    assert_eq!(eval_src("\"a\" == \"b\""), Ok(LoxValue::Bool(false)));
    assert_eq!(eval_src("\"1\" == 1"), Ok(LoxValue::Bool(false)));
}

#[test]
fn string_concatenation() {
    assert_eq!(eval_src("\"a\" + \"b\""), Ok(LoxValue::Strng("ab".to_string())));
    assert_eq!(
        eval_err("\"a\" + 1"),
        "Addition should be between numbers or strings only"
    );
}

#[test]
fn unary_negation_type_check() {
    assert_eq!(eval_err("-true"), "opposite of bool is undefined");
    assert_eq!(eval_src("-(-5)"), Ok(LoxValue::Int(5)));
}

#[test]
fn unary_negation_other_kinds() {
    assert_eq!(eval_err("-\"a\""), "opposite of string is undefined");
    assert_eq!(eval_err("-nil"), "opposite of nil is undefined");
}

#[test]
fn boolean_not() {
    assert_eq!(eval_src("!true"), Ok(LoxValue::Bool(false)));
    assert_eq!(eval_src("!!false"), Ok(LoxValue::Bool(false)));
    assert_eq!(eval_err("!1"), "negation of int is undefined");
    assert_eq!(eval_err("!\"x\""), "negation of string is undefined");
    assert_eq!(eval_err("!nil"), "negation of nil is undefined");
}

#[test]
fn comparisons_on_integers() {
    assert_eq!(eval_src("1 < 2"), Ok(LoxValue::Bool(true)));
    assert_eq!(eval_src("2 <= 2"), Ok(LoxValue::Bool(true)));
    assert_eq!(eval_src("3 > 4"), Ok(LoxValue::Bool(false)));
    assert_eq!(eval_src("4 >= 4"), Ok(LoxValue::Bool(true)));
    assert_eq!(eval_src("5 >= 6"), Ok(LoxValue::Bool(false)));
}

#[test]
fn comparisons_require_numbers() {
    assert_eq!(eval_err("1 < true"), "Comparison should be between numbers only");
    assert_eq!(eval_err("\"a\" >= \"b\""), "Comparison should be between numbers only");
}

#[test]
fn integer_arithmetic() {
    assert_eq!(eval_src("1 + 2"), Ok(LoxValue::Int(3)));
    assert_eq!(eval_src("2 * 3"), Ok(LoxValue::Int(6)));
    assert_eq!(eval_src("7 - 10"), Ok(LoxValue::Int(-3)));
    assert_eq!(eval_src("6 / 2"), Ok(LoxValue::Int(3)));
    // division truncates toward zero
    assert_eq!(eval_src("7 / 2"), Ok(LoxValue::Int(3)));
    assert_eq!(eval_src("-(7) / 2"), Ok(LoxValue::Int(-3)));
}

#[test]
fn arithmetic_requires_numbers() {
    assert_eq!(eval_err("1 - nil"), "Subtraction should be between numbers only");
    assert_eq!(eval_err("true * 2"), "Multiplication should be between numbers only");
    assert_eq!(eval_err("\"a\" / 2"), "Division should be between numbers only");
}

#[test]
fn division_by_zero_is_an_error() {
    assert_eq!(eval_err("1 / 0"), "division by zero is undefined");
}

#[test]
fn overflow_is_an_error() {
    assert_eq!(eval_err("9223372036854775807 + 1"), "integer overflow");
    assert_eq!(eval_err("0 - 9223372036854775807 - 2"), "integer overflow");
    assert_eq!(eval_err("4611686018427387904 * 4"), "integer overflow");
}

#[test]
fn left_error_takes_precedence() {
    // both operands would fail; the left one is reported
    assert_eq!(eval_err("-true + !1"), "opposite of bool is undefined");
}

#[test]
fn grouping_changes_evaluation() {
    assert_eq!(eval_src("(1 + 2) * 3"), Ok(LoxValue::Int(9)));
    assert_eq!(eval_src("1 + 2 * 3"), Ok(LoxValue::Int(7)));
}
