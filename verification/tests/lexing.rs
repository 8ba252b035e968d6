//! Scanner behaviour: token kinds, lexemes, spans and diagnostics.

use lox::error::LexingDiagnostic;
use lox::lexing::lexer::Lexer;
use lox::lexing::token::{Token, TokenType};
use lox::position::Position;

fn lex_all(src: &str) -> (Vec<Token>, Vec<LexingDiagnostic>) {
    let mut lx = Lexer::new(src.to_string());
    let mut toks = Vec::new();
    while let Some(t) = lx.scan_token() {
        toks.push(t);
    }
    (toks, lx.diagnostics().clone())
}

fn pos(line: u64, col: u64) -> Position {
    Position { line, col }
}

#[test]
fn maximal_munch_lessequal() {
    let (toks, diags) = lex_all("<=");
    assert_eq!(toks.len(), 1);
    assert_eq!(toks[0].typ, TokenType::LESSEQUAL);
    assert_eq!(toks[0].from_pos, pos(0, 0));
    assert_eq!(toks[0].to_pos, pos(0, 2));
    assert!(diags.is_empty());
}

#[test]
fn maximal_munch_other_operators() {
    let (toks, _) = lex_all("!= == >= <");
    let kinds: Vec<TokenType> = toks
        .iter()
        .map(|t| t.typ)
        .filter(|k| *k != TokenType::WHITESPACE)
        .collect();
    assert_eq!(
        kinds,
        vec![
            TokenType::BANGEQUAL,
            TokenType::EQUALEQUAL,
            TokenType::GREATEREQUAL,
            TokenType::LESS
        ]
    );
}

#[test]
fn equal_then_bang_is_two_tokens() {
    let (toks, _) = lex_all("=!");
    assert_eq!(toks.len(), 2);
    assert_eq!(toks[0].typ, TokenType::EQUAL);
    assert_eq!(toks[1].typ, TokenType::BANG);
}

#[test]
fn decimal_lookahead() {
    let (toks, diags) = lex_all("2.3.sqrt");
    assert_eq!(toks.len(), 3);
    assert_eq!(toks[0].typ, TokenType::NUMBER);
    assert_eq!(toks[0].lexeme, "2.3");
    assert_eq!(toks[1].typ, TokenType::DOT);
    assert_eq!(toks[2].typ, TokenType::IDENTIFIER);
    assert_eq!(toks[2].lexeme, "sqrt");
    assert!(diags.is_empty());
}

#[test]
fn number_trailing_dot_not_absorbed() {
    let (toks, _) = lex_all("123.");
    assert_eq!(toks.len(), 2);
    assert_eq!(toks[0].typ, TokenType::NUMBER);
    assert_eq!(toks[0].lexeme, "123");
    assert_eq!(toks[1].typ, TokenType::DOT);
}

#[test]
fn plain_number_token() {
    let (toks, _) = lex_all("123");
    assert_eq!(toks.len(), 1);
    assert_eq!(toks[0].typ, TokenType::NUMBER);
    assert_eq!(toks[0].lexeme, "123");
    assert_eq!(toks[0].from_pos, pos(0, 0));
    assert_eq!(toks[0].to_pos, pos(0, 3));
}

#[test]
fn keywords_and_identifiers() {
    let (toks, _) = lex_all("true truex while nil");
    let words: Vec<(TokenType, String)> = toks
        .into_iter()
        .filter(|t| t.typ != TokenType::WHITESPACE)
        .map(|t| (t.typ, t.lexeme))
        .collect();
    assert_eq!(
        words,
        vec![
            (TokenType::TRUE, "true".to_string()),
            (TokenType::IDENTIFIER, "truex".to_string()),
            (TokenType::WHILE, "while".to_string()),
            (TokenType::NIL, "nil".to_string()),
        ]
    );
}

#[test]
fn identify_keyword_direct() {
    assert_eq!(Lexer::identify_keyword("and"), Some(TokenType::AND));
    assert_eq!(Lexer::identify_keyword("super"), Some(TokenType::SUPER));
    assert_eq!(Lexer::identify_keyword("banana"), None);
    assert_eq!(Lexer::identify_keyword(""), None);
}

#[test]
fn string_literal_excludes_quotes() {
    let (toks, diags) = lex_all("\"hi\"");
    assert_eq!(toks.len(), 1);
    assert_eq!(toks[0].typ, TokenType::STRING);
    assert_eq!(toks[0].lexeme, "hi");
    assert_eq!(toks[0].from_pos, pos(0, 0));
    assert_eq!(toks[0].to_pos, pos(0, 4));
    assert!(diags.is_empty());
}

#[test]
fn unterminated_string_stops_scanning() {
    let (toks, diags) = lex_all("1 \"abc");
    assert_eq!(toks.len(), 2);
    assert_eq!(toks[0].typ, TokenType::NUMBER);
    assert_eq!(toks[1].typ, TokenType::WHITESPACE);
    assert_eq!(
        diags,
        vec![LexingDiagnostic::UnterminatedString { from: pos(0, 2) }]
    );
}

#[test]
fn unknown_character_skipped_with_diagnostic() {
    let (toks, diags) = lex_all("#+");
    assert_eq!(toks.len(), 1);
    assert_eq!(toks[0].typ, TokenType::PLUS);
    assert_eq!(toks[0].from_pos, pos(0, 1));
    assert_eq!(diags, vec![LexingDiagnostic::UnknownChar { at: pos(0, 1) }]);
}

#[test]
fn several_unknown_characters_each_noted() {
    let (toks, diags) = lex_all("##");
    assert!(toks.is_empty());
    assert_eq!(
        diags,
        vec![
            LexingDiagnostic::UnknownChar { at: pos(0, 1) },
            LexingDiagnostic::UnknownChar { at: pos(0, 2) },
        ]
    );
}

#[test]
fn comment_contributes_no_token() {
    let (toks, diags) = lex_all("// hello\n1");
    assert_eq!(toks.len(), 2);
    assert_eq!(toks[0].typ, TokenType::WHITESPACE);
    assert_eq!(toks[1].typ, TokenType::NUMBER);
    assert_eq!(toks[1].lexeme, "1");
    assert_eq!(toks[1].from_pos, pos(1, 0));
    assert!(diags.is_empty());
}

#[test]
fn comment_at_end_of_input() {
    let (toks, diags) = lex_all("1// tail");
    assert_eq!(toks.len(), 1);
    assert_eq!(toks[0].typ, TokenType::NUMBER);
    assert!(diags.is_empty());
}

#[test]
fn slash_alone_is_division() {
    let (toks, _) = lex_all("6/2");
    assert_eq!(toks[1].typ, TokenType::SLASH);
}

#[test]
fn whitespace_run_is_one_token() {
    let (toks, _) = lex_all(" \t 1");
    assert_eq!(toks.len(), 2);
    assert_eq!(toks[0].typ, TokenType::WHITESPACE);
    assert_eq!(toks[0].from_pos, pos(0, 0));
    assert_eq!(toks[0].to_pos, pos(0, 3));
    assert_eq!(toks[1].from_pos, pos(0, 3));
}

#[test]
fn newline_resets_column() {
    let (toks, _) = lex_all("1\n2");
    assert_eq!(toks.len(), 3);
    assert_eq!(toks[0].from_pos, pos(0, 0));
    assert_eq!(toks[1].typ, TokenType::WHITESPACE);
    assert_eq!(toks[1].to_pos, pos(1, 0));
    assert_eq!(toks[2].from_pos, pos(1, 0));
    assert_eq!(toks[2].to_pos, pos(1, 1));
}

#[test]
fn token_spans_are_monotonic() {
    let (toks, _) = lex_all("1 + 20 <= 300\n(\"x\") // c\n!true");
    let mut prev = pos(0, 0);
    for t in &toks {
        let from_ok =
            prev.line < t.from_pos.line || (prev.line == t.from_pos.line && prev.col <= t.from_pos.col);
        let span_ok = t.from_pos.line < t.to_pos.line
            || (t.from_pos.line == t.to_pos.line && t.from_pos.col <= t.to_pos.col);
        assert!(from_ok, "span moved backwards at {:?}", t);
        assert!(span_ok, "span inverted at {:?}", t);
        prev = t.to_pos;
    }
}

#[test]
fn unicode_whitespace_is_whitespace() {
    // no-break space and ideographic space collapse into the run
    let (toks, diags) = lex_all("1\u{a0}\u{3000}2");
    assert_eq!(toks.len(), 3);
    assert_eq!(toks[0].typ, TokenType::NUMBER);
    assert_eq!(toks[1].typ, TokenType::WHITESPACE);
    assert_eq!(toks[1].from_pos, pos(0, 1));
    assert_eq!(toks[1].to_pos, pos(0, 3));
    assert_eq!(toks[2].typ, TokenType::NUMBER);
    assert!(diags.is_empty());
}

#[test]
fn string_may_span_lines() {
    let (toks, diags) = lex_all("\"a\nb\"");
    assert_eq!(toks.len(), 1);
    assert_eq!(toks[0].typ, TokenType::STRING);
    assert_eq!(toks[0].lexeme, "a\nb");
    assert_eq!(toks[0].from_pos, pos(0, 0));
    assert_eq!(toks[0].to_pos, pos(1, 2));
    assert!(diags.is_empty());
}

#[test]
fn is_done_tracks_exhaustion() {
    let mut lx = Lexer::new("1".to_string());
    assert!(!lx.is_done());
    assert!(lx.scan_token().is_some());
    assert!(lx.is_done());
    assert!(lx.scan_token().is_none());
}
