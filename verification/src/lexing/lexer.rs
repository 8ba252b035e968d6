//! The character-level scanner. It walks the source text left to right with
//! one character of lookahead (plus one more to tell a decimal point inside a
//! numeric literal from a trailing dot), producing one token per call.
//!
//! The scanner is total: a line comment is skipped, an unknown character is
//! skipped with a diagnostic, and an unterminated string literal ends
//! scanning with a diagnostic. Its exact behaviour is given by [`spec_scan`].

use crate::error::LexingDiagnostic;
use crate::lexing::token::{spec_keyword, SpecToken, Token, TokenType};
use crate::position::{pos_leq, Position};
use vstd::prelude::*;
use vstd::string::StrSliceExecFns;

verus! {

/// The characters with the Unicode `White_Space` property.
pub open spec fn is_whitespace_char(c: char) -> bool {
    let u = c as u32;
    u == 0x9 || u == 0xA || u == 0xB || u == 0xC || u == 0xD || u == 0x20 || u == 0x85
        || u == 0xA0 || u == 0x1680 || (0x2000 <= u && u <= 0x200A) || u == 0x2028 || u == 0x2029
        || u == 0x202F || u == 0x205F || u == 0x3000
}

/// The ASCII decimal digits.
pub open spec fn is_digit_char(c: char) -> bool {
    let u = c as u32;
    0x30 <= u && u <= 0x39
}

/// The ASCII letters; identifiers and keywords are made of these alone.
pub open spec fn is_alpha_char(c: char) -> bool {
    let u = c as u32;
    (0x41 <= u && u <= 0x5A) || (0x61 <= u && u <= 0x7A)
}

fn char_is_whitespace(c: char) -> (r: bool)
    ensures
        r == is_whitespace_char(c),
{
    let u = c as u32;
    u == 0x9 || u == 0xA || u == 0xB || u == 0xC || u == 0xD || u == 0x20 || u == 0x85
        || u == 0xA0 || u == 0x1680 || (0x2000 <= u && u <= 0x200A) || u == 0x2028 || u == 0x2029
        || u == 0x202F || u == 0x205F || u == 0x3000
}

fn char_is_digit(c: char) -> (r: bool)
    ensures
        r == is_digit_char(c),
{
    let u = c as u32;
    0x30 <= u && u <= 0x39
}

fn char_is_alpha(c: char) -> (r: bool)
    ensures
        r == is_alpha_char(c),
{
    let u = c as u32;
    (0x41 <= u && u <= 0x5A) || (0x61 <= u && u <= 0x7A)
}

/// The position one character after `p`: a newline starts the next line,
/// anything else advances one column.
pub open spec fn spec_advance(p: Position, c: char) -> Position {
    if c == '\n' {
        Position { line: (p.line + 1) as u64, col: 0 }
    } else {
        Position { line: p.line, col: (p.col + 1) as u64 }
    }
}

/// `p` advanced `n` columns within its line.
pub open spec fn pos_bump(p: Position, n: int) -> Position {
    Position { line: p.line, col: (p.col + n) as u64 }
}

/// The position reached from `p` after consuming the characters of `s` from
/// index `i` (inclusive) to `j` (exclusive).
pub open spec fn pos_after(s: Seq<char>, i: int, j: int, p: Position) -> Position
    decreases j - i,
{
    if i < j {
        pos_after(s, i + 1, j, spec_advance(p, s[i]))
    } else {
        p
    }
}

/// Consuming one more character extends `pos_after` on the right.
pub proof fn lemma_pos_after_step(s: Seq<char>, i: int, j: int, p: Position)
    requires
        i <= j,
    ensures
        pos_after(s, i, j + 1, p) == spec_advance(pos_after(s, i, j, p), s[j]),
    decreases j - i,
{
    if i < j {
        lemma_pos_after_step(s, i + 1, j, spec_advance(p, s[i]));
    } else {
        assert(pos_after(s, j + 1, j + 1, spec_advance(p, s[j])) == spec_advance(p, s[j]));
    }
}

/// End of the maximal run of whitespace starting at `i`.
pub open spec fn ws_end(s: Seq<char>, i: int) -> int
    decreases s.len() - i when 0 <= i <= s.len()
{
    if i < s.len() && is_whitespace_char(s[i]) {
        ws_end(s, i + 1)
    } else {
        i
    }
}

/// End of the maximal run of ASCII digits starting at `i`.
pub open spec fn digit_end(s: Seq<char>, i: int) -> int
    decreases s.len() - i when 0 <= i <= s.len()
{
    if i < s.len() && is_digit_char(s[i]) {
        digit_end(s, i + 1)
    } else {
        i
    }
}

/// End of the maximal run of ASCII letters starting at `i`.
pub open spec fn alpha_end(s: Seq<char>, i: int) -> int
    decreases s.len() - i when 0 <= i <= s.len()
{
    if i < s.len() && is_alpha_char(s[i]) {
        alpha_end(s, i + 1)
    } else {
        i
    }
}

/// Index of the first `"` at or after `i`, or the length of `s` if none.
pub open spec fn str_close(s: Seq<char>, i: int) -> int
    decreases s.len() - i when 0 <= i <= s.len()
{
    if i < s.len() && s[i] != '"' {
        str_close(s, i + 1)
    } else {
        i
    }
}

/// Index of the first newline at or after `i`, or the length of `s` if none.
pub open spec fn comment_end(s: Seq<char>, i: int) -> int
    decreases s.len() - i when 0 <= i <= s.len()
{
    if i < s.len() && s[i] != '\n' {
        comment_end(s, i + 1)
    } else {
        i
    }
}

/// What one raw scanning step at index `i`, position `p`, does: the token it
/// yields (none for a comment, an unknown character or an unterminated
/// string), the index and position where scanning resumes, and the diagnostic
/// it records, if any.
pub ghost struct RawScan {
    pub tok: Option<SpecToken>,
    pub next: int,
    pub pos: Position,
    pub diag: Option<LexingDiagnostic>,
}

/// A token of kind `typ` covering the single character at index `i`.
pub open spec fn raw_simple(typ: TokenType, i: int, p: Position) -> RawScan {
    RawScan {
        tok: Some(
            SpecToken { typ, lexeme: Seq::empty(), from: p, to: pos_bump(p, 1) },
        ),
        next: i + 1,
        pos: pos_bump(p, 1),
        diag: None,
    }
}

/// Maximal munch for `!`, `=`, `<`, `>`: the two-character kind if `=`
/// follows, else the one-character kind.
pub open spec fn raw_two(s: Seq<char>, i: int, p: Position, one: TokenType, two: TokenType) -> RawScan {
    if i + 1 < s.len() && s[i + 1] == '=' {
        RawScan {
            tok: Some(
                SpecToken { typ: two, lexeme: Seq::empty(), from: p, to: pos_bump(p, 2) },
            ),
            next: i + 2,
            pos: pos_bump(p, 2),
            diag: None,
        }
    } else {
        raw_simple(one, i, p)
    }
}

/// One raw scanning step of the lexer at index `i` (which must be in range)
/// and position `p`, following the scanning rules: single-character
/// punctuation; maximal munch for the two-character operators; `//` starts a
/// comment running to the next newline; a maximal whitespace run collapses
/// into one `WHITESPACE` token; a digit starts a numeric literal whose
/// decimal point is consumed only when a digit follows it; a letter starts a
/// keyword or identifier; `"` starts a string literal whose lexeme excludes
/// the quotes; anything else is skipped with a diagnostic.
pub open spec fn spec_scan_raw(s: Seq<char>, i: int, p: Position) -> RawScan {
    let c = s[i];
    if c == '(' {
        raw_simple(TokenType::LEFTPAREN, i, p)
    } else if c == ')' {
        raw_simple(TokenType::RIGHTPAREN, i, p)
    } else if c == '{' {
        raw_simple(TokenType::LEFTBRACE, i, p)
    } else if c == '}' {
        raw_simple(TokenType::RIGHTBRACE, i, p)
    } else if c == ',' {
        raw_simple(TokenType::COMMA, i, p)
    } else if c == '.' {
        raw_simple(TokenType::DOT, i, p)
    } else if c == '+' {
        raw_simple(TokenType::PLUS, i, p)
    } else if c == '-' {
        raw_simple(TokenType::MINUS, i, p)
    } else if c == ';' {
        raw_simple(TokenType::SEMICOLON, i, p)
    } else if c == '*' {
        raw_simple(TokenType::STAR, i, p)
    } else if c == '!' {
        raw_two(s, i, p, TokenType::BANG, TokenType::BANGEQUAL)
    } else if c == '=' {
        raw_two(s, i, p, TokenType::EQUAL, TokenType::EQUALEQUAL)
    } else if c == '<' {
        raw_two(s, i, p, TokenType::LESS, TokenType::LESSEQUAL)
    } else if c == '>' {
        raw_two(s, i, p, TokenType::GREATER, TokenType::GREATEREQUAL)
    } else if c == '/' {
        if i + 1 < s.len() && s[i + 1] == '/' {
            let j = comment_end(s, i + 2);
            RawScan { tok: None, next: j, pos: pos_bump(p, j - i), diag: None }
        } else {
            raw_simple(TokenType::SLASH, i, p)
        }
    } else if is_whitespace_char(c) {
        let j = ws_end(s, i + 1);
        let to = pos_after(s, i, j, p);
        RawScan {
            tok: Some(SpecToken { typ: TokenType::WHITESPACE, lexeme: Seq::empty(), from: p, to }),
            next: j,
            pos: to,
            diag: None,
        }
    } else if is_digit_char(c) {
        let j = digit_end(s, i + 1);
        let k = if j + 1 < s.len() && s[j] == '.' && is_digit_char(s[j + 1]) {
            digit_end(s, j + 1)
        } else {
            j
        };
        let to = pos_bump(p, k - i);
        RawScan {
            tok: Some(SpecToken { typ: TokenType::NUMBER, lexeme: s.subrange(i, k), from: p, to }),
            next: k,
            pos: to,
            diag: None,
        }
    } else if is_alpha_char(c) {
        let j = alpha_end(s, i + 1);
        let lex = s.subrange(i, j);
        let typ = match spec_keyword(lex) {
            Some(k) => k,
            None => TokenType::IDENTIFIER,
        };
        let to = pos_bump(p, j - i);
        RawScan {
            tok: Some(SpecToken { typ, lexeme: lex, from: p, to }),
            next: j,
            pos: to,
            diag: None,
        }
    } else if c == '"' {
        let j = str_close(s, i + 1);
        if j < s.len() {
            let to = pos_after(s, i, j + 1, p);
            RawScan {
                tok: Some(SpecToken { typ: TokenType::STRING, lexeme: s.subrange(i + 1, j), from: p, to }),
                next: j + 1,
                pos: to,
                diag: None,
            }
        } else {
            RawScan {
                tok: None,
                next: j,
                pos: pos_after(s, i, j, p),
                diag: Some(LexingDiagnostic::UnterminatedString { from: p }),
            }
        }
    } else {
        let p1 = spec_advance(p, c);
        RawScan { tok: None, next: i + 1, pos: p1, diag: Some(LexingDiagnostic::UnknownChar { at: p1 }) }
    }
}

/// The result of one `scan_token` call: raw scanning steps are repeated past
/// skipped input until a token is found or the source is exhausted.
pub ghost struct ScanResult {
    pub tok: Option<SpecToken>,
    pub next: int,
    pub pos: Position,
    pub diags: Seq<LexingDiagnostic>,
}

pub open spec fn diag_opt_seq(d: Option<LexingDiagnostic>) -> Seq<LexingDiagnostic> {
    match d {
        Some(x) => seq![x],
        None => Seq::empty(),
    }
}

/// The token produced by one `scan_token` call starting at index `i` and
/// position `p`, together with the state where scanning resumes and the
/// diagnostics recorded on the way. `None` means the source was exhausted
/// (possibly after skipping trailing comments, unknown characters or an
/// unterminated string literal).
pub open spec fn spec_scan(s: Seq<char>, i: int, p: Position) -> ScanResult
    decreases s.len() - i when 0 <= i <= s.len()
{
    if i >= s.len() {
        ScanResult { tok: None, next: i, pos: p, diags: Seq::empty() }
    } else {
        let r = spec_scan_raw(s, i, p);
        if r.tok is Some {
            ScanResult { tok: r.tok, next: r.next, pos: r.pos, diags: Seq::empty() }
        } else if i < r.next <= s.len() {
            let rest = spec_scan(s, r.next, r.pos);
            ScanResult {
                tok: rest.tok,
                next: rest.next,
                pos: rest.pos,
                diags: diag_opt_seq(r.diag) + rest.diags,
            }
        } else {
            // A raw step always consumes at least one character, so this
            // branch is never the meaning of any actual scan.
            ScanResult { tok: None, next: r.next, pos: r.pos, diags: diag_opt_seq(r.diag) }
        }
    }
}

/// The lexer: a cursor into the source text plus the position of the next
/// unread character, and the diagnostics recorded so far.
pub struct Lexer {
    source: String,
    /// Character length of `source`, cached.
    len: usize,
    /// Index of the next character to scan.
    idx: usize,
    position: Position,
    diagnostics: Vec<LexingDiagnostic>,
}

impl Lexer {
    /// The cursor stays within the source and the position cannot overflow:
    /// each remaining character advances the line or the column by at most
    /// one.
    pub closed spec fn wf(&self) -> bool {
        self.len == self.source@.len() && self.idx <= self.len && self.position.col + (self.len
            - self.idx) <= u64::MAX && self.position.line + (self.len - self.idx) <= u64::MAX
    }

    pub closed spec fn spec_source(&self) -> Seq<char> {
        self.source@
    }

    pub closed spec fn spec_idx(&self) -> int {
        self.idx as int
    }

    pub closed spec fn spec_position(&self) -> Position {
        self.position
    }

    pub closed spec fn spec_diagnostics(&self) -> Seq<LexingDiagnostic> {
        self.diagnostics@
    }

    /// A lexer at the start of `source`.
    pub fn new(source: String) -> (l: Lexer)
        ensures
            l.wf(),
            l.spec_source() == source@,
            l.spec_idx() == 0,
            l.spec_position() == (Position { line: 0, col: 0 }),
            l.spec_diagnostics() == Seq::<LexingDiagnostic>::empty(),
    {
        let len = source.as_str().unicode_len();
        Lexer {
            source,
            len,
            idx: 0,
            position: Position { line: 0, col: 0 },
            diagnostics: Vec::new(),
        }
    }

    /// The diagnostics recorded so far, in the order they were found.
    pub fn diagnostics(&self) -> (d: &Vec<LexingDiagnostic>)
        ensures
            d@ == self.spec_diagnostics(),
    {
        &self.diagnostics
    }

    /// Whether the whole source has been consumed.
    pub fn is_done(&self) -> (r: bool)
        requires
            self.wf(),
        ensures
            r == (self.spec_idx() == self.spec_source().len()),
    {
        self.idx >= self.len
    }

    /// The keyword kind whose spelling is exactly `s`, if any.
    pub fn identify_keyword(s: &str) -> (r: Option<TokenType>)
        ensures
            r == spec_keyword(s@),
    {
        if str_eq(s, "and") {
            Some(TokenType::AND)
        } else if str_eq(s, "class") {
            Some(TokenType::CLASS)
        } else if str_eq(s, "else") {
            Some(TokenType::ELSE)
        } else if str_eq(s, "false") {
            Some(TokenType::FALSE)
        } else if str_eq(s, "for") {
            Some(TokenType::FOR)
        } else if str_eq(s, "fun") {
            Some(TokenType::FUN)
        } else if str_eq(s, "if") {
            Some(TokenType::IF)
        } else if str_eq(s, "nil") {
            Some(TokenType::NIL)
        } else if str_eq(s, "or") {
            Some(TokenType::OR)
        } else if str_eq(s, "print") {
            Some(TokenType::PRINT)
        } else if str_eq(s, "return") {
            Some(TokenType::RETURN)
        } else if str_eq(s, "super") {
            Some(TokenType::SUPER)
        } else if str_eq(s, "this") {
            Some(TokenType::THIS)
        } else if str_eq(s, "true") {
            Some(TokenType::TRUE)
        } else if str_eq(s, "var") {
            Some(TokenType::VAR)
        } else if str_eq(s, "while") {
            Some(TokenType::WHILE)
        } else {
            None
        }
    }

    /// Consumes one character, updating the position.
    fn advance(&mut self) -> (c: char)
        requires
            old(self).wf(),
            old(self).spec_idx() < old(self).spec_source().len(),
        ensures
            final(self).wf(),
            final(self).source == old(self).source,
            final(self).len == old(self).len,
            final(self).diagnostics == old(self).diagnostics,
            c == old(self).spec_source()[old(self).spec_idx()],
            final(self).spec_idx() == old(self).spec_idx() + 1,
            final(self).position == spec_advance(old(self).position, c),
            pos_leq(old(self).position, final(self).position),
    {
        let c = self.source.as_str().get_char(self.idx);
        self.idx = self.idx + 1;
        if c == '\n' {
            self.position = self.position.brk();
        } else {
            self.position = self.position.bump(1);
        }
        c
    }

    /// Consumes the next character exactly when it equals `expected`.
    fn match_peek(&mut self, expected: char) -> (m: bool)
        requires
            old(self).wf(),
        ensures
            final(self).wf(),
            final(self).source == old(self).source,
            final(self).len == old(self).len,
            final(self).diagnostics == old(self).diagnostics,
            m == (old(self).spec_idx() < old(self).spec_source().len() && old(self).spec_source()[old(
                self,
            ).spec_idx()] == expected),
            m ==> final(self).spec_idx() == old(self).spec_idx() + 1 && final(self).position == spec_advance(
                old(self).position,
                expected,
            ),
            !m ==> *final(self) == *old(self),
            pos_leq(old(self).position, final(self).position),
    {
        if self.idx < self.len {
            let c = self.source.as_str().get_char(self.idx);
            if c == expected {
                let _ = self.advance();
                return true;
            }
        }
        false
    }

    fn peek_is_whitespace(&self) -> (r: bool)
        requires
            self.wf(),
        ensures
            r == (self.spec_idx() < self.spec_source().len() && is_whitespace_char(
                self.spec_source()[self.spec_idx()],
            )),
    {
        if self.idx < self.len {
            char_is_whitespace(self.source.as_str().get_char(self.idx))
        } else {
            false
        }
    }

    fn peek_is_digit(&self) -> (r: bool)
        requires
            self.wf(),
        ensures
            r == (self.spec_idx() < self.spec_source().len() && is_digit_char(
                self.spec_source()[self.spec_idx()],
            )),
    {
        if self.idx < self.len {
            char_is_digit(self.source.as_str().get_char(self.idx))
        } else {
            false
        }
    }

    fn peek_is_alpha(&self) -> (r: bool)
        requires
            self.wf(),
        ensures
            r == (self.spec_idx() < self.spec_source().len() && is_alpha_char(
                self.spec_source()[self.spec_idx()],
            )),
    {
        if self.idx < self.len {
            char_is_alpha(self.source.as_str().get_char(self.idx))
        } else {
            false
        }
    }

    fn peek_not_newline(&self) -> (r: bool)
        requires
            self.wf(),
        ensures
            r == (self.spec_idx() < self.spec_source().len() && self.spec_source()[self.spec_idx()]
                != '\n'),
    {
        if self.idx < self.len {
            self.source.as_str().get_char(self.idx) != '\n'
        } else {
            false
        }
    }

    fn peek_not_quote(&self) -> (r: bool)
        requires
            self.wf(),
        ensures
            r == (self.spec_idx() < self.spec_source().len() && self.spec_source()[self.spec_idx()]
                != '"'),
    {
        if self.idx < self.len {
            self.source.as_str().get_char(self.idx) != '"'
        } else {
            false
        }
    }

    /// Is the next character a `.` (without consuming it)?
    fn peek_is_dot(&self) -> (r: bool)
        requires
            self.wf(),
        ensures
            r == (self.spec_idx() < self.spec_source().len() && self.spec_source()[self.spec_idx()]
                == '.'),
    {
        if self.idx < self.len {
            self.source.as_str().get_char(self.idx) == '.'
        } else {
            false
        }
    }

    /// Is the character after the next one a digit (two-character lookahead)?
    fn peek2_is_digit(&self) -> (r: bool)
        requires
            self.wf(),
        ensures
            r == (self.spec_idx() + 1 < self.spec_source().len() && is_digit_char(
                self.spec_source()[self.spec_idx() + 1],
            )),
    {
        if self.idx < self.len && self.idx + 1 < self.len {
            char_is_digit(self.source.as_str().get_char(self.idx + 1))
        } else {
            false
        }
    }

    /// Consumes the maximal run of ASCII digits at the cursor.
    fn eat_digits(&mut self)
        requires
            old(self).wf(),
        ensures
            final(self).wf(),
            final(self).source == old(self).source,
            final(self).len == old(self).len,
            final(self).diagnostics == old(self).diagnostics,
            old(self).spec_idx() <= final(self).spec_idx(),
            final(self).spec_idx() == digit_end(old(self).spec_source(), old(self).spec_idx()),
            final(self).position == pos_bump(old(self).position, final(self).spec_idx() - old(self).spec_idx()),
            pos_leq(old(self).position, final(self).position),
    {
        while self.peek_is_digit()
            invariant
                self.wf(),
                self.source == old(self).source,
                self.len == old(self).len,
                self.diagnostics == old(self).diagnostics,
                old(self).spec_idx() <= self.spec_idx(),
                digit_end(self.spec_source(), old(self).spec_idx()) == digit_end(
                    self.spec_source(),
                    self.spec_idx(),
                ),
                self.position == pos_bump(old(self).position, self.spec_idx() - old(self).spec_idx()),
                old(self).position.col + (self.spec_idx() - old(self).spec_idx()) <= u64::MAX,
            decreases self.spec_source().len() - self.spec_idx(),
        {
            let c = self.advance();
            proof {
                assert(c != '\n');
            }
        }
    }

    /// Consumes the maximal run of ASCII letters at the cursor.
    fn eat_alpha(&mut self)
        requires
            old(self).wf(),
        ensures
            final(self).wf(),
            final(self).source == old(self).source,
            final(self).len == old(self).len,
            final(self).diagnostics == old(self).diagnostics,
            old(self).spec_idx() <= final(self).spec_idx(),
            final(self).spec_idx() == alpha_end(old(self).spec_source(), old(self).spec_idx()),
            final(self).position == pos_bump(old(self).position, final(self).spec_idx() - old(self).spec_idx()),
            pos_leq(old(self).position, final(self).position),
    {
        while self.peek_is_alpha()
            invariant
                self.wf(),
                self.source == old(self).source,
                self.len == old(self).len,
                self.diagnostics == old(self).diagnostics,
                old(self).spec_idx() <= self.spec_idx(),
                alpha_end(self.spec_source(), old(self).spec_idx()) == alpha_end(
                    self.spec_source(),
                    self.spec_idx(),
                ),
                self.position == pos_bump(old(self).position, self.spec_idx() - old(self).spec_idx()),
                old(self).position.col + (self.spec_idx() - old(self).spec_idx()) <= u64::MAX,
            decreases self.spec_source().len() - self.spec_idx(),
        {
            let c = self.advance();
            proof {
                assert(c != '\n');
            }
        }
    }

    /// Consumes everything up to (not including) the next newline.
    fn eat_comment(&mut self)
        requires
            old(self).wf(),
        ensures
            final(self).wf(),
            final(self).source == old(self).source,
            final(self).len == old(self).len,
            final(self).diagnostics == old(self).diagnostics,
            old(self).spec_idx() <= final(self).spec_idx(),
            final(self).spec_idx() == comment_end(old(self).spec_source(), old(self).spec_idx()),
            final(self).position == pos_bump(old(self).position, final(self).spec_idx() - old(self).spec_idx()),
            pos_leq(old(self).position, final(self).position),
    {
        while self.peek_not_newline()
            invariant
                self.wf(),
                self.source == old(self).source,
                self.len == old(self).len,
                self.diagnostics == old(self).diagnostics,
                old(self).spec_idx() <= self.spec_idx(),
                comment_end(self.spec_source(), old(self).spec_idx()) == comment_end(
                    self.spec_source(),
                    self.spec_idx(),
                ),
                self.position == pos_bump(old(self).position, self.spec_idx() - old(self).spec_idx()),
                old(self).position.col + (self.spec_idx() - old(self).spec_idx()) <= u64::MAX,
            decreases self.spec_source().len() - self.spec_idx(),
        {
            let c = self.advance();
            proof {
                assert(c != '\n');
            }
        }
    }

    /// Consumes the maximal run of whitespace at the cursor.
    fn eat_whitespace(&mut self)
        requires
            old(self).wf(),
        ensures
            final(self).wf(),
            final(self).source == old(self).source,
            final(self).len == old(self).len,
            final(self).diagnostics == old(self).diagnostics,
            old(self).spec_idx() <= final(self).spec_idx(),
            final(self).spec_idx() == ws_end(old(self).spec_source(), old(self).spec_idx()),
            final(self).position == pos_after(
                old(self).spec_source(),
                old(self).spec_idx(),
                final(self).spec_idx(),
                old(self).position,
            ),
            pos_leq(old(self).position, final(self).position),
    {
        while self.peek_is_whitespace()
            invariant
                self.wf(),
                self.source == old(self).source,
                self.len == old(self).len,
                self.diagnostics == old(self).diagnostics,
                old(self).spec_idx() <= self.spec_idx(),
                ws_end(self.spec_source(), old(self).spec_idx()) == ws_end(
                    self.spec_source(),
                    self.spec_idx(),
                ),
                self.position == pos_after(
                    self.spec_source(),
                    old(self).spec_idx(),
                    self.spec_idx(),
                    old(self).position,
                ),
                pos_leq(old(self).position, self.position),
            decreases self.spec_source().len() - self.spec_idx(),
        {
            proof {
                lemma_pos_after_step(
                    self.spec_source(),
                    old(self).spec_idx(),
                    self.spec_idx(),
                    old(self).position,
                );
            }
            let _ = self.advance();
        }
    }

    /// Consumes everything up to (not including) the next `"`.
    fn eat_string_body(&mut self)
        requires
            old(self).wf(),
        ensures
            final(self).wf(),
            final(self).source == old(self).source,
            final(self).len == old(self).len,
            final(self).diagnostics == old(self).diagnostics,
            old(self).spec_idx() <= final(self).spec_idx(),
            final(self).spec_idx() == str_close(old(self).spec_source(), old(self).spec_idx()),
            final(self).position == pos_after(
                old(self).spec_source(),
                old(self).spec_idx(),
                final(self).spec_idx(),
                old(self).position,
            ),
            pos_leq(old(self).position, final(self).position),
    {
        while self.peek_not_quote()
            invariant
                self.wf(),
                self.source == old(self).source,
                self.len == old(self).len,
                self.diagnostics == old(self).diagnostics,
                old(self).spec_idx() <= self.spec_idx(),
                str_close(self.spec_source(), old(self).spec_idx()) == str_close(
                    self.spec_source(),
                    self.spec_idx(),
                ),
                self.position == pos_after(
                    self.spec_source(),
                    old(self).spec_idx(),
                    self.spec_idx(),
                    old(self).position,
                ),
                pos_leq(old(self).position, self.position),
            decreases self.spec_source().len() - self.spec_idx(),
        {
            proof {
                lemma_pos_after_step(
                    self.spec_source(),
                    old(self).spec_idx(),
                    self.spec_idx(),
                    old(self).position,
                );
            }
            let _ = self.advance();
        }
    }

    /// A token of kind `typ` with an empty lexeme, from `from` to the cursor.
    fn simple_token(&self, typ: TokenType, from: Position) -> (t: Token)
        ensures
            t@ == (SpecToken { typ, lexeme: Seq::<char>::empty(), from, to: self.position }),
    {
        Token { typ, lexeme: String::new(), from_pos: from, to_pos: self.position }
    }

    /// One raw scanning step: consumes one lexical item and returns its
    /// token, or skips a comment, an unknown character or an unterminated
    /// string (recording a diagnostic for the latter two) and returns none.
    fn scan_raw(&mut self) -> (t: Option<Token>)
        requires
            old(self).wf(),
            old(self).spec_idx() < old(self).spec_source().len(),
        ensures
            final(self).wf(),
            final(self).source == old(self).source,
            final(self).len == old(self).len,
            ({
                let r = spec_scan_raw(old(self).spec_source(), old(self).spec_idx(), old(self).position);
                &&& final(self).spec_idx() == r.next
                &&& final(self).position == r.pos
                &&& match r.diag {
                    None => final(self).diagnostics == old(self).diagnostics,
                    Some(d) => final(self).diagnostics@ == old(self).diagnostics@.push(d),
                }
                &&& match (t, r.tok) {
                    (Some(a), Some(b)) => a@ == b,
                    (None, None) => true,
                    _ => false,
                }
            }),
            old(self).spec_idx() < final(self).spec_idx(),
            pos_leq(old(self).position, final(self).position),
    {
        let ghost s = self.source@;
        let ghost i0 = self.idx as int;
        let ghost p0 = self.position;
        let init_pos = self.position;
        let start_idx = self.idx;
        let c = self.advance();
        if c == '(' {
            Some(self.simple_token(TokenType::LEFTPAREN, init_pos))
        } else if c == ')' {
            Some(self.simple_token(TokenType::RIGHTPAREN, init_pos))
        } else if c == '{' {
            Some(self.simple_token(TokenType::LEFTBRACE, init_pos))
        } else if c == '}' {
            Some(self.simple_token(TokenType::RIGHTBRACE, init_pos))
        } else if c == ',' {
            Some(self.simple_token(TokenType::COMMA, init_pos))
        } else if c == '.' {
            Some(self.simple_token(TokenType::DOT, init_pos))
        } else if c == '+' {
            Some(self.simple_token(TokenType::PLUS, init_pos))
        } else if c == '-' {
            Some(self.simple_token(TokenType::MINUS, init_pos))
        } else if c == ';' {
            Some(self.simple_token(TokenType::SEMICOLON, init_pos))
        } else if c == '*' {
            Some(self.simple_token(TokenType::STAR, init_pos))
        } else if c == '!' {
            if self.match_peek('=') {
                Some(self.simple_token(TokenType::BANGEQUAL, init_pos))
            } else {
                Some(self.simple_token(TokenType::BANG, init_pos))
            }
        } else if c == '=' {
            if self.match_peek('=') {
                Some(self.simple_token(TokenType::EQUALEQUAL, init_pos))
            } else {
                Some(self.simple_token(TokenType::EQUAL, init_pos))
            }
        } else if c == '<' {
            if self.match_peek('=') {
                Some(self.simple_token(TokenType::LESSEQUAL, init_pos))
            } else {
                Some(self.simple_token(TokenType::LESS, init_pos))
            }
        } else if c == '>' {
            if self.match_peek('=') {
                Some(self.simple_token(TokenType::GREATEREQUAL, init_pos))
            } else {
                Some(self.simple_token(TokenType::GREATER, init_pos))
            }
        } else if c == '/' {
            if self.match_peek('/') {
                self.eat_comment();
                None
            } else {
                Some(self.simple_token(TokenType::SLASH, init_pos))
            }
        } else if char_is_whitespace(c) {
            self.eat_whitespace();
            proof {
                lemma_pos_after_step(s, i0, i0, p0);
            }
            Some(self.simple_token(TokenType::WHITESPACE, init_pos))
        } else if char_is_digit(c) {
            self.eat_digits();
            let dot = self.peek_is_dot();
            let dotdigit = dot && self.peek2_is_digit();
            if dotdigit {
                let _ = self.advance();
                self.eat_digits();
            }
            let lexeme = self.source.as_str().substring_char(start_idx, self.idx).to_owned();
            Some(Token { typ: TokenType::NUMBER, lexeme, from_pos: init_pos, to_pos: self.position })
        } else if char_is_alpha(c) {
            self.eat_alpha();
            let w = self.source.as_str().substring_char(start_idx, self.idx);
            let typ = match Lexer::identify_keyword(w) {
                Some(k) => k,
                None => TokenType::IDENTIFIER,
            };
            let lexeme = w.to_owned();
            Some(Token { typ, lexeme, from_pos: init_pos, to_pos: self.position })
        } else if c == '"' {
            proof {
                lemma_pos_after_step(s, i0, i0, p0);
            }
            self.eat_string_body();
            if self.idx < self.len {
                let content = self.source.as_str().substring_char(start_idx + 1, self.idx).to_owned();
                proof {
                    lemma_pos_after_step(s, i0, self.spec_idx(), p0);
                }
                let _ = self.advance();
                Some(
                    Token {
                        typ: TokenType::STRING,
                        lexeme: content,
                        from_pos: init_pos,
                        to_pos: self.position,
                    },
                )
            } else {
                self.diagnostics.push(LexingDiagnostic::UnterminatedString { from: init_pos });
                None
            }
        } else {
            self.diagnostics.push(LexingDiagnostic::UnknownChar { at: self.position });
            None
        }
    }

    /// Scans the next token. Returns `None` exactly when the source is
    /// exhausted (possibly after skipping trailing comments, unknown
    /// characters or an unterminated string literal); see [`spec_scan`].
    ///
    /// Token spans are non-decreasing: every returned token starts at or
    /// after the position where this call began and ends exactly where the
    /// cursor stops, so the spans of successive tokens never move backwards.
    pub fn scan_token(&mut self) -> (t: Option<Token>)
        requires
            old(self).wf(),
        ensures
            final(self).wf(),
            final(self).spec_source() == old(self).spec_source(),
            ({
                let sc = spec_scan(
                    old(self).spec_source(),
                    old(self).spec_idx(),
                    old(self).spec_position(),
                );
                &&& final(self).spec_idx() == sc.next
                &&& final(self).spec_position() == sc.pos
                &&& final(self).spec_diagnostics() == old(self).spec_diagnostics() + sc.diags
                &&& match (t, sc.tok) {
                    (Some(a), Some(b)) => a@ == b,
                    (None, None) => true,
                    _ => false,
                }
            }),
            pos_leq(old(self).spec_position(), final(self).spec_position()),
            t matches Some(tok) ==> pos_leq(old(self).spec_position(), tok.from_pos) && pos_leq(
                tok.from_pos,
                tok.to_pos,
            ) && tok.to_pos == final(self).spec_position(),
    {
        let ghost s = self.source@;
        let ghost i0 = self.idx as int;
        let ghost p0 = self.position;
        let ghost d0 = self.diagnostics@;
        loop
            invariant
                self.wf(),
                self.source == old(self).source,
                self.len == old(self).len,
                s == self.source@,
                i0 == old(self).spec_idx(),
                p0 == old(self).position,
                d0 == old(self).diagnostics@,
                i0 <= self.spec_idx() <= s.len(),
                pos_leq(p0, self.position),
                spec_scan(s, i0, p0).tok == spec_scan(s, self.spec_idx(), self.position).tok,
                spec_scan(s, i0, p0).next == spec_scan(s, self.spec_idx(), self.position).next,
                spec_scan(s, i0, p0).pos == spec_scan(s, self.spec_idx(), self.position).pos,
                d0 + spec_scan(s, i0, p0).diags == self.diagnostics@ + spec_scan(
                    s,
                    self.spec_idx(),
                    self.position,
                ).diags,
            decreases s.len() - self.spec_idx(),
        {
            if self.idx >= self.len {
                proof {
                    assert(self.diagnostics@ + spec_scan(s, self.spec_idx(), self.position).diags
                        =~= self.diagnostics@);
                    assert(d0 + spec_scan(s, i0, p0).diags =~= self.diagnostics@);
                }
                return None;
            }
            let ghost pre = *self;
            let t = self.scan_raw();
            proof {
                let r = spec_scan_raw(s, pre.spec_idx(), pre.position);
                let sc_pre = spec_scan(s, pre.spec_idx(), pre.position);
                if r.tok is Some {
                    assert(sc_pre.diags =~= Seq::<LexingDiagnostic>::empty());
                    assert(pre.diagnostics@ + sc_pre.diags =~= pre.diagnostics@);
                } else {
                    let rest = spec_scan(s, r.next, r.pos);
                    assert(sc_pre.diags == diag_opt_seq(r.diag) + rest.diags);
                    assert(pre.diagnostics@ + sc_pre.diags =~= self.diagnostics@ + rest.diags);
                    assert(d0 + spec_scan(s, i0, p0).diags =~= self.diagnostics@ + rest.diags);
                }
            }
            match t {
                Some(tok) => {
                    proof {
                        assert(d0 + spec_scan(s, i0, p0).diags =~= self.diagnostics@);
                    }
                    return Some(tok);
                },
                None => {
                },
            }
        }
    }
}

/// Character-for-character string equality.
fn str_eq(a: &str, b: &str) -> (r: bool)
    ensures
        r == (a@ == b@),
{
    let n = a.unicode_len();
    let m = b.unicode_len();
    if n != m {
        return false;
    }
    let mut i: usize = 0;
    while i < n
        invariant
            0 <= i <= n,
            n == a@.len(),
            n == b@.len(),
            forall|j: int| 0 <= j < i ==> a@[j] == b@[j],
        decreases n - i,
    {
        if a.get_char(i) != b.get_char(i) {
            return false;
        }
        i = i + 1;
    }
    proof {
        assert(a@ =~= b@);
    }
    true
}

} // verus!
