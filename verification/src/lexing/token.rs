//! The token model: a closed set of token kinds, each carrying its matched
//! lexeme and the positions it spans.

use crate::position::Position;
use vstd::prelude::*;

verus! {

/// The kind of a lexical token.
#[allow(clippy::upper_case_acronyms)]
#[derive(Clone, Copy, Debug, PartialEq, Eq, Structural)]
pub enum TokenType {
    // Single-character tokens.
    LEFTPAREN,
    RIGHTPAREN,
    LEFTBRACE,
    RIGHTBRACE,
    COMMA,
    DOT,
    MINUS,
    PLUS,
    SEMICOLON,
    SLASH,
    STAR,
    // One or two character tokens.
    BANG,
    BANGEQUAL,
    EQUAL,
    EQUALEQUAL,
    GREATER,
    GREATEREQUAL,
    LESS,
    LESSEQUAL,
    // Literals.
    IDENTIFIER,
    STRING,
    NUMBER,
    // Keywords.
    AND,
    CLASS,
    ELSE,
    FALSE,
    FUN,
    FOR,
    IF,
    NIL,
    OR,
    PRINT,
    RETURN,
    SUPER,
    THIS,
    TRUE,
    VAR,
    WHILE,
    // A maximal run of whitespace, kept as a token so that a caller may
    // filter it; the parser always works on a filtered stream.
    WHITESPACE,
    EOF,
}

/// A classified, positioned lexical unit. `lexeme` carries the matched text
/// for literal-like tokens and is empty for punctuation, operators and
/// whitespace; `from_pos` is the position of the token's first character and
/// `to_pos` the position just past its last character.
#[derive(Debug, PartialEq)]
pub struct Token {
    pub typ: TokenType,
    pub lexeme: String,
    pub from_pos: Position,
    pub to_pos: Position,
}

/// The mathematical image of a token: the same data with the lexeme as a
/// character sequence.
pub ghost struct SpecToken {
    pub typ: TokenType,
    pub lexeme: Seq<char>,
    pub from: Position,
    pub to: Position,
}

impl View for Token {
    type V = SpecToken;

    open spec fn view(&self) -> SpecToken {
        SpecToken { typ: self.typ, lexeme: self.lexeme@, from: self.from_pos, to: self.to_pos }
    }
}

impl Clone for Token {
    fn clone(&self) -> (res: Token)
        ensures
            res == *self,
    {
        Token {
            typ: self.typ,
            lexeme: self.lexeme.clone(),
            from_pos: self.from_pos,
            to_pos: self.to_pos,
        }
    }
}

/// The token sequence with every `WHITESPACE` token removed, order kept.
pub open spec fn spec_filter_whitespace(s: Seq<Token>) -> Seq<Token>
    decreases s.len(),
{
    if s.len() == 0 {
        Seq::empty()
    } else {
        let rest = spec_filter_whitespace(s.drop_last());
        if s.last().typ == TokenType::WHITESPACE {
            rest
        } else {
            rest.push(s.last())
        }
    }
}

/// Whitespace filtering is idempotent: filtering an already-filtered token
/// sequence changes nothing, so however many whitespace runs stood between
/// the meaningful tokens, one filtering pass hands the parser the same
/// stream.
pub proof fn lemma_whitespace_filtering_idempotent(s: Seq<Token>)
    ensures
        spec_filter_whitespace(spec_filter_whitespace(s)) == spec_filter_whitespace(s),
    decreases s.len(),
{
    if s.len() > 0 {
        lemma_whitespace_filtering_idempotent(s.drop_last());
        let u = spec_filter_whitespace(s.drop_last());
        if s.last().typ != TokenType::WHITESPACE {
            assert((u.push(s.last())).drop_last() =~= u);
            assert((u.push(s.last())).last() == s.last());
        }
    }
}

/// Removes the whitespace tokens; the parser always runs on the result.
pub fn filter_whitespace(tokens: &Vec<Token>) -> (r: Vec<Token>)
    ensures
        r@ == spec_filter_whitespace(tokens@),
{
    let mut out: Vec<Token> = Vec::new();
    let mut i: usize = 0;
    while i < tokens.len()
        invariant
            0 <= i <= tokens@.len(),
            out@ == spec_filter_whitespace(tokens@.subrange(0, i as int)),
        decreases tokens@.len() - i,
    {
        proof {
            assert(tokens@.subrange(0, i + 1).drop_last() =~= tokens@.subrange(0, i as int));
            assert(tokens@.subrange(0, i + 1).last() == tokens@[i as int]);
        }
        let t = tokens[i].clone();
        if !(t.typ == TokenType::WHITESPACE) {
            out.push(t);
        }
        i = i + 1;
    }
    proof {
        assert(tokens@.subrange(0, tokens@.len() as int) =~= tokens@);
    }
    out
}

/// The keyword kind whose spelling is exactly `s`, if any.
pub open spec fn spec_keyword(s: Seq<char>) -> Option<TokenType> {
    if s == "and"@ {
        Some(TokenType::AND)
    } else if s == "class"@ {
        Some(TokenType::CLASS)
    } else if s == "else"@ {
        Some(TokenType::ELSE)
    } else if s == "false"@ {
        Some(TokenType::FALSE)
    } else if s == "for"@ {
        Some(TokenType::FOR)
    } else if s == "fun"@ {
        Some(TokenType::FUN)
    } else if s == "if"@ {
        Some(TokenType::IF)
    } else if s == "nil"@ {
        Some(TokenType::NIL)
    } else if s == "or"@ {
        Some(TokenType::OR)
    } else if s == "print"@ {
        Some(TokenType::PRINT)
    } else if s == "return"@ {
        Some(TokenType::RETURN)
    } else if s == "super"@ {
        Some(TokenType::SUPER)
    } else if s == "this"@ {
        Some(TokenType::THIS)
    } else if s == "true"@ {
        Some(TokenType::TRUE)
    } else if s == "var"@ {
        Some(TokenType::VAR)
    } else if s == "while"@ {
        Some(TokenType::WHILE)
    } else {
        None
    }
}

} // verus!
