//! Line/column coordinates used to stamp tokens, syntax-tree nodes and
//! diagnostics with their source location.

use vstd::prelude::*;
use vstd::string::StrSliceExecFns;
use vstd::string::StringExecFns;

verus! {

/// A zero-based (line, column) coordinate in the source text.
#[derive(Clone, Copy, Debug, PartialEq, Eq, Structural)]
pub struct Position {
    pub line: u64,
    pub col: u64,
}

/// Order on positions as the lexer produces them: first by line, then by
/// column.
pub open spec fn pos_leq(a: Position, b: Position) -> bool {
    a.line < b.line || (a.line == b.line && a.col <= b.col)
}

/// The decimal digit `d` as a character; `d` must be below ten.
pub open spec fn digit_char(d: nat) -> char {
    if d == 0 {
        '0'
    } else if d == 1 {
        '1'
    } else if d == 2 {
        '2'
    } else if d == 3 {
        '3'
    } else if d == 4 {
        '4'
    } else if d == 5 {
        '5'
    } else if d == 6 {
        '6'
    } else if d == 7 {
        '7'
    } else if d == 8 {
        '8'
    } else {
        '9'
    }
}

/// The usual decimal rendering of `n`, without leading zeros (except for
/// `n == 0` itself, rendered as the single digit `0`).
pub open spec fn dec_seq(n: nat) -> Seq<char>
    decreases n,
{
    if n < 10 {
        seq![digit_char(n)]
    } else {
        dec_seq(n / 10) + seq![digit_char(n % 10)]
    }
}

/// The single decimal digit `d` as a string slice.
fn digit_str(d: u64) -> (s: &'static str)
    requires
        d < 10,
    ensures
        s@ == seq![digit_char(d as nat)],
{
    proof {
        reveal_strlit("0");
        reveal_strlit("1");
        reveal_strlit("2");
        reveal_strlit("3");
        reveal_strlit("4");
        reveal_strlit("5");
        reveal_strlit("6");
        reveal_strlit("7");
        reveal_strlit("8");
        reveal_strlit("9");
    }
    let s: &'static str = if d == 0 {
        "0"
    } else if d == 1 {
        "1"
    } else if d == 2 {
        "2"
    } else if d == 3 {
        "3"
    } else if d == 4 {
        "4"
    } else if d == 5 {
        "5"
    } else if d == 6 {
        "6"
    } else if d == 7 {
        "7"
    } else if d == 8 {
        "8"
    } else {
        "9"
    };
    proof {
        assert(s@ =~= seq![digit_char(d as nat)]);
    }
    s
}

/// Renders `n` in decimal.
fn u64_string(n: u64) -> (s: String)
    ensures
        s@ == dec_seq(n as nat),
    decreases n,
{
    if n < 10 {
        digit_str(n).to_owned()
    } else {
        let q = n / 10;
        let r = n % 10;
        let s = u64_string(q).concat(digit_str(r));
        proof {
            assert(s@ =~= dec_seq(n as nat));
        }
        s
    }
}

impl Position {
    /// The origin of a source text: line zero, column zero.
    pub fn default() -> (p: Position)
        ensures
            p == (Position { line: 0, col: 0 }),
    {
        Position { line: 0, col: 0 }
    }

    /// Advances `n` columns within the current line.
    pub fn bump(self, n: u64) -> (p: Position)
        requires
            self.col + n <= u64::MAX,
        ensures
            p == (Position { line: self.line, col: (self.col + n) as u64 }),
    {
        Position { line: self.line, col: self.col + n }
    }

    /// Advances to the start of the next line.
    pub fn brk(self) -> (p: Position)
        requires
            self.line + 1 <= u64::MAX,
        ensures
            p == (Position { line: (self.line + 1) as u64, col: 0 }),
    {
        Position { line: self.line + 1, col: 0 }
    }

    /// Renders the position as `line:col`, both in decimal.
    pub fn pretty_print(self) -> (s: String)
        ensures
            s@ == dec_seq(self.line as nat) + seq![':'] + dec_seq(self.col as nat),
    {
        proof {
            reveal_strlit(":");
        }
        let line_s = u64_string(self.line);
        let col_s = u64_string(self.col);
        let s = line_s.concat(":").concat(col_s.as_str());
        proof {
            assert(s@ =~= dec_seq(self.line as nat) + seq![':'] + dec_seq(self.col as nat));
        }
        s
    }
}

} // verus!
