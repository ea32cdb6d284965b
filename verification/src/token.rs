//! Tokens as the lexer hands them over, and the source ranges they cover.

use vstd::prelude::*;

verus! {

/// A half-open range of offsets into the source text.
#[derive(Clone, Copy, Debug, PartialEq, Eq, Structural, Hash)]
pub struct TextRange {
    pub start: usize,
    pub end: usize,
}

impl TextRange {
    pub fn new(start: usize, end: usize) -> (r: TextRange)
        ensures
            r == (TextRange { start, end }),
    {
        TextRange { start, end }
    }

    /// The empty range at `offset`.
    pub fn empty_at(offset: usize) -> (r: TextRange)
        ensures
            r == (TextRange { start: offset, end: offset }),
    {
        TextRange { start: offset, end: offset }
    }
}

/// One token: its kind, where it stands, its text, and whether a line break
/// separates it from the token before it.
#[derive(Debug)]
pub struct Token {
    pub kind: crate::syntax_kind::SyntaxKind,
    pub range: TextRange,
    pub text: String,
    pub after_newline: bool,
}

impl Token {
    pub fn new(
        kind: crate::syntax_kind::SyntaxKind,
        range: TextRange,
        text: String,
        after_newline: bool,
    ) -> (t: Token)
        ensures
            t == (Token { kind, range, text, after_newline }),
    {
        Token { kind, range, text, after_newline }
    }
}

/// Whether two string slices hold the same characters.
pub fn str_eq(a: &str, b: &str) -> (r: bool)
    ensures
        r == (a@ == b@),
{
    let x = String::from_str(a);
    let y = String::from_str(b);
    x == y
}

} // verus!
