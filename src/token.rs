//! Tokens produced by the scanner and consumed by the parser.
use vstd::prelude::*;

verus! {

/// A literal's payload.
#[derive(Debug, PartialEq, Clone)]
pub enum Lit {
    Integer(i64),
    String(String),
}

/// A reserved word.
#[derive(Debug, PartialEq, Eq, Structural, Clone, Copy)]
pub enum Keyword {
    Class,
    Fun,
    Var,
    Slf,
}

/// A structural symbol (reserved; carries nothing yet).
#[derive(Debug, PartialEq, Eq, Structural, Clone, Copy)]
pub struct Symbol {}

#[derive(Debug, PartialEq, Clone)]
pub enum TokenKind {
    /// +
    Plus,
    /// -
    Hypen,
    /// *
    Star,
    /// /
    BackSlash,
    /// %
    Modulo,
    /// .
    Dot,
    /// ~
    Tilde,
    /// !
    Bang,
    /// ,
    Comma,
    /// =
    Assign,
    /// (
    LParen,
    /// )
    RParen,
    /// [
    LBracket,
    /// ]
    RBracket,
    /// {
    LBrace,
    /// }
    RBrace,
    Literal(Lit),
    Ident(String),
    Keyword(Keyword),
    /// a line break
    Newline,
    /// text the scanner does not recognise (an unknown character, or an
    /// integer too large for 64 bits)
    Invalid(String),
    /// end of input
    Eof,
}

#[derive(Debug, PartialEq, Clone)]
pub struct Token {
    pub kind: TokenKind,
}

impl Token {
    pub fn new(kind: TokenKind) -> (r: Token)
        ensures
            r.kind == kind,
    {
        Self { kind }
    }

    pub fn literal(lit: Lit) -> (r: Token)
        ensures
            r.kind == TokenKind::Literal(lit),
    {
        Self { kind: TokenKind::Literal(lit) }
    }
}

} // verus!
