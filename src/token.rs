//! Tokens produced by the scanner.
use vstd::prelude::*;

verus! {

/// A lexeme: its kind and where it stands in the source.
#[derive(Debug, Clone, Copy, PartialEq, Eq, Structural)]
pub struct Token {
    pub t_type: TokenType,
    /// Offset of the first byte in the source.
    pub start: usize,
    /// Number of bytes.
    pub len: usize,
    /// Source line, counted from 1.
    pub line: usize,
}

impl Token {
    pub fn new(t_type: TokenType, start: usize, len: usize, line: usize) -> (r: Token)
        ensures
            r == (Token { t_type, start, len, line }),
    {
        Token { t_type, start, len, line }
    }

    pub fn line(&self) -> (r: usize)
        ensures
            r == self.line,
    {
        self.line
    }

    pub fn start(&self) -> (r: usize)
        ensures
            r == self.start,
    {
        self.start
    }

    pub fn t_type(&self) -> (r: &TokenType)
        ensures
            *r == self.t_type,
    {
        &self.t_type
    }

    /// Offset just past the last byte, saturating at the largest offset.
    pub fn end(&self) -> (r: usize)
        ensures
            r == if self.start + self.len > usize::MAX {
                usize::MAX as int
            } else {
                self.start + self.len
            },
    {
        self.start.saturating_add(self.len)
    }
}

impl Default for Token {
    fn default() -> (r: Token)
        ensures
            r == (Token { t_type: TokenType::Eof, start: 0, len: 0, line: 0 }),
    {
        Token { t_type: TokenType::Eof, start: 0, len: 0, line: 0 }
    }
}

/// The kind of a token.
#[derive(Debug, Clone, Copy, PartialEq, Eq, Structural)]
pub enum TokenType {
    SingleChar(SingleChar),
    Comparison(Comparison),
    Literal(Literal),
    Keyword(Keyword),
    /// A raw byte, for debugging.
    DebugByte(u8),
    Ident,
    Ignored,
    Eof,
}

impl Default for TokenType {
    fn default() -> (r: TokenType)
        ensures
            r == TokenType::Eof,
    {
        TokenType::Eof
    }
}

#[derive(Debug, Clone, Copy, PartialEq, Eq, Structural)]
pub enum SingleChar {
    LeftParen,
    RightParen,
    LeftBrace,
    RightBrace,
    Comma,
    Dot,
    Minus,
    Plus,
    SemiColon,
    Colon,
    Slash,
    Star,
    Bang,
    Question,
    Equal,
}

#[derive(Debug, Clone, Copy, PartialEq, Eq, Structural)]
pub enum Comparison {
    BangEqual,
    EqualEqual,
    Greater,
    GreaterEqual,
    Less,
    LessEqual,
}

#[derive(Debug, Clone, Copy, PartialEq, Eq, Structural)]
pub enum Literal {
    LitString,
    Number,
}

#[derive(Debug, Clone, Copy, PartialEq, Eq, Structural)]
pub enum Keyword {
    And,
    Or,
    Not,
    Class,
    Fun,
    If,
    Else,
    While,
    For,
    True,
    False,
    Nil,
    Var,
    Print,
    Return,
    ClassSelf,
    Super,
}

} // verus!
