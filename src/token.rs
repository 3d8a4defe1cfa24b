use vstd::prelude::*;

use crate::value::Value;

verus! {

#[derive(Clone, Copy, Debug, PartialEq, Eq, Structural)]
pub enum TokenType {
    LeftParen,
    RightParen,
    LeftBrace,
    RightBrace,
    Comma,
    Dot,
    Minus,
    Plus,
    Semicolon,
    Slash,
    Star,
    Bang,
    BangEqual,
    Equal,
    EqualEqual,
    Greater,
    GreaterEqual,
    Less,
    LessEqual,
    Identifier,
    String,
    Number,
    And,
    Class,
    Else,
    False,
    Fun,
    For,
    If,
    Nil,
    Or,
    Print,
    Return,
    Super,
    This,
    True,
    Var,
    While,
    Eof,
}

/// A token of the source: its kind, its text, an attached literal and its line.
#[derive(Clone, Debug, PartialEq)]
pub struct Token {
    pub type_: TokenType,
    pub lexeme: String,
    pub literal: Option<Value>,
    pub line: usize,
}

impl Token {
    pub fn new(type_: TokenType, lexeme: &str, literal: Option<Value>, line: usize) -> (r: Self)
        ensures
            r.type_ == type_,
            r.lexeme@ == lexeme@,
            r.literal == literal,
            r.line == line,
    {
        Token { type_, lexeme: lexeme.to_owned(), literal, line }
    }

    pub fn is_identifier(&self) -> (r: bool)
        ensures
            r == (self.type_ == TokenType::Identifier),
    {
        self.type_ == TokenType::Identifier
    }

    pub fn eof(line: usize) -> (r: Token)
        ensures
            r.type_ == TokenType::Eof,
            r.lexeme@ == Seq::<char>::empty(),
            r.literal.is_none(),
            r.line == line,
    {
        Token { type_: TokenType::Eof, lexeme: String::new(), literal: None, line }
    }

    /// A copy of this token.
    pub fn duplicate(&self) -> (r: Token)
        ensures
            r == *self,
    {
        let literal = match &self.literal {
            Some(v) => Some(v.duplicate()),
            None => None,
        };
        Token { type_: self.type_, lexeme: self.lexeme.clone(), literal, line: self.line }
    }
}

} // verus!
