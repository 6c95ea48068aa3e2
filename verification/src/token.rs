//! The vocabulary that the scanner hands out.

use crate::ascii::{
    ASTERISK, CLOSING_BRACE, CLOSING_PAREN, COMMA, EQUALS, EXCLAMATION, GREATER, LESS, MINUS,
    OPENING_BRACE, OPENING_PAREN, PLUS, POINT, SEMICOLON, SLASH,
};
use crate::source_loc::SourceLoc;
use vstd::prelude::*;

verus! {

/// The punctuators and operators of the language. The set is closed.
#[derive(Clone, Copy, Debug, PartialEq, Eq, Structural)]
pub enum Symbol {
    /// `(`
    OpeningParen,
    /// `)`
    ClosingParen,
    /// `{`
    OpeningBrace,
    /// `}`
    ClosingBrace,
    /// `;`
    Semicolon,
    /// `,`
    Comma,
    /// `.`
    Point,
    /// `-`
    Sub,
    /// `+`
    Add,
    /// `/`
    Div,
    /// `*`
    Asterisk,
    /// `!`
    Not,
    /// `!=`
    Ne,
    /// `!==`
    SNe,
    /// `=`
    Assign,
    /// `==`
    Eq,
    /// `===`
    SEq,
    /// `<`
    Lt,
    /// `<=`
    Le,
    /// `>`
    Gt,
    /// `>=`
    Ge,
}

impl Symbol {
    /// The bytes that spell the symbol in source text.
    pub open spec fn spelling(self) -> Seq<u8> {
        match self {
            Symbol::OpeningParen => seq![OPENING_PAREN],
            Symbol::ClosingParen => seq![CLOSING_PAREN],
            Symbol::OpeningBrace => seq![OPENING_BRACE],
            Symbol::ClosingBrace => seq![CLOSING_BRACE],
            Symbol::Semicolon => seq![SEMICOLON],
            Symbol::Comma => seq![COMMA],
            Symbol::Point => seq![POINT],
            Symbol::Sub => seq![MINUS],
            Symbol::Add => seq![PLUS],
            Symbol::Div => seq![SLASH],
            Symbol::Asterisk => seq![ASTERISK],
            Symbol::Not => seq![EXCLAMATION],
            Symbol::Ne => seq![EXCLAMATION, EQUALS],
            Symbol::SNe => seq![EXCLAMATION, EQUALS, EQUALS],
            Symbol::Assign => seq![EQUALS],
            Symbol::Eq => seq![EQUALS, EQUALS],
            Symbol::SEq => seq![EQUALS, EQUALS, EQUALS],
            Symbol::Lt => seq![LESS],
            Symbol::Le => seq![LESS, EQUALS],
            Symbol::Gt => seq![GREATER],
            Symbol::Ge => seq![GREATER, EQUALS],
        }
    }
}

/// One token: a symbol, or a string literal with the text that was captured
/// for it. Either carries the position at which its scan began.
#[derive(Debug, PartialEq)]
pub enum Token {
    Symbol(Symbol, SourceLoc),
    String(String, SourceLoc),
}

impl Clone for Token {
    fn clone(&self) -> (copy: Token)
        ensures
            copy == *self,
    {
        match self {
            Token::Symbol(symbol, loc) => Token::Symbol(*symbol, *loc),
            Token::String(text, loc) => Token::String(text.clone(), *loc),
        }
    }
}

impl Token {
    /// The position at which the token's scan began.
    pub open spec fn spec_loc(&self) -> SourceLoc {
        match *self {
            Token::Symbol(_, loc) => loc,
            Token::String(_, loc) => loc,
        }
    }

    /// A symbol token that began at `loc`.
    pub fn new_symbol(symbol: Symbol, loc: SourceLoc) -> (token: Token)
        ensures
            token == Token::Symbol(symbol, loc),
    {
        Token::Symbol(symbol, loc)
    }

    /// A string token that began at `loc` and captured `text`.
    pub fn new_string(text: String, loc: SourceLoc) -> (token: Token)
        ensures
            token == Token::String(text, loc),
    {
        Token::String(text, loc)
    }

    /// The position at which the token's scan began.
    #[verifier::when_used_as_spec(spec_loc)]
    pub fn loc(&self) -> (loc: SourceLoc)
        ensures
            loc == self.spec_loc(),
    {
        match self {
            Token::Symbol(_, loc) => *loc,
            Token::String(_, loc) => *loc,
        }
    }
}

} // verus!
