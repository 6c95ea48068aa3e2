//! Lexical analysis for a small JavaScript-like language.
//!
//! The scanner walks an in-memory source text byte by byte and hands out one
//! token per call: a punctuator or operator symbol, or a string literal. Every
//! executable function carries a contract over the bytes of the source, and the
//! grammar that the contracts speak of lives in [`grammar`].

pub mod ascii;
pub mod grammar;
pub mod laws;
pub mod lexer;
pub mod source_loc;
pub mod token;

pub use lexer::{Lexer, LexerError};
pub use source_loc::SourceLoc;
