//! The lexical grammar, as functions over the bytes of a source text.
//!
//! Offsets are mathematical integers and the source is a sequence of bytes, so
//! that nothing here depends on how a scanner holds either.

use crate::ascii::{
    ASTERISK, CARRIAGE_RETURN, CLOSING_BRACE, CLOSING_PAREN, COMMA, EQUALS, EXCLAMATION, GREATER,
    LESS, LINE_FEED, MINUS, OPENING_BRACE, OPENING_PAREN, PLUS, POINT, QUOTE, SEMICOLON, SLASH,
    SPACE, TAB,
};
use crate::token::Symbol;
use vstd::prelude::*;

verus! {

/// Space, carriage return, tab and line feed separate tokens and mean nothing
/// else.
pub open spec fn is_blank(byte: u8) -> bool {
    byte == SPACE || byte == CARRIAGE_RETURN || byte == TAB || byte == LINE_FEED
}

/// A comment opens at `pos`: two slashes, both inside the text.
pub open spec fn comment_at(src: Seq<u8>, pos: int) -> bool {
    0 <= pos && pos + 1 < src.len() && src[pos] == SLASH && src[pos + 1] == SLASH
}

/// The first offset at or after `pos` that holds `byte`, or the length of the
/// text where no such offset is left.
pub open spec fn find_byte(src: Seq<u8>, pos: int, byte: u8) -> int
    decreases src.len() - pos,
{
    if 0 <= pos < src.len() && src[pos] != byte {
        find_byte(src, pos + 1, byte)
    } else {
        pos
    }
}

/// Where the line that holds `pos` ends: at its line feed, or at the end of
/// the text.
pub open spec fn line_end(src: Seq<u8>, pos: int) -> int {
    find_byte(src, pos, LINE_FEED)
}

/// `find_byte` stays inside the text, stops on the byte it looks for, and
/// passes over no earlier occurrence.
pub proof fn lemma_find_byte(src: Seq<u8>, pos: int, byte: u8)
    requires
        0 <= pos <= src.len(),
    ensures
        pos <= find_byte(src, pos, byte) <= src.len(),
        find_byte(src, pos, byte) < src.len() ==> src[find_byte(src, pos, byte)] == byte,
        forall|i: int| pos <= i < find_byte(src, pos, byte) ==> src[i] != byte,
    decreases src.len() - pos,
{
    if pos < src.len() && src[pos] != byte {
        lemma_find_byte(src, pos + 1, byte);
    }
}

/// The offset of the first byte at or after `pos` that belongs to a token, or
/// the length of the text where only blanks and comments are left. A comment
/// runs from its two slashes up to the end of its line.
pub open spec fn skip_insignificant(src: Seq<u8>, pos: int) -> int
    decreases src.len() - pos,
{
    if pos < 0 || pos >= src.len() {
        pos
    } else if is_blank(src[pos]) {
        skip_insignificant(src, pos + 1)
    } else if comment_at(src, pos) {
        proof {
            lemma_find_byte(src, pos + 1, LINE_FEED);
        }
        skip_insignificant(src, line_end(src, pos))
    } else {
        pos
    }
}

/// The symbol that a punctuator byte stands for by itself, whatever follows.
pub open spec fn punctuator(byte: u8) -> Option<Symbol> {
    if byte == OPENING_PAREN {
        Some(Symbol::OpeningParen)
    } else if byte == CLOSING_PAREN {
        Some(Symbol::ClosingParen)
    } else if byte == OPENING_BRACE {
        Some(Symbol::OpeningBrace)
    } else if byte == CLOSING_BRACE {
        Some(Symbol::ClosingBrace)
    } else if byte == SEMICOLON {
        Some(Symbol::Semicolon)
    } else if byte == COMMA {
        Some(Symbol::Comma)
    } else if byte == POINT {
        Some(Symbol::Point)
    } else if byte == MINUS {
        Some(Symbol::Sub)
    } else if byte == PLUS {
        Some(Symbol::Add)
    } else if byte == SLASH {
        Some(Symbol::Div)
    } else if byte == ASTERISK {
        Some(Symbol::Asterisk)
    } else {
        None
    }
}

/// The text holds `byte` at `pos`.
pub open spec fn byte_at(src: Seq<u8>, pos: int, byte: u8) -> bool {
    0 <= pos < src.len() && src[pos] == byte
}

/// The symbol that begins at `pos`, if one does. An operator takes every `=`
/// that can extend it: `!==` rather than `!=`, and `!=` rather than `!`.
pub open spec fn symbol_at(src: Seq<u8>, pos: int) -> Option<Symbol> {
    if pos < 0 || pos >= src.len() {
        None
    } else {
        let lead = src[pos];
        let one = byte_at(src, pos + 1, EQUALS);
        let two = one && byte_at(src, pos + 2, EQUALS);
        if punctuator(lead) is Some {
            punctuator(lead)
        } else if lead == EXCLAMATION {
            Some(
                if two {
                    Symbol::SNe
                } else if one {
                    Symbol::Ne
                } else {
                    Symbol::Not
                },
            )
        } else if lead == EQUALS {
            Some(
                if two {
                    Symbol::SEq
                } else if one {
                    Symbol::Eq
                } else {
                    Symbol::Assign
                },
            )
        } else if lead == LESS {
            Some(
                if one {
                    Symbol::Le
                } else {
                    Symbol::Lt
                },
            )
        } else if lead == GREATER {
            Some(
                if one {
                    Symbol::Ge
                } else {
                    Symbol::Gt
                },
            )
        } else {
            None
        }
    }
}

/// The byte can begin a token: a symbol, or a string literal.
pub open spec fn begins_token(byte: u8) -> bool {
    punctuator(byte) is Some || byte == EXCLAMATION || byte == EQUALS || byte == LESS || byte
        == GREATER || byte == QUOTE
}

/// What one scan finds.
pub enum Outcome {
    /// Only blanks and comments were left.
    EndOfInput,
    /// A punctuator or an operator.
    Symbol(Symbol),
    /// A string literal with its closing quote in the text.
    StringLiteral,
    /// A string literal that the end of the text cut short.
    UnterminatedString,
    /// A byte that begins no token of the grammar.
    Unrecognized,
}

/// One scan: what it finds, where the token begins, and where the cursor
/// rests afterwards.
pub struct Scan {
    pub outcome: Outcome,
    pub start: int,
    pub end: int,
}

/// The scan that begins with the cursor at `pos`.
///
/// Blanks and comments are passed over first. A symbol ends after its last
/// byte. A string literal ends on its closing quote, which stays unread, or at
/// the end of the text where no quote closes it.
pub open spec fn scan(src: Seq<u8>, pos: int) -> Scan {
    let start = skip_insignificant(src, pos);
    if start < 0 || start >= src.len() {
        Scan { outcome: Outcome::EndOfInput, start, end: start }
    } else if let Some(symbol) = symbol_at(src, start) {
        Scan { outcome: Outcome::Symbol(symbol), start, end: start + symbol.spelling().len() }
    } else if src[start] == QUOTE {
        let close = find_byte(src, start + 1, QUOTE);
        if close < src.len() {
            Scan { outcome: Outcome::StringLiteral, start, end: close }
        } else {
            Scan { outcome: Outcome::UnterminatedString, start, end: close }
        }
    } else {
        Scan { outcome: Outcome::Unrecognized, start, end: start + 1 }
    }
}

/// Skipping stays inside the text and stops on a byte that is neither a blank
/// nor the opening of a comment. Skipping again from there moves no further.
pub proof fn lemma_skip_insignificant(src: Seq<u8>, pos: int)
    requires
        0 <= pos <= src.len(),
    ensures
        pos <= skip_insignificant(src, pos) <= src.len(),
        skip_insignificant(src, pos) < src.len() ==> {
            &&& !is_blank(src[skip_insignificant(src, pos)])
            &&& !comment_at(src, skip_insignificant(src, pos))
        },
        skip_insignificant(src, skip_insignificant(src, pos)) == skip_insignificant(src, pos),
    decreases src.len() - pos,
{
    if pos < src.len() {
        if is_blank(src[pos]) {
            lemma_skip_insignificant(src, pos + 1);
        } else if comment_at(src, pos) {
            lemma_find_byte(src, pos + 1, LINE_FEED);
            lemma_skip_insignificant(src, line_end(src, pos));
        }
    }
}

/// A scan never moves the cursor back, never leaves the text, and reads at
/// least one byte whenever it finds anything but the end of the input.
pub proof fn lemma_scan_bounds(src: Seq<u8>, pos: int)
    requires
        0 <= pos <= src.len(),
    ensures
        pos <= scan(src, pos).start <= scan(src, pos).end <= src.len(),
        scan(src, pos).start == skip_insignificant(src, pos),
        scan(src, pos).outcome is EndOfInput <==> scan(src, pos).start == src.len(),
        !(scan(src, pos).outcome is EndOfInput) ==> scan(src, pos).start < scan(src, pos).end,
        scan(src, pos).outcome is Unrecognized <==> scan(src, pos).start < src.len()
            && !begins_token(src[scan(src, pos).start]),
{
    lemma_skip_insignificant(src, pos);
    let start = skip_insignificant(src, pos);
    if start < src.len() {
        lemma_find_byte(src, start + 1, QUOTE);
    }
}

} // verus!
