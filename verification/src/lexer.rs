//! The scanner.

use crate::ascii::{
    ASTERISK, CARRIAGE_RETURN, CLOSING_BRACE, CLOSING_PAREN, COMMA, EQUALS, EXCLAMATION, GREATER,
    LESS, LINE_FEED, MINUS, OPENING_BRACE, OPENING_PAREN, PLUS, POINT, QUOTE, SEMICOLON, SLASH,
    SPACE, TAB,
};
use crate::grammar::{
    byte_at, comment_at, find_byte, lemma_find_byte, lemma_scan_bounds, line_end, scan,
    skip_insignificant, Outcome, Scan,
};
use crate::source_loc::SourceLoc;
use crate::token::{Symbol, Token};
use vstd::prelude::*;
use vstd::pervasive::unreached;
use vstd::utf8::{
    decode_utf8, encode_utf8, encode_utf8_decode_utf8, encode_utf8_valid_utf8, is_char_boundary,
    is_char_boundary_iff_not_is_continuation_byte, valid_utf8_split,
};

verus! {

/// Why a scan handed out no token.
#[derive(Debug, PartialEq)]
pub enum LexerError {
    /// Nothing is left to scan. This ends a scan loop; it reports no fault in
    /// the text.
    ExpectedEOF,
    /// The text ended inside a construct. The message names the construct.
    UnexpectedEOF(String),
}

impl Clone for LexerError {
    fn clone(&self) -> (copy: LexerError)
        ensures
            copy == *self,
    {
        match self {
            LexerError::ExpectedEOF => LexerError::ExpectedEOF,
            LexerError::UnexpectedEOF(message) => LexerError::UnexpectedEOF(message.clone()),
        }
    }
}

/// A scanner over one source text, held whole.
#[derive(Debug)]
pub struct Lexer {
    code: String,
    start: SourceLoc,
    current: SourceLoc,
}

/// What a scanner is, to its contracts: the bytes of its text, the offset at
/// which the latest token began, and the offset of the next unread byte.
pub struct LexerView {
    pub source: Seq<u8>,
    pub start: int,
    pub current: int,
}

impl View for Lexer {
    type V = LexerView;

    closed spec fn view(&self) -> LexerView {
        LexerView {
            source: encode_utf8(self.code@),
            start: self.start.pos as int,
            current: self.current.pos as int,
        }
    }
}

/// What a scan that found `found` in `src` hands to its caller.
///
/// A token is anchored where its scan began. The text of a string token is the
/// source from its opening quote up to its closing quote, the first included
/// and the second not. No result answers a byte that begins no token.
pub open spec fn delivers(result: Result<Token, LexerError>, src: Seq<u8>, found: Scan) -> bool {
    match found.outcome {
        Outcome::EndOfInput => result == Err::<Token, LexerError>(LexerError::ExpectedEOF),
        Outcome::Symbol(symbol) => {
            &&& result matches Ok(Token::Symbol(given, loc))
            &&& given == symbol
            &&& loc.pos == found.start
        },
        Outcome::StringLiteral => {
            &&& result matches Ok(Token::String(text, loc))
            &&& text@ == decode_utf8(src.subrange(found.start, found.end))
            &&& loc.pos == found.start
        },
        Outcome::UnterminatedString => {
            &&& result matches Err(LexerError::UnexpectedEOF(message))
            &&& message@ == "Unterminated string"@
        },
        Outcome::Unrecognized => false,
    }
}

/// In well-formed UTF-8 a byte below 0x80 is a character of its own, so the
/// text may be cut in front of it.
proof fn lemma_ascii_is_boundary(chars: Seq<char>, index: int)
    requires
        0 <= index < encode_utf8(chars).len(),
        encode_utf8(chars)[index] < 0x80,
    ensures
        is_char_boundary(encode_utf8(chars), index),
{
    encode_utf8_valid_utf8(chars);
    is_char_boundary_iff_not_is_continuation_byte(encode_utf8(chars), index);
}

impl Clone for Lexer {
    fn clone(&self) -> (copy: Lexer)
        ensures
            copy@ == self@,
    {
        proof {
            use_type_invariant(self);
        }
        Lexer { code: self.code.clone(), start: self.start, current: self.current }
    }
}

impl Lexer {
    /// The token under way begins inside the text and in front of the cursor.
    #[verifier::type_invariant]
    spec fn ordered(self) -> bool {
        self.start.pos <= self.current.pos <= encode_utf8(self.code@).len()
    }

    /// A scanner at the first byte of `code`.
    pub fn new(code: String) -> (lexer: Lexer)
        ensures
            lexer@ == (LexerView { source: encode_utf8(code@), start: 0, current: 0 }),
    {
        Lexer { code, start: SourceLoc::default(), current: SourceLoc::default() }
    }

    /// The scan that the next call of [`Lexer::next`] performs begins a token
    /// of the grammar, or finds the end of the input.
    pub open spec fn spec_can_scan(&self) -> bool {
        !(scan(self@.source, self@.current).outcome is Unrecognized)
    }

    /// Whether [`Lexer::next`] may be called: the byte in front of the
    /// scanner, behind any blanks and comments, begins a token, or none is
    /// left. The scanner does not move.
    #[verifier::when_used_as_spec(spec_can_scan)]
    pub fn can_scan(&self) -> (able: bool)
        ensures
            able == self.spec_can_scan(),
    {
        proof {
            use_type_invariant(self);
            lemma_scan_bounds(self@.source, self@.current);
        }
        let lead = self.lead_offset();
        if lead == self.code.as_str().as_bytes().len() {
            true
        } else {
            match self.char_at(lead) {
                OPENING_PAREN | CLOSING_PAREN | OPENING_BRACE | CLOSING_BRACE => true,
                SEMICOLON | COMMA | POINT | MINUS | PLUS | SLASH | ASTERISK => true,
                EXCLAMATION | EQUALS | LESS | GREATER | QUOTE => true,
                _ => false,
            }
        }
    }

    /// The position of the next unread byte. It never lies in front of the
    /// latest token's start, nor behind the end of the text.
    pub fn position(&self) -> (loc: SourceLoc)
        ensures
            loc.pos == self@.current,
            0 <= self@.start <= self@.current <= self@.source.len(),
    {
        proof {
            use_type_invariant(self);
        }
        self.current
    }

    /// Where the next token begins, found without moving the cursor.
    fn lead_offset(&self) -> (lead: usize)
        ensures
            lead == skip_insignificant(self@.source, self@.current),
    {
        proof {
            use_type_invariant(self);
        }
        let bytes = self.code.as_str().as_bytes();
        let mut lead = self.current.pos;
        let mut in_comment = false;
        while lead < bytes.len()
            invariant
                bytes@ == self@.source,
                0 <= lead <= bytes@.len(),
                skip_insignificant(
                    bytes@,
                    if in_comment {
                        line_end(bytes@, lead as int)
                    } else {
                        lead as int
                    },
                ) == skip_insignificant(self@.source, self@.current),
            decreases bytes@.len() - lead, if in_comment { 1int } else { 0int },
        {
            let byte = bytes[lead];
            if in_comment {
                if byte == LINE_FEED {
                    in_comment = false;
                } else {
                    lead += 1;
                }
            } else if byte == SPACE || byte == CARRIAGE_RETURN || byte == TAB || byte
                == LINE_FEED {
                lead += 1;
            } else if byte == SLASH && lead + 1 < bytes.len() && bytes[lead + 1] == SLASH {
                proof {
                    lemma_find_byte(bytes@, lead + 2, LINE_FEED);
                    assert(line_end(bytes@, lead as int) == line_end(bytes@, lead + 1));
                    assert(line_end(bytes@, lead + 1) == line_end(bytes@, lead + 2));
                }
                in_comment = true;
                lead += 2;
            } else {
                return lead;
            }
        }
        lead
    }

    /// Scans one token.
    ///
    /// Blanks and comments in front of it are passed over. The outcome is that
    /// of [`scan`] at the cursor: a token anchored where its scan began, the
    /// signal that the input is exhausted, or the error of a string literal
    /// that never closes. The cursor comes to rest where that scan ends, and
    /// once the input is exhausted every further call says so again.
    ///
    /// The byte in front of the scanner must begin a token: test
    /// [`Lexer::can_scan`] where the text is not known to hold only tokens.
    pub fn next(&mut self) -> (result: Result<Token, LexerError>)
        requires
            old(self).can_scan(),
        ensures
            final(self)@ == (LexerView {
                source: old(self)@.source,
                start: scan(old(self)@.source, old(self)@.current).start,
                current: scan(old(self)@.source, old(self)@.current).end,
            }),
            delivers(result, old(self)@.source, scan(old(self)@.source, old(self)@.current)),
            0 <= old(self)@.current <= final(self)@.start <= final(self)@.current
                <= final(self)@.source.len(),
            result is Ok ==> final(self)@.start < final(self)@.current,
            result == Err::<Token, LexerError>(LexerError::ExpectedEOF) ==> {
                &&& final(self)@.current == final(self)@.source.len()
                &&& scan(final(self)@.source, final(self)@.current).outcome is EndOfInput
            },
    {
        proof {
            use_type_invariant(&*self);
            lemma_scan_bounds(self@.source, self@.current);
            lemma_scan_bounds(self@.source, self@.source.len() as int);
        }
        self.skip_whitespace();

        self.start = self.current;
        if self.is_at_end() {
            return Err(LexerError::ExpectedEOF);
        }
        match self.advance() {
            OPENING_PAREN => self.make_symbol(Symbol::OpeningParen),
            CLOSING_PAREN => self.make_symbol(Symbol::ClosingParen),
            OPENING_BRACE => self.make_symbol(Symbol::OpeningBrace),
            CLOSING_BRACE => self.make_symbol(Symbol::ClosingBrace),
            SEMICOLON => self.make_symbol(Symbol::Semicolon),
            COMMA => self.make_symbol(Symbol::Comma),
            POINT => self.make_symbol(Symbol::Point),
            MINUS => self.make_symbol(Symbol::Sub),
            PLUS => self.make_symbol(Symbol::Add),
            SLASH => self.make_symbol(Symbol::Div),
            ASTERISK => self.make_symbol(Symbol::Asterisk),
            EXCLAMATION => {
                if self.matches(EQUALS) {
                    if self.matches(EQUALS) {
                        self.make_symbol(Symbol::SNe)
                    } else {
                        self.make_symbol(Symbol::Ne)
                    }
                } else {
                    self.make_symbol(Symbol::Not)
                }
            },
            EQUALS => {
                if self.matches(EQUALS) {
                    if self.matches(EQUALS) {
                        self.make_symbol(Symbol::SEq)
                    } else {
                        self.make_symbol(Symbol::Eq)
                    }
                } else {
                    self.make_symbol(Symbol::Assign)
                }
            },
            LESS => {
                if self.matches(EQUALS) {
                    self.make_symbol(Symbol::Le)
                } else {
                    self.make_symbol(Symbol::Lt)
                }
            },
            GREATER => {
                if self.matches(EQUALS) {
                    self.make_symbol(Symbol::Ge)
                } else {
                    self.make_symbol(Symbol::Gt)
                }
            },
            QUOTE => self.string(),
            _ => unreached(),
        }
    }

    /// Scans the rest of a string literal whose opening quote was just read.
    /// No escape is known: the first quote closes the literal.
    fn string(&mut self) -> (result: Result<Token, LexerError>)
        requires
            old(self)@.start + 1 == old(self)@.current,
            old(self)@.source[old(self)@.start] == QUOTE,
        ensures
            final(self)@ == (LexerView {
                current: find_byte(old(self)@.source, old(self)@.current, QUOTE),
                ..old(self)@
            }),
            final(self)@.current < final(self)@.source.len() ==> {
                &&& result matches Ok(Token::String(text, loc))
                &&& text@ == decode_utf8(
                    final(self)@.source.subrange(final(self)@.start, final(self)@.current),
                )
                &&& loc.pos == final(self)@.start
            },
            final(self)@.current >= final(self)@.source.len() ==> {
                &&& result matches Err(LexerError::UnexpectedEOF(message))
                &&& message@ == "Unterminated string"@
            },
    {
        proof {
            use_type_invariant(&*self);
        }
        while !self.is_at_end() && self.peek() != QUOTE
            invariant
                self@.source == old(self)@.source,
                self@.start == old(self)@.start,
                old(self)@.current <= self@.current <= self@.source.len(),
                find_byte(self@.source, self@.current, QUOTE) == find_byte(
                    old(self)@.source,
                    old(self)@.current,
                    QUOTE,
                ),
            decreases self@.source.len() - self@.current,
        {
            self.advance();
        }

        if self.is_at_end() {
            Err(LexerError::UnexpectedEOF("Unterminated string".to_owned()))
        } else {
            Ok(Token::new_string(self.lexeme(), self.start))
        }
    }

    /// The byte at `index`.
    fn char_at(&self, index: usize) -> (byte: u8)
        requires
            index < self@.source.len(),
        ensures
            byte == self@.source[index as int],
            self@.source.len() <= usize::MAX,
    {
        self.code.as_str().as_bytes()[index]
    }

    /// Whether every byte was read.
    fn is_at_end(&self) -> (at_end: bool)
        ensures
            at_end == (self@.current == self@.source.len()),
            at_end == (self@.current >= self@.source.len()),
    {
        proof {
            use_type_invariant(self);
        }
        self.current.pos == self.code.as_str().as_bytes().len()
    }

    /// The next unread byte.
    fn peek(&self) -> (byte: u8)
        requires
            self@.current < self@.source.len(),
        ensures
            byte == self@.source[self@.current],
            self@.source.len() <= usize::MAX,
    {
        self.char_at(self.current.pos)
    }

    /// The byte behind the next unread one, or 0 where the text ends first.
    fn peek_next(&self) -> (byte: u8)
        requires
            self@.current < self@.source.len(),
        ensures
            byte == if self@.current + 1 < self@.source.len() {
                self@.source[self@.current + 1]
            } else {
                0u8
            },
    {
        proof {
            use_type_invariant(self);
        }
        let len = self.code.as_str().as_bytes().len();
        if self.current.pos + 1 < len {
            return self.char_at(self.current.pos + 1);
        } else {
            return 0;
        }
    }

    /// Moves the cursor over blanks and comments, up to the next token.
    fn skip_whitespace(&mut self)
        ensures
            final(self)@ == (LexerView {
                current: skip_insignificant(old(self)@.source, old(self)@.current),
                ..old(self)@
            }),
    {
        proof {
            use_type_invariant(&*self);
        }
        while !self.is_at_end()
            invariant
                self@.source == old(self)@.source,
                self@.start == old(self)@.start,
                0 <= self@.current <= self@.source.len(),
                skip_insignificant(self@.source, self@.current) == skip_insignificant(
                    old(self)@.source,
                    old(self)@.current,
                ),
            decreases self@.source.len() - self@.current,
        {
            match self.peek() {
                SPACE | CARRIAGE_RETURN | TAB => {
                    self.advance();
                },
                LINE_FEED => {
                    self.advance();
                },
                SLASH => {
                    if self.peek_next() != SLASH {
                        return ;
                    }
                    let ghost opening = self@.current;
                    proof {
                        lemma_find_byte(self@.source, opening + 1, LINE_FEED);
                    }
                    while !self.is_at_end() && self.peek() != LINE_FEED
                        invariant
                            self@.source == old(self)@.source,
                            self@.start == old(self)@.start,
                            0 <= opening <= self@.current <= self@.source.len(),
                            comment_at(self@.source, opening),
                            line_end(self@.source, self@.current) == line_end(
                                self@.source,
                                opening,
                            ),
                            skip_insignificant(self@.source, opening) == skip_insignificant(
                                old(self)@.source,
                                old(self)@.current,
                            ),
                        decreases self@.source.len() - self@.current,
                    {
                        self.advance();
                    }
                },
                _ => {
                    return ;
                },
            }
        }
    }

    /// The text between the start of the token and the cursor. Both must sit
    /// on a byte below 0x80, where the text can be cut.
    fn lexeme(&self) -> (text: String)
        requires
            self@.start < self@.current < self@.source.len(),
            self@.source[self@.start] < 0x80,
            self@.source[self@.current] < 0x80,
        ensures
            text@ == decode_utf8(self@.source.subrange(self@.start, self@.current)),
    {
        let ghost bytes = self@.source;
        let ghost head_bytes = bytes.subrange(0, self@.current);
        proof {
            use_type_invariant(self);
            encode_utf8_valid_utf8(self.code@);
            lemma_ascii_is_boundary(self.code@, self@.start);
            lemma_ascii_is_boundary(self.code@, self@.current);
            valid_utf8_split(bytes, self@.current);
            is_char_boundary_iff_not_is_continuation_byte(head_bytes, self@.start);
        }
        let (head, _) = self.code.as_str().split_at(self.current.pos);
        let (_, body) = head.split_at(self.start.pos);
        proof {
            assert(encode_utf8(body@) == bytes.subrange(self@.start, self@.current));
            encode_utf8_decode_utf8(body@);
        }
        body.to_owned()
    }

    /// A symbol token anchored at the start of the current scan.
    fn make_symbol(&self, sym: Symbol) -> (result: Result<Token, LexerError>)
        ensures
            result matches Ok(Token::Symbol(given, loc)) && given == sym && loc.pos
                == self@.start,
    {
        Ok(Token::new_symbol(sym, self.start))
    }

    /// Reads one byte.
    fn advance(&mut self) -> (byte: u8)
        requires
            old(self)@.current < old(self)@.source.len(),
        ensures
            byte == old(self)@.source[old(self)@.current],
            final(self)@ == (LexerView { current: old(self)@.current + 1, ..old(self)@ }),
    {
        proof {
            use_type_invariant(&*self);
        }
        let c = self.peek();
        self.current.pos += 1;
        c
    }

    /// Reads the next byte if it is `expected`, and says whether it did.
    fn matches(&mut self, expected: u8) -> (matched: bool)
        ensures
            matched == byte_at(old(self)@.source, old(self)@.current, expected),
            final(self)@ == (LexerView {
                current: old(self)@.current + if matched { 1int } else { 0int },
                ..old(self)@
            }),
    {
        if self.is_at_end() || self.peek() != expected {
            return false;
        } else {
            self.advance();
            true
        }
    }
}

} // verus!
