//! The bytes that the grammar gives a meaning to.

use vstd::prelude::*;

verus! {

pub const TAB: u8 = 0x09;

pub const LINE_FEED: u8 = 0x0a;

pub const CARRIAGE_RETURN: u8 = 0x0d;

pub const SPACE: u8 = 0x20;

pub const EXCLAMATION: u8 = 0x21;

pub const QUOTE: u8 = 0x22;

pub const OPENING_PAREN: u8 = 0x28;

pub const CLOSING_PAREN: u8 = 0x29;

pub const ASTERISK: u8 = 0x2a;

pub const PLUS: u8 = 0x2b;

pub const COMMA: u8 = 0x2c;

pub const MINUS: u8 = 0x2d;

pub const POINT: u8 = 0x2e;

pub const SLASH: u8 = 0x2f;

pub const SEMICOLON: u8 = 0x3b;

pub const LESS: u8 = 0x3c;

pub const EQUALS: u8 = 0x3d;

pub const GREATER: u8 = 0x3e;

pub const OPENING_BRACE: u8 = 0x7b;

pub const CLOSING_BRACE: u8 = 0x7d;

} // verus!
