//! What holds of the grammar, whatever the text.

use crate::ascii::{LINE_FEED, QUOTE};
use crate::grammar::{
    comment_at, is_blank, lemma_find_byte, lemma_scan_bounds, lemma_skip_insignificant, line_end,
    punctuator, scan, skip_insignificant, symbol_at, Outcome, Scan,
};
use crate::token::Symbol;
use vstd::prelude::*;

verus! {

/// The text spells `symbol` at `pos`.
pub open spec fn spelled_at(src: Seq<u8>, pos: int, symbol: Symbol) -> bool {
    &&& 0 <= pos
    &&& pos + symbol.spelling().len() <= src.len()
    &&& src.subrange(pos, pos + symbol.spelling().len()) == symbol.spelling()
}

/// No two symbols are spelled alike.
pub proof fn lemma_spelling_is_unique(one: Symbol, other: Symbol)
    requires
        one.spelling() == other.spelling(),
    ensures
        one == other,
{
    let word = one.spelling();
    let same = other.spelling();
    assert(word.len() == same.len());
    assert(word[0] == same[0]);
}

/// Maximal munch. The symbol found at an offset is spelled there, and no
/// symbol with a longer spelling is; where none is found, none is spelled
/// there.
pub proof fn lemma_symbol_is_longest_match(src: Seq<u8>, pos: int)
    ensures
        match symbol_at(src, pos) {
            Some(symbol) => {
                &&& spelled_at(src, pos, symbol)
                &&& forall|other: Symbol| #[trigger]
                    spelled_at(src, pos, other) ==> other.spelling().len()
                        <= symbol.spelling().len()
            },
            None => forall|other: Symbol| !#[trigger] spelled_at(src, pos, other),
        },
{
    assert forall|other: Symbol| #[trigger] spelled_at(src, pos, other) implies {
        &&& symbol_at(src, pos) is Some
        &&& other.spelling().len() <= symbol_at(src, pos)->0.spelling().len()
    } by {
        let word = other.spelling();
        let found = src.subrange(pos, pos + word.len());
        assert(found[0] == src[pos]);
        if word.len() > 1 {
            assert(found[1] == src[pos + 1]);
        }
        if word.len() > 2 {
            assert(found[2] == src[pos + 2]);
        }
    }
    if let Some(symbol) = symbol_at(src, pos) {
        assert(src.subrange(pos, pos + symbol.spelling().len()) =~= symbol.spelling());
    }
}

/// A punctuator that makes up the whole text is scanned as its symbol, at
/// offset 0, and the end of the input follows it.
pub proof fn lemma_lone_punctuator(byte: u8)
    requires
        punctuator(byte) is Some,
    ensures
        scan(seq![byte], 0) == (Scan {
            outcome: Outcome::Symbol(punctuator(byte)->0),
            start: 0,
            end: 1,
        }),
        scan(seq![byte], 1) == (Scan { outcome: Outcome::EndOfInput, start: 1, end: 1 }),
{
}

/// An empty text holds the end of the input and nothing else.
pub proof fn lemma_empty_source(src: Seq<u8>)
    requires
        src.len() == 0,
    ensures
        scan(src, 0) == (Scan { outcome: Outcome::EndOfInput, start: 0, end: 0 }),
{
}

/// Blanks and comments are transparent: a scan finds the same whether it
/// begins in front of them or behind them.
pub proof fn lemma_insignificant_is_transparent(src: Seq<u8>, pos: int)
    requires
        0 <= pos <= src.len(),
    ensures
        scan(src, skip_insignificant(src, pos)) == scan(src, pos),
        pos < src.len() && is_blank(src[pos]) ==> scan(src, pos + 1) == scan(src, pos),
        comment_at(src, pos) ==> scan(src, line_end(src, pos)) == scan(src, pos),
{
    lemma_skip_insignificant(src, pos);
}

/// Where only blanks are left, a scan finds the end of the input.
pub proof fn lemma_only_blanks_left(src: Seq<u8>, pos: int)
    requires
        0 <= pos <= src.len(),
        forall|i: int| pos <= i < src.len() ==> is_blank(#[trigger] src[i]),
    ensures
        scan(src, pos) == (Scan {
            outcome: Outcome::EndOfInput,
            start: src.len() as int,
            end: src.len() as int,
        }),
    decreases src.len() - pos,
{
    if pos < src.len() {
        lemma_only_blanks_left(src, pos + 1);
    }
}

/// A comment takes everything up to the end of its line: where no line feed
/// is left behind its opening, a scan finds the end of the input.
pub proof fn lemma_comment_runs_to_end(src: Seq<u8>, pos: int)
    requires
        comment_at(src, pos),
        forall|i: int| pos <= i < src.len() ==> #[trigger] src[i] != LINE_FEED,
    ensures
        scan(src, pos) == (Scan {
            outcome: Outcome::EndOfInput,
            start: src.len() as int,
            end: src.len() as int,
        }),
{
    lemma_find_byte(src, pos, LINE_FEED);
    assert(line_end(src, pos) == src.len());
    assert(skip_insignificant(src, src.len() as int) == src.len());
}

/// A string literal runs from its opening quote to the first quote behind it.
/// The scan rests on that closing quote and leaves it unread.
pub proof fn lemma_closed_string(src: Seq<u8>, open: int, close: int)
    requires
        0 <= open < close < src.len(),
        src[open] == QUOTE,
        src[close] == QUOTE,
        forall|i: int| open < i < close ==> #[trigger] src[i] != QUOTE,
    ensures
        scan(src, open) == (Scan { outcome: Outcome::StringLiteral, start: open, end: close }),
{
    lemma_find_byte(src, open + 1, QUOTE);
}

/// A string literal with no quote behind its opening quote is unterminated,
/// and its scan reads the text to its end.
pub proof fn lemma_unterminated_string(src: Seq<u8>, open: int)
    requires
        0 <= open < src.len(),
        src[open] == QUOTE,
        forall|i: int| open < i < src.len() ==> #[trigger] src[i] != QUOTE,
    ensures
        scan(src, open) == (Scan {
            outcome: Outcome::UnterminatedString,
            start: open,
            end: src.len() as int,
        }),
{
    lemma_find_byte(src, open + 1, QUOTE);
}

/// The end of the input is final: the scan that begins where such a scan
/// ended finds the end of the input again, and moves nothing.
pub proof fn lemma_end_of_input_is_stable(src: Seq<u8>, pos: int)
    requires
        0 <= pos <= src.len(),
        scan(src, pos).outcome is EndOfInput,
    ensures
        scan(src, scan(src, pos).end) == scan(src, pos),
        scan(src, pos).end == src.len(),
{
    lemma_scan_bounds(src, pos);
}

} // verus!
