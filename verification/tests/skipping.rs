use toyjs_lexer::token::{Symbol, Token};
use toyjs_lexer::{Lexer, LexerError, SourceLoc};

fn at(pos: usize) -> SourceLoc {
    SourceLoc { pos }
}

fn symbol(symbol: Symbol, pos: usize) -> Result<Token, LexerError> {
    Ok(Token::Symbol(symbol, at(pos)))
}

#[test]
fn empty_source_is_at_its_end() {
    let mut lexer = Lexer::new(String::new());
    assert_eq!(lexer.position(), at(0));
    assert!(lexer.can_scan());
    assert_eq!(lexer.next(), Err(LexerError::ExpectedEOF));
    assert_eq!(lexer.position(), at(0));
}

#[test]
fn comment_and_line_feed_hold_no_token() {
    let mut lexer = Lexer::new("// hi\n".to_string());
    assert_eq!(lexer.next(), Err(LexerError::ExpectedEOF));
    assert_eq!(lexer.position(), at(6));
}

#[test]
fn comment_may_end_with_the_text() {
    let mut lexer = Lexer::new("// hi".to_string());
    assert_eq!(lexer.next(), Err(LexerError::ExpectedEOF));
    assert_eq!(lexer.position(), at(5));
}

#[test]
fn blanks_around_a_token_hold_no_token() {
    let mut lexer = Lexer::new("  \t\n  +  ".to_string());
    assert_eq!(lexer.next(), symbol(Symbol::Add, 6));
    assert_eq!(lexer.position(), at(7));
    assert_eq!(lexer.next(), Err(LexerError::ExpectedEOF));
    assert_eq!(lexer.position(), at(9));
}

#[test]
fn carriage_return_is_a_blank() {
    let mut lexer = Lexer::new("\r\n;\r\n".to_string());
    assert_eq!(lexer.next(), symbol(Symbol::Semicolon, 2));
    assert_eq!(lexer.next(), Err(LexerError::ExpectedEOF));
}

#[test]
fn only_blanks_hold_no_token() {
    let mut lexer = Lexer::new(" \t\r\n ".to_string());
    assert_eq!(lexer.next(), Err(LexerError::ExpectedEOF));
    assert_eq!(lexer.position(), at(5));
}

#[test]
fn end_of_input_is_reported_again_and_again() {
    let mut lexer = Lexer::new("+ // done".to_string());
    assert_eq!(lexer.next(), symbol(Symbol::Add, 0));
    for _ in 0..5 {
        assert!(lexer.can_scan());
        assert_eq!(lexer.next(), Err(LexerError::ExpectedEOF));
        assert_eq!(lexer.position(), at(9));
    }
}

#[test]
fn comment_ends_at_its_line_feed() {
    let mut lexer = Lexer::new("( // one ) \n// two\n\n  )".to_string());
    assert_eq!(lexer.next(), symbol(Symbol::OpeningParen, 0));
    assert_eq!(lexer.next(), symbol(Symbol::ClosingParen, 22));
    assert_eq!(lexer.next(), Err(LexerError::ExpectedEOF));
}

#[test]
fn comment_may_hold_slashes_and_quotes() {
    let mut lexer = Lexer::new("/// \"a // b\n*".to_string());
    assert_eq!(lexer.next(), symbol(Symbol::Asterisk, 12));
    assert_eq!(lexer.next(), Err(LexerError::ExpectedEOF));
}

#[test]
fn lone_slash_divides() {
    let mut lexer = Lexer::new("/ /".to_string());
    assert_eq!(lexer.next(), symbol(Symbol::Div, 0));
    assert_eq!(lexer.next(), symbol(Symbol::Div, 2));
    assert_eq!(lexer.next(), Err(LexerError::ExpectedEOF));
}

#[test]
fn slash_in_front_of_another_byte_divides() {
    let mut lexer = Lexer::new("/*/=".to_string());
    assert_eq!(lexer.next(), symbol(Symbol::Div, 0));
    assert_eq!(lexer.next(), symbol(Symbol::Asterisk, 1));
    assert_eq!(lexer.next(), symbol(Symbol::Div, 2));
    assert_eq!(lexer.next(), symbol(Symbol::Assign, 3));
    assert_eq!(lexer.next(), Err(LexerError::ExpectedEOF));
}

#[test]
fn slash_at_the_end_divides() {
    let mut lexer = Lexer::new("+ /".to_string());
    assert_eq!(lexer.next(), symbol(Symbol::Add, 0));
    assert_eq!(lexer.next(), symbol(Symbol::Div, 2));
    assert_eq!(lexer.next(), Err(LexerError::ExpectedEOF));
}

#[test]
fn division_in_front_of_a_comment() {
    let mut lexer = Lexer::new("/ // rest".to_string());
    assert_eq!(lexer.next(), symbol(Symbol::Div, 0));
    assert_eq!(lexer.next(), Err(LexerError::ExpectedEOF));
}

#[test]
fn unknown_bytes_inside_a_comment_are_passed_over() {
    let mut lexer = Lexer::new("// let x = 1;\n;".to_string());
    assert!(lexer.can_scan());
    assert_eq!(lexer.next(), symbol(Symbol::Semicolon, 14));
}

#[test]
fn letters_and_digits_begin_no_token() {
    assert!(!Lexer::new("x".to_string()).can_scan());
    assert!(!Lexer::new("7".to_string()).can_scan());
    assert!(!Lexer::new("_".to_string()).can_scan());
    assert!(!Lexer::new("  \n// c\n  let".to_string()).can_scan());
    assert!(!Lexer::new("\u{e9}".to_string()).can_scan());
    assert!(!Lexer::new("\0".to_string()).can_scan());
}

#[test]
fn support_is_judged_at_the_next_token_only() {
    let mut lexer = Lexer::new("( x".to_string());
    assert!(lexer.can_scan());
    assert_eq!(lexer.next(), symbol(Symbol::OpeningParen, 0));
    assert!(!lexer.can_scan());
}

#[test]
fn asking_for_support_moves_nothing() {
    let mut lexer = Lexer::new("   // c\n  <=".to_string());
    assert!(lexer.can_scan());
    assert_eq!(lexer.position(), at(0));
    assert!(lexer.can_scan());
    assert_eq!(lexer.next(), symbol(Symbol::Le, 10));
    assert_eq!(lexer.position(), at(12));
}

#[test]
fn a_clone_scans_on_by_itself() {
    let mut lexer = Lexer::new("+ -".to_string());
    assert_eq!(lexer.next(), symbol(Symbol::Add, 0));
    let mut copy = lexer.clone();
    assert_eq!(copy.position(), at(1));
    assert_eq!(copy.next(), symbol(Symbol::Sub, 2));
    assert_eq!(lexer.position(), at(1));
    assert_eq!(lexer.next(), symbol(Symbol::Sub, 2));
}
