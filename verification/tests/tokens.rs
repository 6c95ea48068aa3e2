use toyjs_lexer::token::{Symbol, Token};
use toyjs_lexer::{LexerError, SourceLoc};

#[test]
fn default_position_is_the_first_byte() {
    assert_eq!(SourceLoc::default(), SourceLoc { pos: 0 });
    assert_eq!(SourceLoc::default().pos, 0);
}

#[test]
fn positions_compare_by_offset() {
    let loc = SourceLoc { pos: 4 };
    let copy = loc;
    assert_eq!(loc, copy);
    assert_ne!(loc, SourceLoc { pos: 5 });
}

#[test]
fn symbol_token_holds_what_it_was_made_of() {
    let token = Token::new_symbol(Symbol::Comma, SourceLoc { pos: 7 });
    assert_eq!(token, Token::Symbol(Symbol::Comma, SourceLoc { pos: 7 }));
    assert_eq!(token.loc(), SourceLoc { pos: 7 });
    assert_ne!(token, Token::new_symbol(Symbol::Comma, SourceLoc { pos: 8 }));
    assert_ne!(token, Token::new_symbol(Symbol::Point, SourceLoc { pos: 7 }));
}

#[test]
fn string_token_holds_what_it_was_made_of() {
    let token = Token::new_string("\"ab".to_string(), SourceLoc { pos: 3 });
    assert_eq!(token, Token::String("\"ab".to_string(), SourceLoc { pos: 3 }));
    assert_eq!(token.loc(), SourceLoc { pos: 3 });
    assert_ne!(token, Token::new_string("\"ac".to_string(), SourceLoc { pos: 3 }));
    assert_eq!(token.clone(), token);
}

#[test]
fn end_of_input_is_no_unterminated_construct() {
    assert_ne!(LexerError::ExpectedEOF, LexerError::UnexpectedEOF(String::new()));
    assert_eq!(
        LexerError::UnexpectedEOF("x".to_string()).clone(),
        LexerError::UnexpectedEOF("x".to_string())
    );
}
