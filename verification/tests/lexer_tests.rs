use tfi_lang::lexer::Lexer;
use tfi_lang::lexer::Token;

#[test]
fn test_keyword_tokens() {
    let source = "rrr pushpa bahubali magadheera karthikeya pokiri eega";
    let mut lexer = Lexer::new(source);

    assert_eq!(lexer.current(), Some(&Token::Const));
    lexer.advance();
    assert_eq!(lexer.current(), Some(&Token::Let));
    lexer.advance();
    assert_eq!(lexer.current(), Some(&Token::Print));
    lexer.advance();
    assert_eq!(lexer.current(), Some(&Token::If));
    lexer.advance();
    assert_eq!(lexer.current(), Some(&Token::Else));
    lexer.advance();
    assert_eq!(lexer.current(), Some(&Token::While));
    lexer.advance();
    assert_eq!(lexer.current(), Some(&Token::For));
}

#[test]
fn test_identifier_tokens() {
    let source = "hello world x y z";
    let mut lexer = Lexer::new(source);

    assert_eq!(lexer.current(), Some(&Token::Identifier("hello".to_string())));
    lexer.advance();
    assert_eq!(lexer.current(), Some(&Token::Identifier("world".to_string())));
    lexer.advance();
    assert_eq!(lexer.current(), Some(&Token::Identifier("x".to_string())));
}

#[test]
fn test_number_tokens() {
    let source = "42 123 0 999";
    let mut lexer = Lexer::new(source);

    assert_eq!(lexer.current(), Some(&Token::Number(42)));
    lexer.advance();
    assert_eq!(lexer.current(), Some(&Token::Number(123)));
    lexer.advance();
    assert_eq!(lexer.current(), Some(&Token::Number(0)));
    lexer.advance();
    assert_eq!(lexer.current(), Some(&Token::Number(999)));
}

#[test]
fn test_operator_tokens() {
    let source = "= ( ) { } ; + >";
    let mut lexer = Lexer::new(source);

    assert_eq!(lexer.current(), Some(&Token::Assign));
    lexer.advance();
    assert_eq!(lexer.current(), Some(&Token::LParen));
    lexer.advance();
    assert_eq!(lexer.current(), Some(&Token::RParen));
    lexer.advance();
    assert_eq!(lexer.current(), Some(&Token::LBrace));
    lexer.advance();
    assert_eq!(lexer.current(), Some(&Token::RBrace));
    lexer.advance();
    assert_eq!(lexer.current(), Some(&Token::Semicolon));
    lexer.advance();
    assert_eq!(lexer.current(), Some(&Token::Plus));
    lexer.advance();
    assert_eq!(lexer.current(), Some(&Token::Greater));
}

#[test]
fn test_whitespace_skipping() {
    let source = "rrr   pushpa\n\tbahubali";
    let mut lexer = Lexer::new(source);

    assert_eq!(lexer.current(), Some(&Token::Const));
    lexer.advance();
    assert_eq!(lexer.current(), Some(&Token::Let));
    lexer.advance();
    assert_eq!(lexer.current(), Some(&Token::Print));
}

#[test]
fn test_token_methods() {
    assert!(Token::Const.is_keyword());
    assert!(Token::Plus.is_operator());
    assert_eq!(Token::Const.keyword_name(), Some("rrr"));
    assert_eq!(Token::Plus.operator_symbol(), Some("+"));
    assert!(!Token::Identifier("x".to_string()).is_keyword());
}

#[test]
fn test_lexer_methods() {
    let source = "rrr x = 42";
    let mut lexer = Lexer::new(source);

    assert!(!lexer.is_eof());
    assert_eq!(lexer.peek(), Some(&Token::Identifier("x".to_string())));

    lexer.advance();
    lexer.advance();
    lexer.advance();
    lexer.advance();

    assert!(lexer.is_eof());

    lexer.reset();
    assert!(!lexer.is_eof());
    assert_eq!(lexer.current(), Some(&Token::Const));
}

#[test]
fn test_keyword_prefix_is_identifier() {
    // a longer alphabetic run swallows a keyword prefix
    let mut lexer = Lexer::new("rrrx eegaa");
    assert_eq!(lexer.current(), Some(&Token::Identifier("rrrx".to_string())));
    lexer.advance();
    assert_eq!(lexer.current(), Some(&Token::Identifier("eegaa".to_string())));
}

#[test]
fn test_two_char_operators_greedy() {
    let mut lexer = Lexer::new(">= <= == != > =");
    assert_eq!(lexer.current(), Some(&Token::GreaterEqual));
    lexer.advance();
    assert_eq!(lexer.current(), Some(&Token::LessEqual));
    lexer.advance();
    assert_eq!(lexer.current(), Some(&Token::Equal));
    lexer.advance();
    assert_eq!(lexer.current(), Some(&Token::NotEqual));
    lexer.advance();
    assert_eq!(lexer.current(), Some(&Token::Greater));
    lexer.advance();
    assert_eq!(lexer.current(), Some(&Token::Assign));
}

#[test]
fn test_unrecognized_characters_are_dropped() {
    // '#' and '@' produce no tokens; an overlong number is dropped too
    let mut lexer = Lexer::new("# 42 @ 99999999999 7");
    assert_eq!(lexer.current(), Some(&Token::Number(42)));
    lexer.advance();
    assert_eq!(lexer.current(), Some(&Token::Number(7)));
    lexer.advance();
    assert!(lexer.is_eof());
}
