use wabbit_compiler::tokenizer::{tokenize, Token, TokenType, TokenizeError};

#[test]
fn test_tokenize_simple() {
    let input = "print 123 + xy;";
    let tokens = tokenize(input.as_bytes()).unwrap();
    assert_eq!(
        tokens,
        vec![
            Token::new(TokenType::Print, "print".to_string()),
            Token::new(TokenType::Integer, "123".to_string()),
            Token::new(TokenType::Plus, "+".to_string()),
            Token::new(TokenType::Name, "xy".to_string()),
            Token::new(TokenType::Semi, ";".to_string()),
        ]
    );
}

#[test]
fn test_tokenize_keywords() {
    let input = "var if else while func return";
    let tokens = tokenize(input.as_bytes()).unwrap();
    assert_eq!(
        tokens,
        vec![
            Token::new(TokenType::Var, "var".to_string()),
            Token::new(TokenType::If, "if".to_string()),
            Token::new(TokenType::Else, "else".to_string()),
            Token::new(TokenType::While, "while".to_string()),
            Token::new(TokenType::Func, "func".to_string()),
            Token::new(TokenType::Return, "return".to_string()),
        ]
    );
}

#[test]
fn test_tokenize_symbols() {
    let input = "+*<==();{}";
    let tokens = tokenize(input.as_bytes()).unwrap();
    assert_eq!(
        tokens,
        vec![
            Token::new(TokenType::Plus, "+".to_string()),
            Token::new(TokenType::Times, "*".to_string()),
            Token::new(TokenType::Lt, "<".to_string()),
            Token::new(TokenType::Eq, "==".to_string()),
            Token::new(TokenType::Lparen, "(".to_string()),
            Token::new(TokenType::Rparen, ")".to_string()),
            Token::new(TokenType::Semi, ";".to_string()),
            Token::new(TokenType::Lbrace, "{".to_string()),
            Token::new(TokenType::Rbrace, "}".to_string()),
        ]
    );
}

#[test]
fn test_tokenize_with_comments() {
    let input = "print 123; // This is a comment\nvar x = 10;";
    let tokens = tokenize(input.as_bytes()).unwrap();
    assert_eq!(
        tokens,
        vec![
            Token::new(TokenType::Print, "print".to_string()),
            Token::new(TokenType::Integer, "123".to_string()),
            Token::new(TokenType::Semi, ";".to_string()),
            Token::new(TokenType::Var, "var".to_string()),
            Token::new(TokenType::Name, "x".to_string()),
            Token::new(TokenType::Assign, "=".to_string()),
            Token::new(TokenType::Integer, "10".to_string()),
            Token::new(TokenType::Semi, ";".to_string()),
        ]
    );
}

#[test]
fn tokenize_empty_input_gives_no_token() {
    assert_eq!(tokenize(b""), Ok(vec![]));
    assert_eq!(tokenize(b" \t\r\n"), Ok(vec![]));
}

#[test]
fn tokenize_rejects_unsupported_char() {
    assert_eq!(tokenize(b"x = 1 $ 2;"), Err(TokenizeError::UnsupportedChar('$')));
    assert_eq!(tokenize(b"a - b"), Err(TokenizeError::UnsupportedChar('-')));
}

#[test]
fn tokenize_rejects_a_single_slash() {
    assert_eq!(tokenize(b"1 / 2"), Err(TokenizeError::UnsupportedChar('/')));
    assert_eq!(tokenize(b"/"), Err(TokenizeError::UnsupportedChar('/')));
}

#[test]
fn tokenize_comment_at_the_end_needs_no_line_break() {
    assert_eq!(
        tokenize(b"x // the rest $ is skipped"),
        Ok(vec![Token::new(TokenType::Name, "x".to_string())])
    );
    assert_eq!(tokenize(b"//"), Ok(vec![]));
}

#[test]
fn tokenize_takes_the_longest_run() {
    assert_eq!(
        tokenize(b"variable var1 returns 12ab"),
        Ok(vec![
            Token::new(TokenType::Name, "variable".to_string()),
            Token::new(TokenType::Name, "var1".to_string()),
            Token::new(TokenType::Name, "returns".to_string()),
            Token::new(TokenType::Integer, "12".to_string()),
            Token::new(TokenType::Name, "ab".to_string()),
        ])
    );
}

#[test]
fn tokenize_tells_equality_from_assignment() {
    assert_eq!(
        tokenize(b"= == ==="),
        Ok(vec![
            Token::new(TokenType::Assign, "=".to_string()),
            Token::new(TokenType::Eq, "==".to_string()),
            Token::new(TokenType::Eq, "==".to_string()),
            Token::new(TokenType::Assign, "=".to_string()),
        ])
    );
}

#[test]
fn tokenize_comma_and_call() {
    assert_eq!(
        tokenize(b"f(a,1)"),
        Ok(vec![
            Token::new(TokenType::Name, "f".to_string()),
            Token::new(TokenType::Lparen, "(".to_string()),
            Token::new(TokenType::Name, "a".to_string()),
            Token::new(TokenType::Comma, ",".to_string()),
            Token::new(TokenType::Integer, "1".to_string()),
            Token::new(TokenType::Rparen, ")".to_string()),
        ])
    );
}

#[test]
fn tokenize_takes_bytes_as_characters() {
    // 0xa0 is the no-break space; 0xe9 is a letter outside ASCII.
    assert_eq!(
        tokenize(&[b'a', 0xa0, b'b']),
        Ok(vec![
            Token::new(TokenType::Name, "a".to_string()),
            Token::new(TokenType::Name, "b".to_string()),
        ])
    );
    assert_eq!(tokenize(&[b'a', 0xe9]), Err(TokenizeError::UnsupportedChar('\u{e9}')));
}
