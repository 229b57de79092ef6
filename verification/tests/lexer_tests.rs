use atomic_css::lexer::Token;

#[test]
fn test_token_lparen() {
    let mut lexer = Token::lexer("(");
    assert_eq!(lexer.next(), Some(Ok(Token::LParen)));
}

#[test]
fn test_token_rparen() {
    let mut lexer = Token::lexer(")");
    assert_eq!(lexer.next(), Some(Ok(Token::RParen)));
}

#[test]
fn test_token_identifier() {
    let mut lexer = Token::lexer("identifier");
    assert_eq!(
        lexer.next(),
        Some(Ok(Token::Identifier("identifier".to_string())))
    );
}

#[test]
fn test_token_string() {
    let mut lexer = Token::lexer("`string`");
    assert_eq!(lexer.next(), Some(Ok(Token::String("string".to_string()))));
}

#[test]
fn test_token_complex() {
    let mut lexer = Token::lexer("(identifier1 `string1` identifier2 `string2`)");
    assert_eq!(lexer.next(), Some(Ok(Token::LParen)));
    assert_eq!(
        lexer.next(),
        Some(Ok(Token::Identifier("identifier1".to_string())))
    );
    assert_eq!(lexer.next(), Some(Ok(Token::String("string1".to_string()))));
    assert_eq!(
        lexer.next(),
        Some(Ok(Token::Identifier("identifier2".to_string())))
    );
    assert_eq!(lexer.next(), Some(Ok(Token::String("string2".to_string()))));
    assert_eq!(lexer.next(), Some(Ok(Token::RParen)));
}

#[test]
fn test_token_kind_sequence() {
    // Parens, an identifier, a backtick string, and a comment through the
    // end of its line: exactly this token sequence, nothing for the comment.
    let mut lexer = Token::lexer("( ) identifier `str` ; comment\n");
    assert_eq!(lexer.next(), Some(Ok(Token::LParen)));
    assert_eq!(lexer.next(), Some(Ok(Token::RParen)));
    assert_eq!(
        lexer.next(),
        Some(Ok(Token::Identifier("identifier".to_string())))
    );
    assert_eq!(lexer.next(), Some(Ok(Token::String("str".to_string()))));
    assert_eq!(lexer.next(), None);
}

#[test]
fn test_token_string_preserves_bytes() {
    let mut lexer = Token::lexer("`  spaced  out  `");
    assert_eq!(
        lexer.next(),
        Some(Ok(Token::String("  spaced  out  ".to_string())))
    );
}

#[test]
fn test_token_unterminated_string_fails() {
    let mut lexer = Token::lexer("`never closed");
    assert_eq!(lexer.next(), Some(Err(())));
}

#[test]
fn test_token_unknown_character_fails() {
    let mut lexer = Token::lexer("%");
    assert_eq!(lexer.next(), Some(Err(())));
    let span = lexer.span();
    assert_eq!((span.start, span.end), (0, 1));
}

#[test]
fn test_token_comment_without_newline_fails() {
    // A comment must run through a line break; at the end of the input the
    // `;` matches no token.
    let mut lexer = Token::lexer("; dangling");
    assert_eq!(lexer.next(), Some(Err(())));
}

#[test]
fn test_spans_are_byte_offsets() {
    // "\u{e9}" is two bytes in UTF-8: spans count bytes, not characters.
    let mut lexer = Token::lexer("`\u{e9}` (");
    assert_eq!(lexer.next(), Some(Ok(Token::String("\u{e9}".to_string()))));
    let span = lexer.span();
    assert_eq!((span.start, span.end), (0, 4));
    assert_eq!(lexer.next(), Some(Ok(Token::LParen)));
    let span = lexer.span();
    assert_eq!((span.start, span.end), (5, 6));
}

#[test]
fn test_token_identifier_prefixes() {
    let mut lexer = Token::lexer("&sel @media a-b_9");
    assert_eq!(lexer.next(), Some(Ok(Token::Identifier("&sel".to_string()))));
    assert_eq!(
        lexer.next(),
        Some(Ok(Token::Identifier("@media".to_string())))
    );
    assert_eq!(
        lexer.next(),
        Some(Ok(Token::Identifier("a-b_9".to_string())))
    );
    assert_eq!(lexer.next(), None);
}
