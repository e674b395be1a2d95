use shellux::lexer::Lexer;
use shellux::token::TokenType;

#[test]
fn test_basic_tokens() {
    let mut lexer = Lexer::new("let x is 42");
    let tokens = lexer.tokenize();

    assert_eq!(tokens.len(), 5); // let, x, is, 42, EOF
    assert!(matches!(tokens[0].token_type, TokenType::Let));
    assert!(matches!(tokens[1].token_type, TokenType::Identifier(_)));
    assert!(matches!(tokens[2].token_type, TokenType::Is));
    assert!(matches!(tokens[3].token_type, TokenType::Integer(42)));
    assert!(matches!(tokens[4].token_type, TokenType::EOF));
}

#[test]
fn test_string_literal() {
    let mut lexer = Lexer::new(r#""Hello, world!""#);
    let tokens = lexer.tokenize();

    assert_eq!(tokens.len(), 2); // string, EOF
    if let TokenType::String(s) = &tokens[0].token_type {
        assert_eq!(s, "Hello, world!");
    } else {
        panic!("Expected string token");
    }
}

#[test]
fn test_command_execution() {
    let mut lexer = Lexer::new("$(ls -la)");
    let tokens = lexer.tokenize();

    assert_eq!(tokens.len(), 2); // command, EOF
    if let TokenType::Command(cmd) = &tokens[0].token_type {
        assert_eq!(cmd, "ls -la");
    } else {
        panic!("Expected command token");
    }
}

#[test]
fn test_token_positions_across_lines() {
    // Tokenizing "x is 42\nx": the tokens of the first line report line 1,
    // the identifier after the newline reports line 2.
    let mut lexer = Lexer::new("x is 42\nx");
    let tokens = lexer.tokenize();

    assert_eq!(tokens.len(), 6); // x, is, 42, newline, x, EOF
    assert_eq!((tokens[0].line, tokens[0].column), (1, 1));
    assert_eq!((tokens[1].line, tokens[1].column), (1, 3));
    assert_eq!((tokens[2].line, tokens[2].column), (1, 6));
    assert!(matches!(tokens[3].token_type, TokenType::Newline));
    assert_eq!((tokens[3].line, tokens[3].column), (1, 8));
    assert!(matches!(tokens[4].token_type, TokenType::Identifier(_)));
    assert_eq!((tokens[4].line, tokens[4].column), (2, 1));
}

#[test]
fn test_float_literal_keeps_text() {
    let mut lexer = Lexer::new("3.14");
    let tokens = lexer.tokenize();

    assert_eq!(tokens.len(), 2);
    if let TokenType::Float(text) = &tokens[0].token_type {
        assert_eq!(text, "3.14");
    } else {
        panic!("Expected float token");
    }
}

#[test]
fn test_integer_too_large_is_error_token() {
    let mut lexer = Lexer::new("99999999999999999999");
    let tokens = lexer.tokenize();

    assert_eq!(tokens.len(), 2);
    if let TokenType::Error(msg) = &tokens[0].token_type {
        assert_eq!(msg, "Invalid integer: 99999999999999999999");
    } else {
        panic!("Expected error token");
    }
}

#[test]
fn test_unterminated_string_is_error_token() {
    let mut lexer = Lexer::new("\"abc");
    let tokens = lexer.tokenize();

    assert!(matches!(tokens[0].token_type, TokenType::Error(_)));
    if let TokenType::Error(msg) = &tokens[0].token_type {
        assert_eq!(msg, "Unterminated string");
    }
}

#[test]
fn test_string_escapes() {
    let mut lexer = Lexer::new("\"a\\nb\\t\\\\\\\"q\\z\"");
    let tokens = lexer.tokenize();

    if let TokenType::String(s) = &tokens[0].token_type {
        assert_eq!(s, "a\nb\t\\\"q\\z");
    } else {
        panic!("Expected string token");
    }
}

#[test]
fn test_single_quoted_string_no_escapes() {
    let mut lexer = Lexer::new("'a\\nb'");
    let tokens = lexer.tokenize();

    if let TokenType::String(s) = &tokens[0].token_type {
        assert_eq!(s, "a\\nb");
    } else {
        panic!("Expected string token");
    }
}

#[test]
fn test_two_char_operators_greedy() {
    let mut lexer = Lexer::new("<= == != ** -> |> := << >>");
    let tokens = lexer.tokenize();

    assert!(matches!(tokens[0].token_type, TokenType::LessEqual));
    assert!(matches!(tokens[1].token_type, TokenType::Equal));
    assert!(matches!(tokens[2].token_type, TokenType::NotEqual));
    assert!(matches!(tokens[3].token_type, TokenType::Power));
    assert!(matches!(tokens[4].token_type, TokenType::Arrow));
    assert!(matches!(tokens[5].token_type, TokenType::Pipeline));
    assert!(matches!(tokens[6].token_type, TokenType::ColonAssign));
    assert!(matches!(tokens[7].token_type, TokenType::LeftShift));
    assert!(matches!(tokens[8].token_type, TokenType::RightShift));
}

#[test]
fn test_comments_are_tokens() {
    let mut lexer = Lexer::new("# hello\n/* block */ 1");
    let tokens = lexer.tokenize();

    if let TokenType::Comment(text) = &tokens[0].token_type {
        assert_eq!(text, " hello");
    } else {
        panic!("Expected comment token");
    }
    assert!(matches!(tokens[1].token_type, TokenType::Newline));
    if let TokenType::Comment(text) = &tokens[2].token_type {
        assert_eq!(text, " block ");
    } else {
        panic!("Expected comment token");
    }
    assert!(matches!(tokens[3].token_type, TokenType::Integer(1)));
}

#[test]
fn test_nested_command_parentheses() {
    let mut lexer = Lexer::new("$(echo $(date))");
    let tokens = lexer.tokenize();

    if let TokenType::Command(cmd) = &tokens[0].token_type {
        assert_eq!(cmd, "echo $(date)");
    } else {
        panic!("Expected command token");
    }
}

#[test]
fn test_unexpected_character_advances() {
    let mut lexer = Lexer::new("@1");
    let tokens = lexer.tokenize();

    assert_eq!(tokens.len(), 3); // error, 1, EOF
    if let TokenType::Error(msg) = &tokens[0].token_type {
        assert_eq!(msg, "Unexpected character: '@'");
    } else {
        panic!("Expected error token");
    }
    assert!(matches!(tokens[1].token_type, TokenType::Integer(1)));
}

#[test]
fn test_interpolation_start_token() {
    let mut lexer = Lexer::new("${x}");
    let tokens = lexer.tokenize();

    assert!(matches!(tokens[0].token_type, TokenType::InterpolationStart));
    assert!(matches!(tokens[1].token_type, TokenType::Identifier(_)));
    assert!(matches!(tokens[2].token_type, TokenType::RightBrace));
}

#[test]
fn test_cursor_helpers() {
    let mut lexer = Lexer::new("ab\ncd");
    // peek looks one past the current character; peek_ahead(n) looks n
    // further still
    assert_eq!(lexer.peek(), Some('b'));
    assert_eq!(lexer.peek_ahead(1), Some('\n'));
    assert_eq!(lexer.peek_ahead(3), Some('d'));
    assert_eq!(lexer.peek_ahead(4), None);
    lexer.advance();
    assert_eq!(lexer.peek(), Some('\n'));
    let token = lexer.next_token();
    // after "ab" the next token is the newline, still on line 1
    assert!(matches!(token.token_type, TokenType::Identifier(_)));
}

#[test]
fn test_skip_whitespace_stops_at_newline() {
    let mut lexer = Lexer::new("   \t\nx");
    lexer.skip_whitespace();
    let token = lexer.next_token();
    assert!(matches!(token.token_type, TokenType::Newline));
    assert_eq!((token.line, token.column), (1, 5));
}

#[test]
fn test_read_line_comment_direct() {
    let mut lexer = Lexer::new("# note\nrest");
    let text = lexer.read_line_comment();
    assert_eq!(text, " note");
    let token = lexer.next_token();
    assert!(matches!(token.token_type, TokenType::Newline));
}

#[test]
fn test_read_block_comment_direct() {
    let mut lexer = Lexer::new("/* a * b */9");
    let text = lexer.read_block_comment();
    assert_eq!(text, " a * b ");
    let token = lexer.next_token();
    assert!(matches!(token.token_type, TokenType::Integer(9)));
}

#[test]
fn test_unterminated_block_comment_runs_to_end() {
    let mut lexer = Lexer::new("/* open");
    let text = lexer.read_block_comment();
    assert_eq!(text, " open");
    let token = lexer.next_token();
    assert!(matches!(token.token_type, TokenType::EOF));
}

#[test]
fn test_unterminated_command_is_error_token() {
    let mut lexer = Lexer::new("$(ls");
    let tokens = lexer.tokenize();
    if let TokenType::Error(msg) = &tokens[0].token_type {
        assert_eq!(msg, "Unterminated command");
    } else {
        panic!("Expected error token");
    }
}

#[test]
fn test_stream_always_ends_with_eof() {
    let mut lexer = Lexer::new("");
    let tokens = lexer.tokenize();
    assert_eq!(tokens.len(), 1);
    assert!(matches!(tokens[0].token_type, TokenType::EOF));
    assert_eq!((tokens[0].line, tokens[0].column), (1, 1));
}
