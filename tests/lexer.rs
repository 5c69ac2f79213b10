use rune_cfg::lexer::{Lexer, Token};

#[test]
fn lexer_test_full_rune_example() {
    let input = r#"
gather "defaults.rune" as defaults
name "RuneApp"
app:
  name name
  version "1.0.0"
  description None
end
"#;
    let mut lexer = Lexer::new(input);
    let mut expected_tokens = vec![
        Token::Newline,
        Token::Gather,
        Token::String("defaults.rune".into()),
        Token::As,
        Token::Ident("defaults".into()),
        Token::Newline,
        Token::Ident("name".into()),
        Token::String("RuneApp".into()),
        Token::Newline,
        Token::Ident("app".into()),
        Token::Colon,
        Token::Newline,
        Token::Ident("name".into()),
        Token::Ident("name".into()),
        Token::Newline,
        Token::Ident("version".into()),
        Token::String("1.0.0".into()),
        Token::Newline,
        Token::Ident("description".into()),
        Token::Null,
        Token::Newline,
        Token::End,
        Token::Newline,
        Token::Eof,
    ];
    while !expected_tokens.is_empty() {
        let expected = expected_tokens.remove(0);
        let tok = if expected == Token::String("defaults.rune".into()) {
            lexer.next_token_in_array()
        } else {
            lexer.next_token()
        };
        println!("{:?}", tok);
        assert_eq!(tok, Ok(expected));
    }
}

#[test]
fn lexer_test_dollar_namespace_tokens() {
    let input = r#"$env $sys $runtime"#;
    let mut lexer = Lexer::new(input);
    let expected_tokens = vec![
        Token::Dollar,
        Token::Ident("env".into()),
        Token::Dollar,
        Token::Ident("sys".into()),
        Token::Dollar,
        Token::Ident("runtime".into()),
        Token::Eof,
    ];
    for expected in expected_tokens {
        let tok = lexer.next_token();
        println!("{:?}", tok);
        assert_eq!(tok, Ok(expected));
    }
}

#[test]
fn lexer_test_invalid_raw_string_error() {
    let input = r#"rhello"#;
    let mut lexer = Lexer::new(input);
    let result = lexer.next_token();
    assert_eq!(result, Ok(Token::Ident("rhello".into())));
}

#[test]
fn lexer_test_empty_array() {
    let input = r#"plugins []"#;
    let mut lexer = Lexer::new(input);
    let expected_tokens = vec![
        Token::Ident("plugins".into()),
        Token::LBracket,
        Token::RBracket,
        Token::Eof,
    ];
    for expected in expected_tokens {
        let tok = lexer.next_token();
        assert_eq!(tok, Ok(expected));
    }
}

#[test]
fn lexer_test_string_escapes() {
    let input = r#"
escaped "\n\t\\\"\'\$"
normal "hello"
"#;
    let mut lexer = Lexer::new(input);
    let expected_tokens = vec![
        Token::Newline,
        Token::Ident("escaped".into()),
        Token::String("\n\t\\\"\'$".into()),
        Token::Newline,
        Token::Ident("normal".into()),
        Token::String("hello".into()),
        Token::Newline,
        Token::Eof,
    ];
    for expected in expected_tokens {
        let tok = lexer.next_token().expect("Failed to get token");
        assert_eq!(tok, expected);
    }
}

#[test]
fn lexer_test_regex_literal() {
    let input = r#"r"^foo.*bar$""#;
    let mut lexer = Lexer::new(input);
    let tok = lexer.next_token();
    assert_eq!(tok, Ok(Token::Regex("^foo.*bar$".into())));
}

#[test]
fn lexer_test_regex_with_command_like_content() {
    let input = r#"r"notify-send 'Test'""#;
    let mut lexer = Lexer::new(input);
    let tok = lexer.next_token();
    assert_eq!(tok, Ok(Token::Regex("notify-send 'Test'".into())));
}

#[test]
fn lexer_test_regex_with_escape() {
    let input = r#"r"\d{3}-\d{2}-\d{4}""#;
    let mut lexer = Lexer::new(input);
    let tok = lexer.next_token();
    assert_eq!(tok, Ok(Token::Regex("\\d{3}-\\d{2}-\\d{4}".into())));
}

#[test]
fn lexer_test_hyphen_and_underscore_identifiers() {
    let input = "foo-bar qux123";
    let mut lexer = Lexer::new(input);
    let expected_tokens = vec![
        Token::Ident("foo-bar".into()),
        Token::Ident("qux123".into()),
        Token::Eof,
    ];
    for expected in expected_tokens {
        let tok = lexer.next_token().unwrap();
        assert_eq!(tok, expected);
    }
}

#[test]
fn tests_test_full_rune_example() {
    let input = r#"
gather "defaults.rune" as defaults
name "RuneApp"
app:
  name name
  version "1.0.0"
  description None
end
"#;
    let mut lexer = Lexer::new(input);
    let mut expected_tokens = vec![
        Token::Newline,
        Token::Gather,
        Token::String("defaults.rune".into()),
        Token::As,
        Token::Ident("defaults".into()),
        Token::Newline,
        Token::Ident("name".into()),
        Token::String("RuneApp".into()),
        Token::Newline,
        Token::Ident("app".into()),
        Token::Colon,
        Token::Newline,
        Token::Ident("name".into()),
        Token::Ident("name".into()),
        Token::Newline,
        Token::Ident("version".into()),
        Token::String("1.0.0".into()),
        Token::Newline,
        Token::Ident("description".into()),
        Token::Null,
        Token::Newline,
        Token::End,
        Token::Newline,
        Token::Eof,
    ];
    while !expected_tokens.is_empty() {
        let expected = expected_tokens.remove(0);
        let tok = if expected == Token::String("defaults.rune".into()) {
            lexer.next_token_in_array()
        } else {
            lexer.next_token()
        };
        println!("{:?}", tok);
        assert_eq!(tok, Ok(expected));
    }
}

#[test]
fn tests_test_dollar_namespace_tokens() {
    let input = r#"$env $sys $runtime"#;
    let mut lexer = Lexer::new(input);
    let expected_tokens = vec![
        Token::Dollar,
        Token::Ident("env".into()),
        Token::Dollar,
        Token::Ident("sys".into()),
        Token::Dollar,
        Token::Ident("runtime".into()),
        Token::Eof,
    ];
    for expected in expected_tokens {
        let tok = lexer.next_token();
        println!("{:?}", tok);
        assert_eq!(tok, Ok(expected));
    }
}

#[test]
fn tests_test_invalid_raw_string_error() {
    let input = r#"rhello"#;
    let mut lexer = Lexer::new(input);
    let result = lexer.next_token();
    assert_eq!(result, Ok(Token::Ident("rhello".into())));
}

#[test]
fn tests_test_empty_array() {
    let input = r#"plugins []"#;
    let mut lexer = Lexer::new(input);
    let expected_tokens = vec![
        Token::Ident("plugins".into()),
        Token::LBracket,
        Token::RBracket,
        Token::Eof,
    ];
    for expected in expected_tokens {
        let tok = lexer.next_token();
        assert_eq!(tok, Ok(expected));
    }
}

#[test]
fn tests_test_string_escapes() {
    let input = r#"
escaped "\n\t\\\"\'\$"
normal "hello"
"#;
    let mut lexer = Lexer::new(input);
    let expected_tokens = vec![
        Token::Newline,
        Token::Ident("escaped".into()),
        Token::String("\n\t\\\"\'$".into()),
        Token::Newline,
        Token::Ident("normal".into()),
        Token::String("hello".into()),
        Token::Newline,
        Token::Eof,
    ];
    for expected in expected_tokens {
        let tok = lexer.next_token().expect("Failed to get token");
        assert_eq!(tok, expected);
    }
}

#[test]
fn tests_test_regex_literal() {
    let input = r#"r"^foo.*bar$""#;
    let mut lexer = Lexer::new(input);
    let tok = lexer.next_token();
    assert_eq!(tok, Ok(Token::Regex("^foo.*bar$".into())));
}

#[test]
fn tests_test_regex_with_command_like_content() {
    let input = r#"r"notify-send 'Test'""#;
    let mut lexer = Lexer::new(input);
    let tok = lexer.next_token();
    assert_eq!(tok, Ok(Token::Regex("notify-send 'Test'".into())));
}

#[test]
fn tests_test_regex_with_escape() {
    let input = r#"r"\d{3}-\d{2}-\d{4}""#;
    let mut lexer = Lexer::new(input);
    let tok = lexer.next_token();
    assert_eq!(tok, Ok(Token::Regex("\\d{3}-\\d{2}-\\d{4}".into())));
}

#[test]
fn tests_test_hyphen_and_underscore_identifiers() {
    let input = "foo-bar qux123";
    let mut lexer = Lexer::new(input);
    let expected_tokens = vec![
        Token::Ident("foo-bar".into()),
        Token::Ident("qux123".into()),
        Token::Eof,
    ];
    for expected in expected_tokens {
        let tok = lexer.next_token().unwrap();
        assert_eq!(tok, expected);
    }
}

#[test]
fn escapes_expand_to_single_characters() {
    let mut lexer = Lexer::new(r#""\n\t\\\"\'\$""#);
    assert_eq!(lexer.next_token(), Ok(Token::String("\n\t\\\"'$".into())));
}

#[test]
fn regex_keeps_backslashes() {
    let mut lexer = Lexer::new(r#"r"\d{3}-\d{2}-\d{4}""#);
    assert_eq!(lexer.next_token(), Ok(Token::Regex(r"\d{3}-\d{2}-\d{4}".into())));
}

#[test]
fn keywords_of_conditionals() {
    let mut lexer = Lexer::new("if else elseif endif end null None true false");
    let expected = vec![
        Token::If,
        Token::Else,
        Token::ElseIf,
        Token::EndIf,
        Token::End,
        Token::Null,
        Token::Null,
        Token::Bool(true),
        Token::Bool(false),
        Token::Eof,
        Token::Eof,
    ];
    for t in expected {
        assert_eq!(lexer.next_token(), Ok(t));
    }
}

#[test]
fn number_is_kept_exactly() {
    let mut lexer = Lexer::new("007.250 8080");
    assert_eq!(
        lexer.next_token(),
        Ok(Token::Number(rune_cfg::number::Number { whole: vec![7], fraction: vec![2, 5] }))
    );
    assert_eq!(
        lexer.next_token(),
        Ok(Token::Number(rune_cfg::number::Number { whole: vec![8, 0, 8, 0], fraction: vec![] }))
    );
}

#[test]
fn number_with_two_dots_is_a_type_error() {
    let mut lexer = Lexer::new("1.2.3");
    let err = lexer.next_token().unwrap_err();
    assert!(matches!(err, rune_cfg::RuneError::TypeError { code: Some(102), line: 1, column: 5, .. }));
}

#[test]
fn unclosed_string_is_reported() {
    let mut lexer = Lexer::new("name \"abc");
    lexer.next_token().unwrap();
    let err = lexer.next_token().unwrap_err();
    assert!(matches!(err, rune_cfg::RuneError::UnclosedString { code: Some(103), quote: '"', .. }));
}

#[test]
fn closed_string_at_end_of_input() {
    let mut lexer = Lexer::new("name \"abc\"");
    lexer.next_token().unwrap();
    assert_eq!(lexer.next_token(), Ok(Token::String("abc".into())));
    assert_eq!(lexer.next_token(), Ok(Token::Eof));
}

#[test]
fn unclosed_regex_is_reported() {
    let mut lexer = Lexer::new("r\"abc");
    let err = lexer.next_token().unwrap_err();
    assert!(matches!(err, rune_cfg::RuneError::UnclosedString { code: Some(103), .. }));
}

#[test]
fn unexpected_character_is_reported() {
    let mut lexer = Lexer::new("  %");
    let err = lexer.next_token().unwrap_err();
    assert!(matches!(err, rune_cfg::RuneError::UnexpectedCharacter { character: '%', code: Some(104), line: 1, column: 3, .. }));
}

#[test]
fn comments_and_commas_are_skipped() {
    let mut lexer = Lexer::new("a, b # note\nc");
    assert_eq!(lexer.next_token(), Ok(Token::Ident("a".into())));
    assert_eq!(lexer.next_token(), Ok(Token::Ident("b".into())));
    assert_eq!(lexer.next_token(), Ok(Token::Newline));
    assert_eq!(lexer.next_token(), Ok(Token::Ident("c".into())));
    assert_eq!(lexer.line(), 2);
    assert_eq!(lexer.column(), 1);
}

#[test]
fn newlines_skipped_inside_arrays() {
    let mut lexer = Lexer::new("\n\n x");
    assert_eq!(lexer.next_token_in_array(), Ok(Token::Ident("x".into())));
}
