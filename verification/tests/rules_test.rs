use lexparse::{default_rules, Checkpoint, Cursor, DefaultContext, LexToken, Lexer, Position, SimpleRule, SimpleToken};

fn tokenize(input: &str) -> Vec<SimpleToken> {
    let mut lexer: Lexer<DefaultContext, SimpleToken, SimpleRule> =
        Lexer::from_str(input, default_rules());
    lexer.tokenize()
}

#[test]
fn stock_rules_simple_statement() {
    let tokens: Vec<_> = tokenize("let x = 42")
        .into_iter()
        .filter(|t| !t.is_whitespace())
        .collect();

    assert_eq!(tokens.len(), 4);
    assert!(matches!(&tokens[0], SimpleToken::Ident { value, .. } if value == "let"));
    assert!(matches!(&tokens[1], SimpleToken::Ident { value, .. } if value == "x"));
    assert!(matches!(&tokens[2], SimpleToken::Operator { value, .. } if value == "="));
    assert!(matches!(&tokens[3], SimpleToken::Number { value, .. } if value == "42"));
}

#[test]
fn stock_rules_decimal_number() {
    let tokens = tokenize("3.14");
    assert_eq!(tokens.len(), 1);
    assert_eq!(
        tokens[0],
        SimpleToken::Number {
            value: "3.14".to_string(),
            position: Position::new()
        }
    );
}

#[test]
fn stock_rules_number_dot_without_digit() {
    // "5." must lex as the number "5" followed by the operator "."
    let tokens = tokenize("5.");
    assert_eq!(tokens.len(), 2);
    assert!(matches!(&tokens[0], SimpleToken::Number { value, .. } if value == "5"));
    assert!(matches!(&tokens[1], SimpleToken::Operator { value, .. } if value == "."));
}

#[test]
fn stock_rules_longest_operator_wins() {
    let tokens = tokenize("==");
    assert_eq!(tokens.len(), 1);
    assert!(matches!(&tokens[0], SimpleToken::Operator { value, .. } if value == "=="));

    let tokens2 = tokenize("= =");
    let ops: Vec<_> = tokens2
        .into_iter()
        .filter(|t| !t.is_whitespace())
        .collect();
    assert_eq!(ops.len(), 2);
    assert!(matches!(&ops[0], SimpleToken::Operator { value, .. } if value == "="));
}

#[test]
fn stock_rules_newline_token() {
    let tokens = tokenize("a\nb");
    assert_eq!(tokens.len(), 3);
    assert!(matches!(&tokens[1], SimpleToken::Newline { .. }));
    assert!(
        matches!(&tokens[2], SimpleToken::Ident { position, .. } if position.line == 2 && position.column == 1)
    );
}

#[test]
fn stock_rules_whitespace_excludes_newline() {
    let tokens = tokenize("  \n  ");
    assert_eq!(tokens.len(), 3);
    assert!(matches!(&tokens[0], SimpleToken::Whitespace { value, .. } if value == "  "));
    assert!(matches!(&tokens[1], SimpleToken::Newline { .. }));
    assert!(matches!(&tokens[2], SimpleToken::Whitespace { value, .. } if value == "  "));
}

#[test]
fn stock_rules_unicode_identifier() {
    // Identifiers cover any alphabetic character, so a CJK name lexes as one
    // identifier; a digit-led input does not.
    let tokens = tokenize("变量");
    assert_eq!(tokens.len(), 1);
    assert!(matches!(&tokens[0], SimpleToken::Ident { value, .. } if value == "变量"));

    let tokens2 = tokenize("9ab");
    assert!(matches!(&tokens2[0], SimpleToken::Number { value, .. } if value == "9"));
}

#[test]
fn stock_rules_underscore_identifier() {
    let tokens = tokenize("_name1");
    assert_eq!(tokens.len(), 1);
    assert!(matches!(&tokens[0], SimpleToken::Ident { value, .. } if value == "_name1"));
}

#[test]
fn stock_rules_empty_input() {
    let tokens = tokenize("");
    assert!(tokens.is_empty());
}

#[test]
fn stock_rules_positions_advance() {
    // Progress: every accepted token starts strictly after the one before it.
    let tokens = tokenize("ab + 12");
    let mut last_offset = None;
    for t in &tokens {
        let pos = t.position().unwrap();
        if let Some(prev) = last_offset {
            assert!(pos.offset > prev);
        }
        last_offset = Some(pos.offset);
    }
}

#[test]
fn simple_token_is_indent() {
    let ws = SimpleToken::Whitespace {
        value: "    ".to_string(),
        position: Position::new(),
    };
    assert!(ws.is_indent());
    let tab = SimpleToken::Whitespace {
        value: "\t  ".to_string(),
        position: Position::new(),
    };
    assert!(tab.is_indent());
    let ident = SimpleToken::Ident {
        value: "x".to_string(),
        position: Position::new(),
    };
    assert!(!ident.is_indent());
}

#[test]
fn text_slice_shares_buffer() {
    let cursor = Cursor::new("hello");
    let slice = cursor.peek_slice(3);
    // The slice keeps a handle on the same buffer text
    let buffer = slice.buffer();
    assert_eq!(buffer.as_str(), "hello");
    assert_eq!(slice.start(), 0);
    assert_eq!(slice.end(), 3);
    assert_eq!(slice.len(), 3);
    assert!(!slice.is_empty());
    assert_eq!(slice.as_str(), "hel");
    assert_eq!(slice.to_string(), "hel");
    assert_eq!(slice.get(1), 'e');
    assert!(slice.starts_with("he"));
    assert!(!slice.starts_with("el"));
}

#[test]
fn checkpoint_accessors() {
    let cp = Checkpoint::new(7, Position::at(2, 3, 9));
    assert_eq!(cp.index(), 7);
    assert_eq!(cp.current(), 7);
    assert_eq!(cp.token_index(), 7);
    assert_eq!(cp.position(), Position::at(2, 3, 9));
}

#[test]
fn checkpoint_equality_by_index() {
    // Checkpoints compare by index alone
    let a = Checkpoint::new(7, Position::at(2, 3, 9));
    let b = Checkpoint::new(7, Position::at(5, 1, 20));
    let c = Checkpoint::new(8, Position::at(2, 3, 9));
    assert_eq!(a, b);
    assert_ne!(a, c);
}
