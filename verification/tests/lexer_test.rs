use lexparse::{DefaultContext, LexContext, LexToken, Lexer, LexingRule, Position};

#[derive(Debug, Clone, PartialEq, Eq)]
enum TestToken {
    A { position: Position },
    B { position: Position },
    C { position: Position },
    Eof { position: Position },
}

impl LexToken for TestToken {
    fn position(&self) -> Option<Position> {
        Some(match self {
            TestToken::A { position }
            | TestToken::B { position }
            | TestToken::C { position }
            | TestToken::Eof { position } => *position,
        })
    }

    fn is_eof(&self) -> bool {
        matches!(self, TestToken::Eof { .. })
    }

    fn is_newline(&self) -> bool {
        false
    }

    fn is_whitespace(&self) -> bool {
        false
    }

    fn is_indent(&self) -> bool {
        false
    }
}

// Rules that match one fixed letter each; FailingRule moves and then fails.
enum TestRule {
    A,
    B,
    C,
    Eof,
    Failing,
}

impl<Ctx> LexingRule<Ctx, TestToken> for TestRule
where
    Ctx: LexContext,
{
    fn try_match(&self, ctx: &mut Ctx) -> Option<TestToken> {
        match self {
            TestRule::A => {
                if ctx.peek() == Some('a') {
                    let position = ctx.position();
                    ctx.advance();
                    Some(TestToken::A { position })
                } else {
                    None
                }
            }
            TestRule::B => {
                if ctx.peek() == Some('b') {
                    let position = ctx.position();
                    ctx.advance();
                    Some(TestToken::B { position })
                } else {
                    None
                }
            }
            TestRule::C => {
                if ctx.peek() == Some('c') {
                    let position = ctx.position();
                    ctx.advance();
                    Some(TestToken::C { position })
                } else {
                    None
                }
            }
            TestRule::Eof => {
                if ctx.is_eof() {
                    Some(TestToken::Eof {
                        position: ctx.position(),
                    })
                } else {
                    None
                }
            }
            TestRule::Failing => {
                // Try to match 'x' but fail after advancing.
                if ctx.peek() == Some('x') {
                    ctx.advance();
                    None
                } else {
                    None
                }
            }
        }
    }

    fn priority(&self) -> i32 {
        match self {
            TestRule::A => 10,
            TestRule::B => 5,
            TestRule::C => 1,
            TestRule::Eof => -1,
            TestRule::Failing => 20,
        }
    }

    fn quick_check(&self, first_char: Option<char>) -> Option<bool> {
        match self {
            TestRule::A => Some(first_char == Some('a')),
            TestRule::B => Some(first_char == Some('b')),
            _ => None,
        }
    }
}

#[test]
fn test_lexer_new() {
    let rules = vec![TestRule::A];
    let ctx = DefaultContext::new("a");
    let lexer: Lexer<DefaultContext, TestToken, TestRule> = Lexer::new(ctx, rules);
    assert!(!lexer.context().is_eof());
}

#[test]
fn test_lexer_from_str() {
    let rules = vec![TestRule::A];
    let lexer: Lexer<DefaultContext, TestToken, TestRule> = Lexer::from_str("a", rules);
    assert!(!lexer.context().is_eof());
}

#[test]
fn test_lexer_next_token_single() {
    let rules = vec![TestRule::A];
    let mut lexer: Lexer<DefaultContext, TestToken, TestRule> = Lexer::from_str("a", rules);

    let token = lexer.next_token();
    assert_eq!(
        token,
        Some(TestToken::A {
            position: Position::new()
        })
    );
}

#[test]
fn test_lexer_next_token_multiple() {
    let rules = vec![TestRule::A, TestRule::B];
    let mut lexer: Lexer<DefaultContext, TestToken, TestRule> = Lexer::from_str("ab", rules);

    assert_eq!(
        lexer.next_token(),
        Some(TestToken::A {
            position: Position::new()
        })
    );
    assert_eq!(
        lexer.next_token(),
        Some(TestToken::B {
            position: Position {
                line: 1,
                column: 2,
                offset: 1
            }
        })
    );
}

#[test]
fn test_lexer_priority() {
    // Both orders: ARule has higher priority than BRule.
    let rules = vec![TestRule::B, TestRule::A]; // B added first, but A has higher priority
    let mut lexer: Lexer<DefaultContext, TestToken, TestRule> = Lexer::from_str("a", rules);

    let token = lexer.next_token();
    assert_eq!(
        token,
        Some(TestToken::A {
            position: Position::new()
        })
    );
}

#[test]
fn test_lexer_quick_check_optimization() {
    // TestRule::A answers quick_check with Some(false) for 'b'.
    let rules = vec![TestRule::A, TestRule::B];
    let mut lexer: Lexer<DefaultContext, TestToken, TestRule> = Lexer::from_str("b", rules);

    let token = lexer.next_token();
    assert_eq!(
        token,
        Some(TestToken::B {
            position: Position::new()
        })
    );
}

#[test]
fn test_lexer_no_match() {
    let rules = vec![TestRule::A, TestRule::B];
    let mut lexer: Lexer<DefaultContext, TestToken, TestRule> = Lexer::from_str("x", rules);

    let token = lexer.next_token();
    assert_eq!(token, None);
}

#[test]
fn test_lexer_eof() {
    let rules = vec![TestRule::A, TestRule::Eof];
    let mut lexer: Lexer<DefaultContext, TestToken, TestRule> = Lexer::from_str("a", rules);

    let token1 = lexer.next_token();
    assert_eq!(
        token1,
        Some(TestToken::A {
            position: Position::new()
        })
    );

    let token2 = lexer.next_token();
    assert_eq!(
        token2,
        Some(TestToken::Eof {
            position: Position {
                line: 1,
                column: 2,
                offset: 1
            }
        })
    );
}

#[test]
fn test_lexer_tokenize() {
    let rules = vec![TestRule::A, TestRule::B, TestRule::Eof];
    let mut lexer: Lexer<DefaultContext, TestToken, TestRule> = Lexer::from_str("ab", rules);

    let tokens = lexer.tokenize();
    assert!(tokens.len() >= 2);
    assert_eq!(
        tokens[0],
        TestToken::A {
            position: Position::new()
        }
    );
    assert_eq!(
        tokens[1],
        TestToken::B {
            position: Position {
                line: 1,
                column: 2,
                offset: 1
            }
        }
    );
}

#[test]
fn test_lexer_iterator() {
    let rules = vec![TestRule::A, TestRule::B];
    let mut lexer: Lexer<DefaultContext, TestToken, TestRule> = Lexer::from_str("ab", rules);

    let mut tokens = Vec::new();
    while let Some(t) = lexer.next() {
        tokens.push(t);
    }
    assert_eq!(tokens.len(), 2);
    assert_eq!(
        tokens[0],
        TestToken::A {
            position: Position::new()
        }
    );
    assert_eq!(
        tokens[1],
        TestToken::B {
            position: Position {
                line: 1,
                column: 2,
                offset: 1
            }
        }
    );
}

#[test]
fn test_lexer_iterator_take() {
    let rules = vec![TestRule::A, TestRule::B];
    let mut lexer: Lexer<DefaultContext, TestToken, TestRule> = Lexer::from_str("ab", rules);

    let mut tokens = Vec::new();
    for _ in 0..1 {
        if let Some(t) = lexer.next() {
            tokens.push(t);
        }
    }
    assert_eq!(tokens.len(), 1);
    assert_eq!(
        tokens[0],
        TestToken::A {
            position: Position::new()
        }
    );
}

#[test]
fn test_lexer_empty_input() {
    let rules = vec![TestRule::Eof];
    let mut lexer: Lexer<DefaultContext, TestToken, TestRule> = Lexer::from_str("", rules);

    let token = lexer.next_token();
    assert!(matches!(token, Some(TestToken::Eof { .. })));
}

#[test]
fn test_lexer_rule_without_quick_check() {
    // TestRule::C answers quick_check with None; it must still match.
    let rules = vec![TestRule::C];
    let mut lexer: Lexer<DefaultContext, TestToken, TestRule> = Lexer::from_str("c", rules);

    let token = lexer.next_token();
    assert_eq!(
        token,
        Some(TestToken::C {
            position: Position::new()
        })
    );
}

#[test]
fn test_lexer_checkpoint_restore() {
    // The failing rule advances and then fails; the engine must restore the
    // cursor so the next rule sees the untouched input.
    let rules = vec![TestRule::Failing, TestRule::A];
    let mut lexer: Lexer<DefaultContext, TestToken, TestRule> = Lexer::from_str("a", rules);

    let token = lexer.next_token();
    assert_eq!(
        token,
        Some(TestToken::A {
            position: Position::new()
        })
    );
}
