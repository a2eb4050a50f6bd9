use lexparse::{DefaultContext, LexContext, LexToken, Lexer, LexingRule, Position};

#[derive(Debug, Clone, PartialEq, Eq)]
enum Token {
    Keyword { value: String, position: Position },
    Ident { value: String, position: Position },
    Number { value: i64, position: Position },
    Operator { value: String, position: Position },
    Whitespace { position: Position },
    Eof { position: Position },
}

impl LexToken for Token {
    fn position(&self) -> Option<Position> {
        Some(match self {
            Token::Keyword { position, .. }
            | Token::Ident { position, .. }
            | Token::Number { position, .. }
            | Token::Operator { position, .. }
            | Token::Whitespace { position }
            | Token::Eof { position } => *position,
        })
    }

    fn is_eof(&self) -> bool {
        matches!(self, Token::Eof { .. })
    }

    fn is_newline(&self) -> bool {
        false
    }

    fn is_whitespace(&self) -> bool {
        matches!(self, Token::Whitespace { .. })
    }

    fn is_indent(&self) -> bool {
        false
    }
}

enum LangRule {
    Keyword(Vec<&'static str>),
    Ident,
    Number,
    Operator,
    Whitespace,
    Eof,
}

fn keyword_rule() -> LangRule {
    LangRule::Keyword(vec!["let", "if", "else", "fn", "return"])
}

impl<Ctx> LexingRule<Ctx, Token> for LangRule
where
    Ctx: LexContext,
{
    fn try_match(&self, ctx: &mut Ctx) -> Option<Token> {
        match self {
            LangRule::Keyword(keywords) => {
                let position = ctx.position();
                let remaining = ctx.remaining();

                for keyword in keywords {
                    if remaining.starts_with(keyword) {
                        // Check that it's not part of a longer identifier
                        if let Some(next_char) = remaining.as_str().chars().nth(keyword.len()) {
                            if next_char.is_alphanumeric() || next_char == '_' {
                                continue; // It's part of an identifier, not a keyword
                            }
                        }

                        for _ in 0..keyword.len() {
                            ctx.advance();
                        }

                        return Some(Token::Keyword {
                            value: keyword.to_string(),
                            position,
                        });
                    }
                }

                None
            }
            LangRule::Ident => {
                let position = ctx.position();
                let first = ctx.peek()?;

                if first.is_alphabetic() || first == '_' {
                    ctx.advance();
                    let rest = ctx.consume_while(|c| c.is_alphanumeric() || c == '_');

                    let mut value = String::with_capacity(1 + rest.len());
                    value.push(first);
                    value.push_str(rest.as_str());

                    Some(Token::Ident { value, position })
                } else {
                    None
                }
            }
            LangRule::Number => {
                let position = ctx.position();
                let first = ctx.peek()?;

                if first.is_ascii_digit() {
                    ctx.advance();
                    let digits = ctx.consume_while(|c| c.is_ascii_digit());

                    let mut value_str = String::with_capacity(1 + digits.len());
                    value_str.push(first);
                    value_str.push_str(digits.as_str());

                    if let Ok(value) = value_str.parse::<i64>() {
                        Some(Token::Number { value, position })
                    } else {
                        None
                    }
                } else {
                    None
                }
            }
            LangRule::Operator => {
                let position = ctx.position();
                let ch = ctx.peek()?;

                let operators = vec!["==", "!=", "<=", ">=", "&&", "||"];
                let remaining = ctx.remaining();

                // Try multi-character operators first
                for op in &operators {
                    if remaining.starts_with(op) {
                        for _ in 0..op.len() {
                            ctx.advance();
                        }
                        return Some(Token::Operator {
                            value: op.to_string(),
                            position,
                        });
                    }
                }

                // Single character operators
                match ch {
                    '+' | '-' | '*' | '/' | '=' | '<' | '>' | '!' | '(' | ')' | '{' | '}'
                    | ';' => {
                        ctx.advance();
                        Some(Token::Operator {
                            value: ch.to_string(),
                            position,
                        })
                    }
                    _ => None,
                }
            }
            LangRule::Whitespace => {
                if ctx.peek().is_some_and(|c| c.is_whitespace()) {
                    let position = ctx.position();
                    ctx.consume_while(|c| c.is_whitespace());
                    Some(Token::Whitespace { position })
                } else {
                    None
                }
            }
            LangRule::Eof => {
                if ctx.is_eof() {
                    Some(Token::Eof {
                        position: ctx.position(),
                    })
                } else {
                    None
                }
            }
        }
    }

    fn priority(&self) -> i32 {
        match self {
            LangRule::Keyword(_) => 20,
            LangRule::Ident => 15,
            LangRule::Number => 15,
            LangRule::Operator => 10,
            LangRule::Whitespace => 1,
            LangRule::Eof => -1,
        }
    }

    fn quick_check(&self, first_char: Option<char>) -> Option<bool> {
        match self {
            LangRule::Keyword(_) => match first_char? {
                'a'..='z' | 'A'..='Z' => Some(true),
                _ => Some(false),
            },
            LangRule::Ident => match first_char? {
                'a'..='z' | 'A'..='Z' | '_' => Some(true),
                ch if ch.is_alphanumeric() => Some(true),
                _ => Some(false),
            },
            LangRule::Number => match first_char? {
                '0'..='9' => Some(true),
                _ => Some(false),
            },
            LangRule::Operator => match first_char? {
                '+' | '-' | '*' | '/' | '=' | '<' | '>' | '!' | '(' | ')' | '{' | '}' | ';'
                | '&' | '|' => Some(true),
                _ => Some(false),
            },
            LangRule::Whitespace => match first_char? {
                ' ' | '\t' | '\r' | '\n' => Some(true),
                _ => Some(false),
            },
            LangRule::Eof => None,
        }
    }
}

fn create_lexer(input: &str) -> Lexer<DefaultContext, Token, LangRule> {
    let rules = vec![
        keyword_rule(),
        LangRule::Ident,
        LangRule::Number,
        LangRule::Operator,
        LangRule::Whitespace,
        LangRule::Eof,
    ];
    Lexer::from_str(input, rules)
}

#[test]
fn test_integration_simple_statement() {
    let input = "let x = 42";
    let mut lexer = create_lexer(input);

    let tokens: Vec<_> = lexer
        .tokenize()
        .into_iter()
        .filter(|t| !t.is_whitespace())
        .collect();

    assert_eq!(tokens.len(), 4);
    assert!(matches!(&tokens[0], Token::Keyword { value, .. } if value == "let"));
    assert!(matches!(&tokens[1], Token::Ident { value, .. } if value == "x"));
    assert!(matches!(&tokens[2], Token::Operator { value, .. } if value == "="));
    assert!(matches!(&tokens[3], Token::Number { value, .. } if *value == 42));
}

#[test]
fn test_integration_keyword_vs_identifier() {
    let input = "let let_var = 10";
    let mut lexer = create_lexer(input);

    let tokens: Vec<_> = lexer
        .tokenize()
        .into_iter()
        .filter(|t| !t.is_whitespace())
        .collect();

    // First "let" should be a keyword
    assert!(matches!(&tokens[0], Token::Keyword { value, .. } if value == "let"));
    // "let_var" should be an identifier (not keyword)
    assert!(matches!(&tokens[1], Token::Ident { value, .. } if value == "let_var"));
}

#[test]
fn test_integration_multiline() {
    let input = "let x = 10\nlet y = 20";
    let mut lexer = create_lexer(input);

    let tokens: Vec<_> = lexer
        .tokenize()
        .into_iter()
        .filter(|t| !t.is_whitespace() && !t.is_eof())
        .collect();

    assert!(tokens.len() >= 8); // Should have at least 8 tokens
    assert!(matches!(&tokens[0], Token::Keyword { value, .. } if value == "let"));
}

#[test]
fn test_integration_complex_expression() {
    let input = "if x > 10 && y < 20 { return x + y }";
    let mut lexer = create_lexer(input);

    let tokens: Vec<_> = lexer
        .tokenize()
        .into_iter()
        .filter(|t| !t.is_whitespace())
        .collect();

    let has_gt = tokens
        .iter()
        .any(|t| matches!(t, Token::Operator { value, .. } if value == ">"));
    let has_and = tokens
        .iter()
        .any(|t| matches!(t, Token::Operator { value, .. } if value == "&&"));
    let has_lt = tokens
        .iter()
        .any(|t| matches!(t, Token::Operator { value, .. } if value == "<"));

    assert!(has_gt);
    assert!(has_and);
    assert!(has_lt);
}

#[test]
fn test_integration_unicode() {
    let input = "let 变量 = 42";
    let mut lexer = create_lexer(input);

    let tokens: Vec<_> = lexer
        .tokenize()
        .into_iter()
        .filter(|t| !t.is_whitespace())
        .collect();

    // Chinese identifier should be recognized
    assert!(tokens.len() >= 3);
    assert!(matches!(&tokens[0], Token::Keyword { value, .. } if value == "let"));
    if tokens.len() > 1 {
        assert!(matches!(&tokens[1], Token::Ident { value, .. } if value == "变量"));
    }
    let number_token = tokens
        .iter()
        .find(|t| matches!(t, Token::Number { value: 42, .. }));
    assert!(number_token.is_some());
}

#[test]
fn test_integration_empty_input() {
    let mut lexer = create_lexer("");
    let tokens = lexer.tokenize();
    // Empty input should result in no tokens or just EOF
    assert!(tokens.is_empty() || tokens.iter().all(|t| t.is_eof()));
}

#[test]
fn test_integration_only_whitespace() {
    let mut lexer = create_lexer("   \t\n  ");
    let tokens: Vec<_> = lexer
        .tokenize()
        .into_iter()
        .filter(|t| !t.is_whitespace())
        .collect();
    // Should only have whitespace tokens or EOF
    assert!(tokens.is_empty() || tokens.iter().all(|t| t.is_eof()));
}

#[test]
fn test_integration_priority_order() {
    // Test that keywords are matched before identifiers
    let input = "let";
    let mut lexer = create_lexer(input);

    let tokens: Vec<_> = lexer
        .tokenize()
        .into_iter()
        .filter(|t| !t.is_whitespace())
        .collect();

    // "let" should be matched as keyword, not identifier
    assert!(matches!(&tokens[0], Token::Keyword { value, .. } if value == "let"));
}
