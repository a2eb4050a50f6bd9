use lexparse::{DefaultContext, LexContext, LexToken, Lexer, LexingRule, Position};

#[derive(Debug, Clone, PartialEq, Eq)]
struct TestToken {
    value: String,
    position: Position,
    is_eof: bool,
    is_newline: bool,
    is_whitespace: bool,
    is_indent: bool,
}

impl LexToken for TestToken {
    fn position(&self) -> Option<Position> {
        Some(self.position)
    }

    fn is_eof(&self) -> bool {
        self.is_eof
    }

    fn is_newline(&self) -> bool {
        self.is_newline
    }

    fn is_whitespace(&self) -> bool {
        self.is_whitespace
    }

    fn is_indent(&self) -> bool {
        self.is_indent
    }
}

struct SimpleRule {
    match_char: char,
}

impl<Ctx> LexingRule<Ctx, TestToken> for SimpleRule
where
    Ctx: LexContext,
{
    fn try_match(&self, ctx: &mut Ctx) -> Option<TestToken> {
        if ctx.peek() == Some(self.match_char) {
            let position = ctx.position();
            ctx.advance();
            Some(TestToken {
                value: self.match_char.to_string(),
                position,
                is_eof: false,
                is_newline: false,
                is_whitespace: false,
                is_indent: false,
            })
        } else {
            None
        }
    }

    fn priority(&self) -> i32 {
        10
    }

    fn quick_check(&self, _first_char: Option<char>) -> Option<bool> {
        None
    }
}

struct DefaultPriorityRule;

impl<Ctx> LexingRule<Ctx, TestToken> for DefaultPriorityRule
where
    Ctx: LexContext,
{
    fn try_match(&self, _ctx: &mut Ctx) -> Option<TestToken> {
        None
    }

    // The conventional default priority
    fn priority(&self) -> i32 {
        0
    }

    fn quick_check(&self, _first_char: Option<char>) -> Option<bool> {
        None
    }
}

struct NoQuickCheckRule;

impl<Ctx> LexingRule<Ctx, TestToken> for NoQuickCheckRule
where
    Ctx: LexContext,
{
    fn try_match(&self, _ctx: &mut Ctx) -> Option<TestToken> {
        None
    }

    fn priority(&self) -> i32 {
        0
    }

    // The conventional default: no quick answer, the full match is tried
    fn quick_check(&self, _first_char: Option<char>) -> Option<bool> {
        None
    }
}

struct WithQuickCheckRule;

impl<Ctx> LexingRule<Ctx, TestToken> for WithQuickCheckRule
where
    Ctx: LexContext,
{
    fn quick_check(&self, first_char: Option<char>) -> Option<bool> {
        Some(first_char == Some('x'))
    }

    fn try_match(&self, ctx: &mut Ctx) -> Option<TestToken> {
        if ctx.peek() == Some('x') {
            let position = ctx.position();
            ctx.advance();
            Some(TestToken {
                value: "x".to_string(),
                position,
                is_eof: false,
                is_newline: false,
                is_whitespace: false,
                is_indent: false,
            })
        } else {
            None
        }
    }

    fn priority(&self) -> i32 {
        0
    }
}

#[test]
fn test_lex_token_position() {
    let pos = Position {
        line: 5,
        column: 10,
        offset: 100,
    };
    let token = TestToken {
        value: "test".to_string(),
        position: pos,
        is_eof: false,
        is_newline: false,
        is_whitespace: false,
        is_indent: false,
    };

    assert_eq!(token.position(), Some(pos));
}

#[test]
fn test_lex_token_is_eof() {
    let token = TestToken {
        value: "".to_string(),
        position: Position::new(),
        is_eof: true,
        is_newline: false,
        is_whitespace: false,
        is_indent: false,
    };

    assert!(token.is_eof());
}

#[test]
fn test_lex_token_is_newline() {
    let token = TestToken {
        value: "\n".to_string(),
        position: Position::new(),
        is_eof: false,
        is_newline: true,
        is_whitespace: false,
        is_indent: false,
    };

    assert!(token.is_newline());
}

#[test]
fn test_lex_token_is_whitespace() {
    let token = TestToken {
        value: "   ".to_string(),
        position: Position::new(),
        is_eof: false,
        is_newline: false,
        is_whitespace: true,
        is_indent: false,
    };

    assert!(token.is_whitespace());
}

#[test]
fn test_lex_token_is_indent() {
    let token = TestToken {
        value: "\t\t".to_string(),
        position: Position::new(),
        is_eof: false,
        is_newline: false,
        is_whitespace: true,
        is_indent: true,
    };

    assert!(token.is_indent());
}

#[test]
fn test_lexing_rule_default_priority() {
    let rules = vec![DefaultPriorityRule];
    let _lexer: Lexer<DefaultContext, TestToken, DefaultPriorityRule> =
        Lexer::from_str("test", rules);
    // The rule registers and sorts under the conventional default priority
}

#[test]
fn test_lexing_rule_custom_priority() {
    let rules = vec![SimpleRule { match_char: 'a' }];
    let mut lexer: Lexer<DefaultContext, TestToken, SimpleRule> = Lexer::from_str("a", rules);

    // Should match 'a' with priority 10
    let token = lexer.next_token();
    assert!(token.is_some());
}

#[test]
fn test_lexing_rule_default_quick_check() {
    // A rule whose quick_check gives no answer still compiles and registers
    let _rule = NoQuickCheckRule;
}

#[test]
fn test_lexing_rule_quick_check_implemented() {
    let rules = vec![WithQuickCheckRule];
    let mut lexer: Lexer<DefaultContext, TestToken, WithQuickCheckRule> =
        Lexer::from_str("x", rules);

    // Should match 'x'
    let token = lexer.next_token();
    assert!(token.is_some());

    // Should not match 'y' (quick_check answers false)
    let rules2 = vec![WithQuickCheckRule];
    let mut lexer2: Lexer<DefaultContext, TestToken, WithQuickCheckRule> =
        Lexer::from_str("y", rules2);
    let token2 = lexer2.next_token();
    assert!(token2.is_none());
}
