use lexparse::parse_context::DefaultContext;
use lexparse::{AstNode, ParseContext, Parser, ParsingRule, Position};

#[derive(Debug, Clone, Copy, PartialEq, Eq)]
enum Tok {
    Num(i32),
    Plus,
}

#[derive(Debug, Clone, PartialEq)]
enum Expr {
    Num(i32),
    Sum(i32, i32),
}

impl AstNode for Expr {
    fn position(&self) -> Option<Position> {
        None
    }

    fn span(&self) -> Option<(Position, Position)> {
        None
    }
}

enum ExprRule {
    // number '+' number, tried first
    Sum,
    // a bare number, the fallback
    Num,
}

impl<Ctx: ParseContext<Tok>> ParsingRule<Ctx, Tok, Expr> for ExprRule {
    fn try_parse(&self, ctx: &mut Ctx) -> Option<Expr> {
        match self {
            ExprRule::Sum => {
                let a = match ctx.peek()? {
                    Tok::Num(v) => *v,
                    _ => return None,
                };
                ctx.advance();
                match ctx.peek() {
                    Some(Tok::Plus) => {}
                    _ => return None,
                }
                ctx.advance();
                let b = match ctx.peek() {
                    Some(Tok::Num(v)) => *v,
                    _ => return None,
                };
                ctx.advance();
                Some(Expr::Sum(a, b))
            }
            ExprRule::Num => {
                let v = match ctx.peek()? {
                    Tok::Num(v) => *v,
                    _ => return None,
                };
                ctx.advance();
                Some(Expr::Num(v))
            }
        }
    }

    fn priority(&self) -> i32 {
        match self {
            ExprRule::Sum => 15,
            ExprRule::Num => 10,
        }
    }

    fn quick_check(&self, current: Option<&Tok>) -> Option<bool> {
        Some(matches!(current?, Tok::Num(_)))
    }
}

#[test]
fn parser_parse_one_number() {
    let tokens = vec![Tok::Num(42)];
    let mut parser: Parser<DefaultContext<Tok>, Tok, Expr, ExprRule> =
        Parser::new(DefaultContext::from_token_iter(tokens), vec![ExprRule::Num]);
    assert_eq!(parser.parse_one(), Some(Expr::Num(42)));
}

#[test]
fn parser_sum_wins_by_priority() {
    // 3 + 4: the higher-priority rule consumes the whole sum, however the
    // rules were registered
    let tokens = vec![Tok::Num(3), Tok::Plus, Tok::Num(4)];
    let mut parser: Parser<DefaultContext<Tok>, Tok, Expr, ExprRule> = Parser::new(
        DefaultContext::from_token_iter(tokens),
        vec![ExprRule::Num, ExprRule::Sum],
    );
    assert_eq!(parser.parse_one(), Some(Expr::Sum(3, 4)));
}

#[test]
fn parser_backtracks_failed_rule() {
    // A lone number: the sum rule consumes the number, fails on the missing
    // operator, and the context is rolled back for the fallback rule
    let tokens = vec![Tok::Num(7)];
    let mut parser: Parser<DefaultContext<Tok>, Tok, Expr, ExprRule> = Parser::new(
        DefaultContext::from_token_iter(tokens),
        vec![ExprRule::Sum, ExprRule::Num],
    );
    assert_eq!(parser.parse_one(), Some(Expr::Num(7)));
    // The failed attempt left no trace: exactly one token was consumed
    assert_eq!(parser.context().token_index(), 1);
}

#[test]
fn parser_parse_collects_until_eof() {
    let tokens = vec![Tok::Num(1), Tok::Plus, Tok::Num(2), Tok::Num(9)];
    let mut parser: Parser<DefaultContext<Tok>, Tok, Expr, ExprRule> = Parser::new(
        DefaultContext::from_token_iter(tokens),
        vec![ExprRule::Sum, ExprRule::Num],
    );
    let nodes = parser.parse();
    assert_eq!(nodes, vec![Expr::Sum(1, 2), Expr::Num(9)]);
}

#[test]
fn parser_no_rule_matches() {
    let tokens = vec![Tok::Plus];
    let mut parser: Parser<DefaultContext<Tok>, Tok, Expr, ExprRule> = Parser::new(
        DefaultContext::from_token_iter(tokens),
        vec![ExprRule::Sum, ExprRule::Num],
    );
    assert_eq!(parser.parse_one(), None);
    let nodes = parser.parse();
    assert!(nodes.is_empty());
}

#[test]
fn parse_context_checkpoint_restore() {
    let tokens = vec![Tok::Num(1), Tok::Num(2), Tok::Num(3)];
    let mut ctx: DefaultContext<Tok> = DefaultContext::new(tokens);
    ctx.advance();
    let cp = ctx.checkpoint();
    ctx.advance();
    assert_eq!(ctx.token_index(), 2);
    ctx.restore(cp);
    assert_eq!(ctx.token_index(), 1);
    assert_eq!(ctx.peek().copied(), Some(Tok::Num(2)));
    assert_eq!(ctx.peek_at(1).copied(), Some(Tok::Num(3)));
    assert_eq!(ctx.peek_at(2), None);
}
