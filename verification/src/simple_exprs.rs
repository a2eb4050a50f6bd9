use crate::parser::AstNode;
use crate::position::Position;
use crate::pratt::PrattConfig;
use vstd::prelude::*;

verus! {

/// A small arithmetic token shape: integer literals, the four operators, and
/// parentheses, each carrying its position.
#[derive(Debug, Clone, Copy, PartialEq)]
pub enum SimpleToken {
    Number { value: i32, position: Position },
    Plus { position: Position },
    Minus { position: Position },
    Star { position: Position },
    Slash { position: Position },
    LeftParen { position: Position },
    RightParen { position: Position },
    Eof { position: Position },
}

/// An arithmetic operator.
#[derive(Debug, Clone, Copy, PartialEq, Eq, Structural)]
pub enum Op {
    Add,
    Subtract,
    Multiply,
    Divide,
}

/// An arithmetic expression: a number, or an operator joining two expressions.
#[derive(Debug, PartialEq)]
pub enum SimpleExpr {
    Number { value: i32, position: Position },
    Binary { op: Op, left: Box<SimpleExpr>, right: Box<SimpleExpr>, position: Position },
}

impl AstNode for SimpleExpr {
    fn position(&self) -> Option<Position> {
        match self {
            SimpleExpr::Number { position, .. } => Some(*position),
            SimpleExpr::Binary { position, .. } => Some(*position),
        }
    }

    fn span(&self) -> Option<(Position, Position)> {
        match self.position() {
            Some(p) => Some((p, p)),
            None => None,
        }
    }
}

/// The standard arithmetic precedence table: multiplication and division
/// bind tighter than addition and subtraction, and all four are
/// left-associative.
#[derive(Debug)]
pub struct ArithPratt;

/// The binding powers `ArithPratt` assigns: `(10, 11)` for additive
/// operators, `(20, 21)` for multiplicative ones.
pub open spec fn arith_infix(token: SimpleToken) -> Option<(u8, u8)> {
    match token {
        SimpleToken::Plus { .. } => Some((10u8, 11u8)),
        SimpleToken::Minus { .. } => Some((10u8, 11u8)),
        SimpleToken::Star { .. } => Some((20u8, 21u8)),
        SimpleToken::Slash { .. } => Some((20u8, 21u8)),
        _ => None,
    }
}

/// The operator an arithmetic token stands for.
pub open spec fn arith_op_of(token: SimpleToken) -> Op {
    match token {
        SimpleToken::Plus { .. } => Op::Add,
        SimpleToken::Minus { .. } => Op::Subtract,
        SimpleToken::Star { .. } => Op::Multiply,
        _ => Op::Divide,
    }
}

/// The position an arithmetic token carries.
pub open spec fn token_pos(token: SimpleToken) -> Position {
    match token {
        SimpleToken::Number { position, .. } => position,
        SimpleToken::Plus { position } => position,
        SimpleToken::Minus { position } => position,
        SimpleToken::Star { position } => position,
        SimpleToken::Slash { position } => position,
        SimpleToken::LeftParen { position } => position,
        SimpleToken::RightParen { position } => position,
        SimpleToken::Eof { position } => position,
    }
}

impl PrattConfig<SimpleToken, SimpleExpr> for ArithPratt {
    open spec fn atom_spec(&self, token: SimpleToken) -> bool {
        token is Number
    }

    open spec fn prefix_spec(&self, token: SimpleToken) -> Option<u8> {
        None
    }

    open spec fn infix_spec(&self, token: SimpleToken) -> Option<(u8, u8)> {
        arith_infix(token)
    }

    open spec fn open_spec(&self, token: SimpleToken) -> bool {
        token is LeftParen
    }

    open spec fn close_spec(&self, token: SimpleToken) -> bool {
        token is RightParen
    }

    open spec fn atom_node_spec(&self, token: SimpleToken, node: SimpleExpr) -> bool {
        token matches SimpleToken::Number { value, position } && node == SimpleExpr::Number {
            value,
            position,
        }
    }

    open spec fn prefix_node_spec(
        &self,
        op: SimpleToken,
        operand: SimpleExpr,
        node: SimpleExpr,
    ) -> bool {
        node == operand
    }

    open spec fn infix_node_spec(
        &self,
        left: SimpleExpr,
        op: SimpleToken,
        right: SimpleExpr,
        node: SimpleExpr,
    ) -> bool {
        node == SimpleExpr::Binary {
            op: arith_op_of(op),
            left: Box::new(left),
            right: Box::new(right),
            position: token_pos(op),
        }
    }

    fn make_atom(&self, token: SimpleToken) -> (r: Option<SimpleExpr>) {
        match token {
            SimpleToken::Number { value, position } => Some(
                SimpleExpr::Number { value, position },
            ),
            _ => None,
        }
    }

    fn prefix_op(&self, token: &SimpleToken) -> (r: Option<u8>) {
        None
    }

    fn infix_op(&self, token: &SimpleToken) -> (r: Option<(u8, u8)>) {
        match token {
            SimpleToken::Plus { .. } => Some((10, 11)),
            SimpleToken::Minus { .. } => Some((10, 11)),
            SimpleToken::Star { .. } => Some((20, 21)),
            SimpleToken::Slash { .. } => Some((20, 21)),
            _ => None,
        }
    }

    fn is_open(&self, token: &SimpleToken) -> (r: bool) {
        matches!(token, SimpleToken::LeftParen { .. })
    }

    fn is_close(&self, token: &SimpleToken) -> (r: bool) {
        matches!(token, SimpleToken::RightParen { .. })
    }

    fn make_prefix(&self, op: SimpleToken, operand: SimpleExpr) -> (r: SimpleExpr) {
        operand
    }

    fn make_infix(&self, left: SimpleExpr, op: SimpleToken, right: SimpleExpr) -> (r: SimpleExpr) {
        let position = match op {
            SimpleToken::Number { position, .. } => position,
            SimpleToken::Plus { position } => position,
            SimpleToken::Minus { position } => position,
            SimpleToken::Star { position } => position,
            SimpleToken::Slash { position } => position,
            SimpleToken::LeftParen { position } => position,
            SimpleToken::RightParen { position } => position,
            SimpleToken::Eof { position } => position,
        };
        let the_op = match op {
            SimpleToken::Plus { .. } => Op::Add,
            SimpleToken::Minus { .. } => Op::Subtract,
            SimpleToken::Star { .. } => Op::Multiply,
            _ => Op::Divide,
        };
        SimpleExpr::Binary { op: the_op, left: Box::new(left), right: Box::new(right), position }
    }
}

} // verus!
