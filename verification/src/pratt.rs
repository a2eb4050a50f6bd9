use crate::parse_context::ParseContext;
use vstd::prelude::*;

verus! {

/// The operator-precedence table and node builders the Pratt engine is
/// parametrized by. Binding powers follow the usual convention: an infix
/// operator with `(left_bp, right_bp)` is left-associative when
/// `left_bp < right_bp` and right-associative otherwise.
pub trait PrattConfig<Tok: Copy, Ast>: Sized {
    /// Which tokens are atoms: they alone can stand as a full expression. A
    /// table states its behavior by overriding these specification hooks; one
    /// that does not is described as accepting nothing.
    open spec fn atom_spec(&self, token: Tok) -> bool {
        false
    }

    /// The prefix binding power of a token that can start an expression as a
    /// unary operator, if it can.
    open spec fn prefix_spec(&self, token: Tok) -> Option<u8> {
        None
    }

    /// The infix binding powers of a token that can join two expressions, if
    /// it can.
    open spec fn infix_spec(&self, token: Tok) -> Option<(u8, u8)> {
        None
    }

    /// Whether the token opens a parenthesized group.
    open spec fn open_spec(&self, token: Tok) -> bool {
        false
    }

    /// Whether the token closes a parenthesized group.
    open spec fn close_spec(&self, token: Tok) -> bool {
        false
    }

    /// The node built for an atom.
    open spec fn atom_node_spec(&self, token: Tok, node: Ast) -> bool {
        true
    }

    /// The node built for a prefix operator applied to an operand.
    open spec fn prefix_node_spec(&self, op: Tok, operand: Ast, node: Ast) -> bool {
        true
    }

    /// The node built for an infix operator joining two operands.
    open spec fn infix_node_spec(&self, left: Ast, op: Tok, right: Ast, node: Ast) -> bool {
        true
    }

    /// Decides whether the token is an atom, and builds its node.
    fn make_atom(&self, token: Tok) -> (r: Option<Ast>)
        ensures
            r is Some <==> self.atom_spec(token),
            r matches Some(n) ==> self.atom_node_spec(token, n),
    ;

    /// The prefix binding power, agreeing with the table.
    fn prefix_op(&self, token: &Tok) -> (r: Option<u8>)
        ensures
            r == self.prefix_spec(*token),
    ;

    /// The infix binding powers, agreeing with the table.
    fn infix_op(&self, token: &Tok) -> (r: Option<(u8, u8)>)
        ensures
            r == self.infix_spec(*token),
    ;

    /// Whether the token opens a group.
    fn is_open(&self, token: &Tok) -> (r: bool)
        ensures
            r == self.open_spec(*token),
    ;

    /// Whether the token closes a group.
    fn is_close(&self, token: &Tok) -> (r: bool)
        ensures
            r == self.close_spec(*token),
    ;

    /// Builds the node for a prefix application.
    fn make_prefix(&self, op: Tok, operand: Ast) -> (r: Ast)
        ensures
            self.prefix_node_spec(op, operand, r),
    ;

    /// Builds the node for an infix application.
    fn make_infix(&self, left: Ast, op: Tok, right: Ast) -> (r: Ast)
        ensures
            self.infix_node_spec(left, op, right, r),
    ;
}

/// How many tokens the leading expression part occupies at the front of
/// `rest`: a parenthesized group, a prefix operator with its operand, or one
/// atom; `None` when no expression starts here.
pub open spec fn pratt_head_len<Tok: Copy, Ast, Config: PrattConfig<Tok, Ast>>(
    config: Config,
    rest: Seq<Tok>,
) -> Option<int>
    decreases rest.len(), 1int,
{
    if rest.len() == 0 {
        None
    } else {
        let t = rest[0];
        if config.open_spec(t) {
            match pratt_len(config, rest.drop_first(), 0) {
                None => None,
                Some(c) => if 1 + c < rest.len() && config.close_spec(rest[1 + c]) {
                    Some(1 + c + 1)
                } else {
                    None
                },
            }
        } else {
            match config.prefix_spec(t) {
                Some(rbp) => match pratt_len(config, rest.drop_first(), rbp) {
                    None => None,
                    Some(c) => Some(1 + c),
                },
                None => if config.atom_spec(t) {
                    Some(1)
                } else {
                    None
                },
            }
        }
    }
}

/// How many further tokens the chain of infix operators with left binding
/// power at least `min_bp` occupies at the front of `rest` (which begins just
/// after a parsed expression); `None` when a right-hand side fails.
pub open spec fn pratt_chain_len<Tok: Copy, Ast, Config: PrattConfig<Tok, Ast>>(
    config: Config,
    rest: Seq<Tok>,
    min_bp: u8,
) -> Option<int>
    decreases rest.len(), 0int,
{
    if rest.len() == 0 {
        Some(0)
    } else {
        let t = rest[0];
        match config.infix_spec(t) {
            None => Some(0),
            Some((l_bp, r_bp)) => if l_bp < min_bp {
                Some(0)
            } else {
                match pratt_len(config, rest.drop_first(), r_bp) {
                    None => None,
                    Some(rlen) => if !(1 <= rlen <= rest.len() - 1) {
                        None
                    } else {
                        match pratt_chain_len(config, rest.skip(1 + rlen), min_bp) {
                            None => None,
                            Some(m) => Some(1 + rlen + m),
                        }
                    },
                }
            },
        }
    }
}

/// How many tokens a whole expression with binding-power floor `min_bp`
/// occupies at the front of `rest`; `None` when none parses.
pub open spec fn pratt_len<Tok: Copy, Ast, Config: PrattConfig<Tok, Ast>>(
    config: Config,
    rest: Seq<Tok>,
    min_bp: u8,
) -> Option<int>
    decreases rest.len(), 2int,
{
    match pratt_head_len(config, rest) {
        None => None,
        Some(h) => if 1 <= h <= rest.len() {
            match pratt_chain_len(config, rest.skip(h), min_bp) {
                None => None,
                Some(m) => Some(h + m),
            }
        } else {
            None
        },
    }
}

/// The node the leading expression part denotes: the group's inner node, a
/// prefix application, or an atom, per the config's node builders.
pub open spec fn pratt_head_node<Tok: Copy, Ast, Config: PrattConfig<Tok, Ast>>(
    config: Config,
    rest: Seq<Tok>,
    node: Ast,
) -> bool
    decreases rest.len(), 1int,
{
    rest.len() > 0 && {
        let t = rest[0];
        if config.open_spec(t) {
            pratt_node(config, rest.drop_first(), 0, node)
        } else {
            match config.prefix_spec(t) {
                Some(rbp) => exists|operand: Ast|
                    pratt_node(config, rest.drop_first(), rbp, operand)
                        && #[trigger] config.prefix_node_spec(t, operand, node),
                None => config.atom_node_spec(t, node),
            }
        }
    }
}

/// Folding the infix chain at `rest` into the already-parsed `left` yields
/// `node`: each step joins `left` with a recursively parsed right-hand side
/// through the config's infix builder.
pub open spec fn pratt_chain_node<Tok: Copy, Ast, Config: PrattConfig<Tok, Ast>>(
    config: Config,
    rest: Seq<Tok>,
    min_bp: u8,
    left: Ast,
    node: Ast,
) -> bool
    decreases rest.len(), 0int,
{
    if rest.len() == 0 {
        node == left
    } else {
        let t = rest[0];
        match config.infix_spec(t) {
            None => node == left,
            Some((l_bp, r_bp)) => if l_bp < min_bp {
                node == left
            } else {
                match pratt_len(config, rest.drop_first(), r_bp) {
                    None => false,
                    Some(rlen) => 1 <= rlen <= rest.len() - 1 && exists|right: Ast, joined: Ast|
                        {
                            &&& pratt_node(config, rest.drop_first(), r_bp, right)
                            &&& #[trigger] config.infix_node_spec(left, t, right, joined)
                            &&& pratt_chain_node(config, rest.skip(1 + rlen), min_bp, joined, node)
                        },
                }
            },
        }
    }
}

/// Marks a candidate head node; it holds of every node and only anchors the
/// quantifier in `pratt_node`, whose other conjuncts are recursive.
pub open spec fn pratt_candidate<Ast>(left: Ast) -> bool {
    true
}

/// The whole expression at the front of `rest`, under the binding-power floor
/// `min_bp`, denotes `node`.
pub open spec fn pratt_node<Tok: Copy, Ast, Config: PrattConfig<Tok, Ast>>(
    config: Config,
    rest: Seq<Tok>,
    min_bp: u8,
    node: Ast,
) -> bool
    decreases rest.len(), 2int,
{
    match pratt_head_len(config, rest) {
        None => false,
        Some(h) => 1 <= h <= rest.len() && exists|left: Ast|
            {
                &&& #[trigger] pratt_candidate(left)
                &&& pratt_head_node(config, rest, left)
                &&& pratt_chain_node(config, rest.skip(h), min_bp, left, node)
            },
    }
}

/// Putting a parsed head and a folded chain together yields a whole parse.
proof fn lemma_pratt_node_intro<Tok: Copy, Ast, Config: PrattConfig<Tok, Ast>>(
    config: Config,
    rest: Seq<Tok>,
    min_bp: u8,
    h: int,
    left: Ast,
    node: Ast,
)
    requires
        pratt_head_len(config, rest) == Some(h),
        1 <= h <= rest.len(),
        pratt_head_node(config, rest, left),
        pratt_chain_node(config, rest.skip(h), min_bp, left, node),
    ensures
        pratt_node(config, rest, min_bp, node),
{
    assert(pratt_candidate(left));
}

/// A parse never consumes more than the input that is there, and always at
/// least the leading token.
pub proof fn lemma_pratt_len_bounds<Tok: Copy, Ast, Config: PrattConfig<Tok, Ast>>(
    config: Config,
    rest: Seq<Tok>,
    min_bp: u8,
)
    ensures
        pratt_head_len(config, rest) matches Some(h) ==> 1 <= h <= rest.len(),
        pratt_chain_len(config, rest, min_bp) matches Some(m) ==> 0 <= m <= rest.len(),
        pratt_len(config, rest, min_bp) matches Some(n) ==> 1 <= n <= rest.len(),
    decreases rest.len(), 3int,
{
    if rest.len() > 0 {
        lemma_pratt_len_bounds(config, rest.drop_first(), 0);
        let t = rest[0];
        if let Some(rbp) = config.prefix_spec(t) {
            lemma_pratt_len_bounds(config, rest.drop_first(), rbp);
        }
        if let Some((l_bp, r_bp)) = config.infix_spec(t) {
            lemma_pratt_len_bounds(config, rest.drop_first(), r_bp);
            if l_bp >= min_bp {
                if let Some(rlen) = pratt_len(config, rest.drop_first(), r_bp) {
                    if 1 <= rlen <= rest.len() - 1 {
                        lemma_pratt_len_bounds(config, rest.skip(1 + rlen), min_bp);
                    }
                }
            }
        }
    }
    if let Some(h) = pratt_head_len(config, rest) {
        if 1 <= h <= rest.len() {
            lemma_pratt_len_bounds(config, rest.skip(h), min_bp);
        }
    }
}

/// Operator-precedence (Pratt) expression parsing over any parsing context.
///
/// One token is consumed and turned into the left-hand expression: a
/// parenthesized group, a prefix operator applied to a recursively parsed
/// operand, or an atom. Then, while the next token is an infix operator whose
/// left binding power is at least `min_bp`, the operator is consumed, the
/// right-hand side is parsed recursively with the operator's right binding
/// power as the new floor, and the two sides are joined. A failure at any
/// depth aborts the whole parse: no partial tree is returned. Each recursion
/// consumes at least one token, so the parse terminates. The result is pinned
/// by the config's table and node builders: it exists exactly when `pratt_len`
/// accepts the remaining tokens, consumes exactly that many, and denotes a
/// node per `pratt_node`.
pub fn parse_pratt<Ctx: ParseContext<Tok>, Tok: Copy, Ast, Config: PrattConfig<Tok, Ast>>(
    ctx: &mut Ctx,
    config: &Config,
    min_bp: u8,
) -> (r: Option<Ast>)
    requires
        0 <= old(ctx).index_spec() <= old(ctx).tokens().len(),
    ensures
        final(ctx).tokens() == old(ctx).tokens(),
        final(ctx).closed_spec() == old(ctx).closed_spec(),
        final(ctx).committed_spec() == old(ctx).committed_spec(),
        0 <= final(ctx).index_spec() <= final(ctx).tokens().len(),
        old(ctx).index_spec() <= final(ctx).index_spec(),
        match pratt_len(*config, old(ctx).tokens().skip(old(ctx).index_spec()), min_bp) {
            None => r is None,
            Some(n) => {
                &&& r matches Some(node) && pratt_node(
                    *config,
                    old(ctx).tokens().skip(old(ctx).index_spec()),
                    min_bp,
                    node,
                )
                &&& final(ctx).index_spec() == old(ctx).index_spec() + n
            },
        },
        r is Some ==> old(ctx).index_spec() < final(ctx).index_spec(),
    decreases old(ctx).tokens().len() - old(ctx).index_spec(), 1int,
{
    let ghost toks = ctx.tokens();
    let ghost i0 = ctx.index_spec();
    let ghost rest = toks.skip(i0);
    proof {
        lemma_pratt_len_bounds(*config, rest, min_bp);
    }
    let token = match ctx.advance() {
        None => {
            return None;
        },
        Some(t) => t,
    };
    proof {
        assert(rest[0] == toks[i0]);
        assert(rest.drop_first() =~= toks.skip(i0 + 1));
    }
    let left: Ast;
    if config.is_open(&token) {
        let inner = match parse_pratt(ctx, config, 0) {
            None => {
                proof {
                    assert(pratt_head_len(*config, rest) is None);
                }
                return None;
            },
            Some(n) => n,
        };
        let ghost c = ctx.index_spec() - (i0 + 1);
        proof {
            lemma_pratt_len_bounds(*config, rest.drop_first(), 0);
        }
        match ctx.advance() {
            None => {
                proof {
                    assert(1 + c == rest.len());
                    assert(pratt_head_len(*config, rest) is None);
                }
                return None;
            },
            Some(t2) => {
                proof {
                    assert(rest[1 + c] == toks[i0 + 1 + c]);
                }
                if !config.is_close(&t2) {
                    proof {
                        assert(pratt_head_len(*config, rest) is None);
                    }
                    return None;
                }
            },
        }
        left = inner;
        proof {
            assert(pratt_head_len(*config, rest) == Some(1 + c + 1));
            assert(pratt_head_node(*config, rest, left));
        }
    } else if let Some(rbp) = config.prefix_op(&token) {
        let operand = match parse_pratt(ctx, config, rbp) {
            None => {
                proof {
                    assert(pratt_head_len(*config, rest) is None);
                }
                return None;
            },
            Some(n) => n,
        };
        left = config.make_prefix(token, operand);
        proof {
            assert(pratt_head_node(*config, rest, left));
        }
    } else {
        match config.make_atom(token) {
            None => {
                proof {
                    assert(pratt_head_len(*config, rest) is None);
                }
                return None;
            },
            Some(n) => {
                left = n;
            },
        }
        proof {
            assert(pratt_head_len(*config, rest) == Some(1int));
            assert(pratt_head_node(*config, rest, left));
        }
    }
    let ghost h = ctx.index_spec() - i0;
    let ghost head_left = left;
    proof {
        assert(pratt_head_len(*config, rest) == Some(h));
        assert(rest.skip(h) =~= toks.skip(i0 + h));
    }
    let r = parse_infix_chain(ctx, config, min_bp, left);
    proof {
        if let Some(m) = pratt_chain_len(*config, rest.skip(h), min_bp) {
            assert(pratt_len(*config, rest, min_bp) == Some(h + m));
            if r is Some {
                assert(pratt_head_node(*config, rest, head_left));
                assert(pratt_chain_node(*config, rest.skip(h), min_bp, head_left, r.unwrap()));
                lemma_pratt_node_intro(*config, rest, min_bp, h, head_left, r.unwrap());
            }
        }
    }
    r
}

/// Folds the chain of infix operators at the context's place into `left`:
/// while the next token is an infix operator binding at least `min_bp`, the
/// operator is consumed, its right-hand side parsed with its right binding
/// power as the floor, and the sides joined.
fn parse_infix_chain<Ctx: ParseContext<Tok>, Tok: Copy, Ast, Config: PrattConfig<Tok, Ast>>(
    ctx: &mut Ctx,
    config: &Config,
    min_bp: u8,
    left: Ast,
) -> (r: Option<Ast>)
    requires
        0 <= old(ctx).index_spec() <= old(ctx).tokens().len(),
    ensures
        final(ctx).tokens() == old(ctx).tokens(),
        final(ctx).closed_spec() == old(ctx).closed_spec(),
        final(ctx).committed_spec() == old(ctx).committed_spec(),
        0 <= final(ctx).index_spec() <= final(ctx).tokens().len(),
        old(ctx).index_spec() <= final(ctx).index_spec(),
        match pratt_chain_len(*config, old(ctx).tokens().skip(old(ctx).index_spec()), min_bp) {
            None => r is None,
            Some(m) => {
                &&& r matches Some(node) && pratt_chain_node(
                    *config,
                    old(ctx).tokens().skip(old(ctx).index_spec()),
                    min_bp,
                    left,
                    node,
                )
                &&& final(ctx).index_spec() == old(ctx).index_spec() + m
            },
        },
    decreases old(ctx).tokens().len() - old(ctx).index_spec(), 0int,
{
    let ghost toks = ctx.tokens();
    let ghost i0 = ctx.index_spec();
    let ghost rest = toks.skip(i0);
    let next = match ctx.peek() {
        None => {
            return Some(left);
        },
        Some(t) => *t,
    };
    proof {
        assert(rest[0] == toks[i0]);
    }
    let (l_bp, r_bp) = match config.infix_op(&next) {
        None => {
            return Some(left);
        },
        Some(bp) => bp,
    };
    if l_bp < min_bp {
        return Some(left);
    }
    let _ = ctx.advance();
    proof {
        assert(rest.drop_first() =~= toks.skip(i0 + 1));
    }
    let right = match parse_pratt(ctx, config, r_bp) {
        None => {
            return None;
        },
        Some(n) => n,
    };
    let ghost rlen = ctx.index_spec() - (i0 + 1);
    proof {
        lemma_pratt_len_bounds(*config, rest.drop_first(), r_bp);
        assert(rest.skip(1 + rlen) =~= toks.skip(i0 + 1 + rlen));
    }
    let joined = config.make_infix(left, next, right);
    let r = parse_infix_chain(ctx, config, min_bp, joined);
    proof {
        if let Some(m) = pratt_chain_len(*config, rest.skip(1 + rlen), min_bp) {
            assert(pratt_chain_len(*config, rest, min_bp) == Some(1 + rlen + m));
            if r is Some {
                assert(pratt_chain_node(*config, rest, min_bp, left, r.unwrap()));
            }
        }
    }
    r
}

} // verus!
