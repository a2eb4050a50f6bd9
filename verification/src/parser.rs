use crate::parse_context::{DefaultContext, ParseContext};
use crate::streaming::{Inbound, Outbound, StreamModel, StreamPart, StreamingParseContext, StreamingSignal, TokenConsumer};
use crate::position::Position;
use core::marker::PhantomData;
use vstd::prelude::*;

verus! {

/// The current token of a remaining stream, if any: the cheap hint handed to
/// a parsing rule's `quick_check`.
pub open spec fn tok_hint_of<Tok>(rest: Seq<Tok>) -> Option<Tok> {
    if rest.len() > 0 {
        Some(rest[0])
    } else {
        None
    }
}

/// A node produced by a parser. The engine never inspects nodes; the position
/// serves embedding grammars and diagnostics.
pub trait AstNode: Sized {
    /// Returns the position of this node in the source, if it carries one.
    fn position(&self) -> Option<Position>;

    /// Returns the span of this node: by convention a point span at its position.
    fn span(&self) -> Option<(Position, Position)>;
}

/// A node that carries embedder-defined state besides its shape.
pub trait StatefulNode: AstNode {
    /// The type of state this node carries.
    type State;

    /// The current state of this node.
    fn state(&self) -> &Self::State;

    /// Replaces the state of this node.
    fn set_state(&mut self, state: Self::State);
}

/// A unit matcher over tokens: given a context, it may consume tokens and
/// produce one node, or fail. `match_len` says on which remaining streams it
/// succeeds and how far it advances; `node_spec` describes the node.
pub trait ParsingRule<Ctx: ParseContext<Tok>, Tok: Copy, Ast>: Sized {
    /// The rule's priority; higher priorities are tried first. A rule type
    /// that overrides `priority` states its value by overriding this too.
    open spec fn priority_spec(&self) -> int {
        0
    }

    /// What `quick_check` answers for a given current token; unless a rule
    /// type says otherwise, it answers nothing.
    open spec fn quick_spec(&self, current: Option<Tok>) -> Option<bool> {
        None
    }

    /// On the remaining tokens `rest` (with `closed` saying whether more
    /// could still arrive), how many tokens the rule consumes, or `None` if
    /// it does not match. A rule type states its matching behavior by
    /// overriding this; one that does not is described as never matching.
    open spec fn match_len(&self, rest: Seq<Tok>, closed: bool) -> Option<int> {
        None
    }

    /// Relates the node produced on a successful match to the remaining tokens.
    open spec fn node_spec(&self, rest: Seq<Tok>, closed: bool, node: Ast) -> bool {
        true
    }

    /// Attempts to parse a node at the context's place. On failure the
    /// context may have moved; the engine restores it from a checkpoint.
    /// A match is pinned by `match_len` and `node_spec`, and never consumes
    /// more than the tokens that are there.
    fn try_parse(&self, ctx: &mut Ctx) -> (r: Option<Ast>)
        requires
            0 <= old(ctx).index_spec() <= old(ctx).tokens().len(),
        ensures
            final(ctx).tokens() == old(ctx).tokens(),
            final(ctx).closed_spec() == old(ctx).closed_spec(),
            final(ctx).committed_spec() == old(ctx).committed_spec(),
            0 <= final(ctx).index_spec() <= final(ctx).tokens().len(),
            match self.match_len(
                old(ctx).tokens().skip(old(ctx).index_spec()),
                old(ctx).closed_spec(),
            ) {
                None => r is None,
                Some(n) => {
                    &&& r matches Some(node) && self.node_spec(
                        old(ctx).tokens().skip(old(ctx).index_spec()),
                        old(ctx).closed_spec(),
                        node,
                    )
                    &&& final(ctx).index_spec() == old(ctx).index_spec() + n
                    &&& 0 <= n <= old(ctx).tokens().skip(old(ctx).index_spec()).len()
                },
            },
    ;

    /// The rule's priority. Higher priority rules are tried first.
    fn priority(&self) -> (r: i32)
        ensures
            r as int == self.priority_spec(),
    ;

    /// A cheap pre-filter on the current token: `Some(false)` promises that
    /// `try_parse` would fail on any stream starting with that token
    /// (quick-check soundness).
    fn quick_check(&self, current: Option<&Tok>) -> (r: Option<bool>)
        ensures
            r == self.quick_spec(
                match current {
                    Some(t) => Some(*t),
                    None => None,
                },
            ),
            r == Some(false) ==> forall|rest: Seq<Tok>, closed: bool|
                tok_hint_of(rest) == (match current {
                    Some(t) => Some(*t),
                    None => None,
                }) ==> (#[trigger] self.match_len(rest, closed)) is None,
    ;
}

/// `x` occurs somewhere in `order`.
pub open spec fn p_in_order(order: Seq<usize>, x: int) -> bool {
    exists|k: int| 0 <= k < order.len() && (#[trigger] order[k]) == x
}

/// `order` lists positions into `rules`, highest priority first, ties in
/// registration order: a stable, priority-descending permutation.
pub open spec fn p_order_ok<Ctx: ParseContext<Tok>, Tok: Copy, Ast, R: ParsingRule<Ctx, Tok, Ast>>(
    rules: Seq<R>,
    order: Seq<usize>,
) -> bool {
    &&& order.len() == rules.len()
    &&& forall|k: int| 0 <= k < order.len() ==> (#[trigger] order[k]) < rules.len()
    &&& forall|x: int| 0 <= x < rules.len() ==> #[trigger] p_in_order(order, x)
    &&& forall|k: int, l: int|
        0 <= k < l < order.len() ==> ((#[trigger] rules[order[k] as int].priority_spec())
            > (#[trigger] rules[order[l] as int].priority_spec()) || (rules[order[
        k] as int].priority_spec() == rules[order[l] as int].priority_spec() && order[k]
            < order[l]))
}

/// The first place in `order`, at or after `k`, whose rule matches `rest`.
pub open spec fn p_scan_from<Ctx: ParseContext<Tok>, Tok: Copy, Ast, R: ParsingRule<Ctx, Tok, Ast>>(
    rules: Seq<R>,
    order: Seq<usize>,
    k: int,
    rest: Seq<Tok>,
    closed: bool,
) -> Option<int>
    decreases order.len() - k,
{
    if k < 0 || k >= order.len() {
        None
    } else if rules[order[k] as int].match_len(rest, closed) is Some {
        Some(k)
    } else {
        p_scan_from(rules, order, k + 1, rest, closed)
    }
}

/// One engine step: at index `i` of `toks`, the first matching rule in
/// priority order consumes up to `j` and yields `node`.
pub open spec fn parse_step<Ctx: ParseContext<Tok>, Tok: Copy, Ast, R: ParsingRule<Ctx, Tok, Ast>>(
    rules: Seq<R>,
    order: Seq<usize>,
    toks: Seq<Tok>,
    closed: bool,
    i: int,
    j: int,
    node: Ast,
) -> bool {
    match p_scan_from(rules, order, 0, toks.skip(i), closed) {
        None => false,
        Some(k) => {
            &&& rules[order[k] as int].match_len(toks.skip(i), closed) == Some(j - i)
            &&& rules[order[k] as int].node_spec(toks.skip(i), closed, node)
        },
    }
}

/// A run of engine steps from index `i` to `j` producing `nodes`, each step
/// making strict progress.
pub open spec fn parse_seq<Ctx: ParseContext<Tok>, Tok: Copy, Ast, R: ParsingRule<Ctx, Tok, Ast>>(
    rules: Seq<R>,
    order: Seq<usize>,
    toks: Seq<Tok>,
    closed: bool,
    i: int,
    j: int,
    nodes: Seq<Ast>,
) -> bool
    decreases nodes.len(),
{
    if nodes.len() == 0 {
        i == j
    } else {
        exists|m: int|
            {
                &&& i < m
                &&& #[trigger] parse_step::<Ctx, Tok, Ast, R>(
                    rules,
                    order,
                    toks,
                    closed,
                    i,
                    m,
                    nodes[0],
                )
                &&& parse_seq::<Ctx, Tok, Ast, R>(
                    rules,
                    order,
                    toks,
                    closed,
                    m,
                    j,
                    nodes.drop_first(),
                )
            }
    }
}

/// A run extends by one further step at its end.
pub proof fn lemma_parse_seq_snoc<
    Ctx: ParseContext<Tok>,
    Tok: Copy,
    Ast,
    R: ParsingRule<Ctx, Tok, Ast>,
>(
    rules: Seq<R>,
    order: Seq<usize>,
    toks: Seq<Tok>,
    closed: bool,
    i: int,
    j: int,
    j2: int,
    nodes: Seq<Ast>,
    node: Ast,
)
    requires
        parse_seq::<Ctx, Tok, Ast, R>(rules, order, toks, closed, i, j, nodes),
        parse_step::<Ctx, Tok, Ast, R>(rules, order, toks, closed, j, j2, node),
        j < j2,
    ensures
        parse_seq::<Ctx, Tok, Ast, R>(rules, order, toks, closed, i, j2, nodes.push(node)),
    decreases nodes.len(),
{
    if nodes.len() == 0 {
        assert(nodes.push(node)[0] == node);
        assert(nodes.push(node).drop_first() =~= Seq::<Ast>::empty());
        assert(parse_seq::<Ctx, Tok, Ast, R>(
            rules,
            order,
            toks,
            closed,
            j2,
            j2,
            nodes.push(node).drop_first(),
        ));
    } else {
        let m = choose|m: int|
            {
                &&& i < m
                &&& #[trigger] parse_step::<Ctx, Tok, Ast, R>(
                    rules,
                    order,
                    toks,
                    closed,
                    i,
                    m,
                    nodes[0],
                )
                &&& parse_seq::<Ctx, Tok, Ast, R>(
                    rules,
                    order,
                    toks,
                    closed,
                    m,
                    j,
                    nodes.drop_first(),
                )
            };
        lemma_parse_seq_snoc::<Ctx, Tok, Ast, R>(
            rules,
            order,
            toks,
            closed,
            m,
            j,
            j2,
            nodes.drop_first(),
            node,
        );
        assert(nodes.push(node).drop_first() =~= nodes.drop_first().push(node));
        assert(nodes.push(node)[0] == nodes[0]);
    }
}

/// Reaching a matching place in the order, the scan stops at or before it.
proof fn lemma_p_scan_finds<Ctx: ParseContext<Tok>, Tok: Copy, Ast, R: ParsingRule<Ctx, Tok, Ast>>(
    rules: Seq<R>,
    order: Seq<usize>,
    k0: int,
    l: int,
    rest: Seq<Tok>,
    closed: bool,
)
    requires
        0 <= k0 <= l < order.len(),
        rules[order[l] as int].match_len(rest, closed) is Some,
    ensures
        p_scan_from(rules, order, k0, rest, closed) matches Some(k) && k0 <= k <= l && rules[order[
            k] as int].match_len(rest, closed) is Some,
    decreases l - k0,
{
    if k0 < l && rules[order[k0] as int].match_len(rest, closed) is None {
        lemma_p_scan_finds::<Ctx, Tok, Ast, R>(rules, order, k0 + 1, l, rest, closed);
    }
}

/// Priority ordering among parsing rules: when several rules could match the
/// same remaining tokens, the engine's winner is one of them, carries the
/// highest priority among them, and among equal priorities stands earliest in
/// registration order.
pub proof fn lemma_parse_priority_wins<
    Ctx: ParseContext<Tok>,
    Tok: Copy,
    Ast,
    R: ParsingRule<Ctx, Tok, Ast>,
>(rules: Seq<R>, order: Seq<usize>, rest: Seq<Tok>, closed: bool, i: int)
    requires
        p_order_ok(rules, order),
        0 <= i < rules.len(),
        rules[i].match_len(rest, closed) is Some,
    ensures
        p_scan_from(rules, order, 0, rest, closed) matches Some(k) && {
            let w = order[k] as int;
            &&& 0 <= w < rules.len()
            &&& rules[w].match_len(rest, closed) is Some
            &&& (w == i || rules[w].priority_spec() > rules[i].priority_spec() || (rules[
                w].priority_spec() == rules[i].priority_spec() && w < i))
        },
{
    assert(p_in_order(order, i));
    let l = choose|l: int| 0 <= l < order.len() && (#[trigger] order[l]) == i;
    lemma_p_scan_finds::<Ctx, Tok, Ast, R>(rules, order, 0, l, rest, closed);
}

/// A run never moves backward, and a nonempty run moves strictly forward.
pub proof fn lemma_parse_seq_monotone<
    Ctx: ParseContext<Tok>,
    Tok: Copy,
    Ast,
    R: ParsingRule<Ctx, Tok, Ast>,
>(
    rules: Seq<R>,
    order: Seq<usize>,
    toks: Seq<Tok>,
    closed: bool,
    i: int,
    j: int,
    nodes: Seq<Ast>,
)
    requires
        parse_seq::<Ctx, Tok, Ast, R>(rules, order, toks, closed, i, j, nodes),
    ensures
        i <= j,
        nodes.len() > 0 ==> i < j,
    decreases nodes.len(),
{
    if nodes.len() > 0 {
        let m = choose|m: int|
            {
                &&& i < m
                &&& #[trigger] parse_step::<Ctx, Tok, Ast, R>(
                    rules,
                    order,
                    toks,
                    closed,
                    i,
                    m,
                    nodes[0],
                )
                &&& parse_seq::<Ctx, Tok, Ast, R>(
                    rules,
                    order,
                    toks,
                    closed,
                    m,
                    j,
                    nodes.drop_first(),
                )
            };
        lemma_parse_seq_monotone::<Ctx, Tok, Ast, R>(
            rules,
            order,
            toks,
            closed,
            m,
            j,
            nodes.drop_first(),
        );
    }
}

/// The engine is done at index `i`: the tokens are exhausted, no rule
/// matches, or the winning rule would not advance.
pub open spec fn parse_done<Ctx: ParseContext<Tok>, Tok: Copy, Ast, R: ParsingRule<Ctx, Tok, Ast>>(
    rules: Seq<R>,
    order: Seq<usize>,
    toks: Seq<Tok>,
    closed: bool,
    i: int,
) -> bool {
    ||| (closed && i == toks.len())
    ||| match p_scan_from(rules, order, 0, toks.skip(i), closed) {
        None => true,
        Some(k) => rules[order[k] as int].match_len(toks.skip(i), closed) == Some(0int),
    }
}

/// The rule-matching loop over tokens: the same priority-ordered,
/// checkpoint-backed algorithm the lexing stage uses, producing nodes.
pub struct Parser<Ctx: ParseContext<Tok>, Tok: Copy, Ast, R: ParsingRule<Ctx, Tok, Ast>> {
    context: Ctx,
    rules: Vec<R>,
    order: Vec<usize>,
    emitted: Ghost<Seq<Ast>>,
    aborts: Ghost<nat>,
    marker: PhantomData<(Tok, Ast)>,
}

impl<Ctx: ParseContext<Tok>, Tok: Copy, Ast, R: ParsingRule<Ctx, Tok, Ast>> Parser<
    Ctx,
    Tok,
    Ast,
    R,
> {
    /// The context the parser drives.
    pub closed spec fn ctx_spec(&self) -> Ctx {
        self.context
    }

    /// The rules, in registration order.
    pub closed spec fn rules_spec(&self) -> Seq<R> {
        self.rules@
    }

    /// The order in which rules are tried, as positions into the rule list.
    pub closed spec fn order_spec(&self) -> Seq<usize> {
        self.order@
    }

    /// The nodes this parser has handed over as a streaming consumer.
    pub closed spec fn emitted_spec(&self) -> Seq<Ast> {
        self.emitted@
    }

    /// How many aborts this parser has been told of as a streaming consumer.
    pub closed spec fn aborts_spec(&self) -> nat {
        self.aborts@
    }

    /// The parser keeps its rule order a stable, priority-descending
    /// permutation; `new` establishes it and every method preserves it.
    pub open spec fn wf(&self) -> bool {
        p_order_ok(self.rules_spec(), self.order_spec())
    }

    /// A parser over the given context; the rules are stable-sorted by
    /// descending priority, ties keeping registration order.
    pub fn new(context: Ctx, rules: Vec<R>) -> (p: Parser<Ctx, Tok, Ast, R>)
        ensures
            p.ctx_spec() == context,
            p.rules_spec() == rules@,
            p.emitted_spec() == Seq::<Ast>::empty(),
            p.aborts_spec() == 0,
            p.wf(),
    {
        let mut prios: Vec<i32> = Vec::new();
        let mut i: usize = 0;
        while i < rules.len()
            invariant
                prios@.len() == i <= rules@.len(),
                forall|j: int|
                    0 <= j < i ==> (#[trigger] prios@[j]) as int == rules@[j].priority_spec(),
            decreases rules@.len() - i,
        {
            prios.push(rules[i].priority());
            i = i + 1;
        }
        let mut order: Vec<usize> = Vec::new();
        let mut i: usize = 0;
        while i < rules.len()
            invariant
                prios@.len() == rules@.len(),
                forall|j: int|
                    0 <= j < rules@.len() ==> (#[trigger] prios@[j]) as int
                        == rules@[j].priority_spec(),
                order@.len() == i <= rules@.len(),
                forall|k: int| 0 <= k < order@.len() ==> (#[trigger] order@[k]) < i,
                forall|x: int| 0 <= x < i ==> #[trigger] p_in_order(order@, x),
                forall|k: int, l: int|
                    0 <= k < l < order@.len() ==> ((#[trigger] rules@[order@[
                    k] as int].priority_spec()) > (#[trigger] rules@[order@[
                    l] as int].priority_spec()) || (rules@[order@[k] as int].priority_spec()
                        == rules@[order@[l] as int].priority_spec() && order@[k] < order@[l])),
            decreases rules@.len() - i,
        {
            let mut p: usize = 0;
            while p < order.len() && prios[order[p]] >= prios[i]
                invariant
                    p <= order@.len(),
                    order@.len() == i <= rules@.len(),
                    (i as int) < prios@.len(),
                    prios@.len() == rules@.len(),
                    forall|k: int| 0 <= k < order@.len() ==> (#[trigger] order@[k]) < i,
                    forall|q: int|
                        0 <= q < p ==> (#[trigger] prios@[order@[q] as int]) >= prios@[i as int],
                decreases order@.len() - p,
            {
                p = p + 1;
            }
            let ghost old_order = order@;
            order.insert(p, i);
            proof {
                let no = order@;
                assert forall|x: int| 0 <= x < i + 1 implies #[trigger] p_in_order(no, x) by {
                    if x == i {
                        assert(no[p as int] == x);
                    } else {
                        assert(p_in_order(old_order, x));
                        let k0 = choose|k0: int|
                            0 <= k0 < old_order.len() && (#[trigger] old_order[k0]) == x;
                        if k0 < p {
                            assert(no[k0] == x);
                        } else {
                            assert(no[k0 + 1] == x);
                        }
                    }
                }
                assert forall|k: int, l: int| 0 <= k < l < no.len() implies ((#[trigger] rules@[no[
                    k] as int].priority_spec()) > (#[trigger] rules@[no[l] as int].priority_spec())
                    || (rules@[no[k] as int].priority_spec() == rules@[no[
                l] as int].priority_spec() && no[k] < no[l])) by {
                    if l < p as int {
                        assert(no[k] == old_order[k]);
                        assert(no[l] == old_order[l]);
                    } else if k < p as int && l == p as int {
                        assert(no[k] == old_order[k]);
                        assert(no[l] == i);
                        assert(prios@[old_order[k] as int] >= prios@[i as int]);
                        assert(old_order[k] < i);
                    } else if k < p as int {
                        assert(no[k] == old_order[k]);
                        assert(no[l] == old_order[l - 1]);
                    } else if k == p as int {
                        assert(no[k] == i);
                        assert(no[l] == old_order[l - 1]);
                        assert(prios@[old_order[p as int] as int] < prios@[i as int]);
                        if l - 1 > p as int {
                            assert(rules@[old_order[p as int] as int].priority_spec() > rules@[
                                old_order[l - 1] as int].priority_spec() || (rules@[old_order[
                            p as int] as int].priority_spec() == rules@[old_order[
                            l - 1] as int].priority_spec() && old_order[p as int] < old_order[l
                                - 1]));
                        }
                    } else {
                        assert(no[k] == old_order[k - 1]);
                        assert(no[l] == old_order[l - 1]);
                    }
                }
            }
            i = i + 1;
        }
        Parser { context, rules, order, emitted: Ghost(Seq::empty()), aborts: Ghost(0nat), marker: PhantomData }
    }

    /// A parser over a materialized token vector.
    pub fn from_tokens(tokens: Vec<Tok>, rules: Vec<R>) -> (p: Parser<
        DefaultContext<Tok>,
        Tok,
        Ast,
        R,
    >) where R: ParsingRule<DefaultContext<Tok>, Tok, Ast>
        ensures
            p.ctx_spec().tokens() == tokens@,
            p.ctx_spec().index_spec() == 0,
            p.rules_spec() == rules@,
            p.wf(),
    {
        Parser::new(DefaultContext::from_token_iter(tokens), rules)
    }

    /// The context, read-only.
    pub fn context(&self) -> (c: &Ctx)
        ensures
            *c == self.ctx_spec(),
    {
        &self.context
    }

    /// The context, for direct manipulation (for feeding a streaming context,
    /// for example). What the caller does through the borrow is its own.
    pub fn context_mut(&mut self) -> &mut Ctx {
        &mut self.context
    }

    /// Tries each rule in priority order at the current place: the first
    /// success wins and is committed; a failed attempt is rolled back to its
    /// checkpoint, so a rule that fails leaves no trace.
    pub fn next_node(&mut self) -> (r: Option<Ast>)
        requires
            old(self).wf(),
        ensures
            final(self).wf(),
            final(self).rules_spec() == old(self).rules_spec(),
            final(self).order_spec() == old(self).order_spec(),
            final(self).emitted_spec() == old(self).emitted_spec(),
            final(self).aborts_spec() == old(self).aborts_spec(),
            final(self).ctx_spec().tokens() == old(self).ctx_spec().tokens(),
            final(self).ctx_spec().closed_spec() == old(self).ctx_spec().closed_spec(),
            match p_scan_from(
                old(self).rules_spec(),
                old(self).order_spec(),
                0,
                old(self).ctx_spec().tokens().skip(old(self).ctx_spec().index_spec()),
                old(self).ctx_spec().closed_spec(),
            ) {
                None => r is None && final(self).ctx_spec().index_spec() == old(
                    self,
                ).ctx_spec().index_spec() && final(self).ctx_spec().pos_spec() == old(
                    self,
                ).ctx_spec().pos_spec() && final(self).ctx_spec().committed_spec() == old(
                    self,
                ).ctx_spec().committed_spec(),
                Some(k) => {
                    &&& r matches Some(node) && parse_step::<Ctx, Tok, Ast, R>(
                        old(self).rules_spec(),
                        old(self).order_spec(),
                        old(self).ctx_spec().tokens(),
                        old(self).ctx_spec().closed_spec(),
                        old(self).ctx_spec().index_spec(),
                        final(self).ctx_spec().index_spec(),
                        node,
                    )
                    &&& final(self).ctx_spec().index_spec() >= old(self).ctx_spec().index_spec()
                    &&& final(self).ctx_spec().committed_spec() == crate::lazy_context::max_int(
                        old(self).ctx_spec().committed_spec(),
                        final(self).ctx_spec().index_spec(),
                    )
                },
            },
            0 <= final(self).ctx_spec().index_spec() <= final(self).ctx_spec().tokens().len(),
            0 <= old(self).ctx_spec().index_spec() <= old(self).ctx_spec().tokens().len(),
    {
        let ghost rules = self.rules@;
        let ghost order = self.order@;
        let ghost toks = self.context.tokens();
        let ghost closed = self.context.closed_spec();
        let cp0 = self.context.checkpoint();
        let ghost i0 = self.context.index_spec();
        let ghost rest = toks.skip(i0);
        let hint: Option<Tok> = match self.context.peek() {
            Some(t) => Some(*t),
            None => None,
        };
        proof {
            assert(tok_hint_of(rest) == hint);
        }
        let mut k: usize = 0;
        loop
            invariant
                p_order_ok(rules, order),
                rules == self.rules@,
                order == self.order@,
                rules == old(self).rules_spec(),
                order == old(self).order_spec(),
                toks == self.context.tokens(),
                closed == self.context.closed_spec(),
                i0 == self.context.index_spec(),
                toks == old(self).ctx_spec().tokens(),
                closed == old(self).ctx_spec().closed_spec(),
                i0 == old(self).ctx_spec().index_spec(),
                self.emitted_spec() == old(self).emitted_spec(),
                self.aborts_spec() == old(self).aborts_spec(),
                self.ctx_spec().pos_spec() == old(self).ctx_spec().pos_spec(),
                self.ctx_spec().committed_spec() == old(self).ctx_spec().committed_spec(),
                cp0.pos_spec() == old(self).ctx_spec().pos_spec(),
                0 <= i0 <= toks.len(),
                rest == toks.skip(i0),
                tok_hint_of(rest) == hint,
                cp0.index_spec() == i0,
                0 <= k <= order.len(),
                p_scan_from(rules, order, 0, rest, closed) == p_scan_from(
                    rules,
                    order,
                    k as int,
                    rest,
                    closed,
                ),
                self.wf(),
            decreases order.len() - k,
        {
            if k >= self.order.len() {
                return None;
            }
            let idx = self.order[k];
            let skip = {
                let rule = &self.rules[idx];
                matches!(rule.quick_check(hint.as_ref()), Some(false))
            };
            if skip {
                proof {
                    assert(rules[idx as int].match_len(rest, closed) is None);
                }
                k = k + 1;
                continue ;
            }
            let parsed = {
                let rule = &self.rules[idx];
                rule.try_parse(&mut self.context)
            };
            match parsed {
                Some(node) => {
                    self.context.commit();
                    return Some(node);
                },
                None => {
                    self.context.restore(cp0);
                    k = k + 1;
                },
            }
        }
    }

    /// Parses nodes until the tokens are exhausted or no rule matches,
    /// accepting a node only when the index strictly advanced; a
    /// zero-progress match halts the run instead of looping forever.
    pub fn parse(&mut self) -> (nodes: Vec<Ast>)
        requires
            old(self).wf(),
        ensures
            final(self).wf(),
            final(self).rules_spec() == old(self).rules_spec(),
            final(self).order_spec() == old(self).order_spec(),
            final(self).ctx_spec().tokens() == old(self).ctx_spec().tokens(),
            final(self).ctx_spec().closed_spec() == old(self).ctx_spec().closed_spec(),
            parse_seq::<Ctx, Tok, Ast, R>(
                final(self).rules_spec(),
                final(self).order_spec(),
                final(self).ctx_spec().tokens(),
                final(self).ctx_spec().closed_spec(),
                old(self).ctx_spec().index_spec(),
                final(self).ctx_spec().index_spec(),
                nodes@,
            ),
            parse_done::<Ctx, Tok, Ast, R>(
                final(self).rules_spec(),
                final(self).order_spec(),
                final(self).ctx_spec().tokens(),
                final(self).ctx_spec().closed_spec(),
                final(self).ctx_spec().index_spec(),
            ),
    {
        let ghost rules = self.rules@;
        let ghost order = self.order@;
        let ghost toks = self.context.tokens();
        let ghost closed = self.context.closed_spec();
        let ghost i0 = self.context.index_spec();
        let mut nodes: Vec<Ast> = Vec::new();
        let mut done = false;
        while !done
            invariant
                rules == self.rules@,
                order == self.order@,
                rules == old(self).rules_spec(),
                order == old(self).order_spec(),
                toks == self.context.tokens(),
                closed == self.context.closed_spec(),
                toks == old(self).ctx_spec().tokens(),
                closed == old(self).ctx_spec().closed_spec(),
                i0 == old(self).ctx_spec().index_spec(),
                parse_seq::<Ctx, Tok, Ast, R>(
                    rules,
                    order,
                    toks,
                    closed,
                    i0,
                    self.context.index_spec(),
                    nodes@,
                ),
                i0 <= self.context.index_spec(),
                self.emitted_spec() == old(self).emitted_spec(),
                self.aborts_spec() == old(self).aborts_spec(),
                self.context.committed_spec() >= old(self).ctx_spec().committed_spec(),
                done ==> parse_done::<Ctx, Tok, Ast, R>(
                    rules,
                    order,
                    toks,
                    closed,
                    self.context.index_spec(),
                ),
                self.wf(),
            decreases toks.len() - self.context.index_spec() + if done {
                0int
            } else {
                1int
            },
        {
            if self.context.is_eof() {
                done = true;
                continue ;
            }
            let before = self.context.token_index();
            let ghost j = self.context.index_spec();
            match self.next_node() {
                None => {
                    done = true;
                },
                Some(node) => {
                    let after = self.context.token_index();
                    if after == before {
                        done = true;
                    } else {
                        proof {
                            lemma_parse_seq_snoc::<Ctx, Tok, Ast, R>(
                                rules,
                                order,
                                toks,
                                closed,
                                i0,
                                j,
                                self.context.index_spec(),
                                nodes@,
                                node,
                            );
                        }
                        nodes.push(node);
                    }
                },
            }
        }
        nodes
    }

    /// Parses a single node and returns it, or nothing if no rule matches.
    pub fn parse_one(&mut self) -> (r: Option<Ast>)
        requires
            old(self).wf(),
        ensures
            final(self).wf(),
            final(self).rules_spec() == old(self).rules_spec(),
            final(self).order_spec() == old(self).order_spec(),
            final(self).emitted_spec() == old(self).emitted_spec(),
            final(self).aborts_spec() == old(self).aborts_spec(),
            final(self).ctx_spec().tokens() == old(self).ctx_spec().tokens(),
            final(self).ctx_spec().closed_spec() == old(self).ctx_spec().closed_spec(),
            match p_scan_from(
                old(self).rules_spec(),
                old(self).order_spec(),
                0,
                old(self).ctx_spec().tokens().skip(old(self).ctx_spec().index_spec()),
                old(self).ctx_spec().closed_spec(),
            ) {
                None => r is None && final(self).ctx_spec().index_spec() == old(
                    self,
                ).ctx_spec().index_spec() && final(self).ctx_spec().pos_spec() == old(
                    self,
                ).ctx_spec().pos_spec() && final(self).ctx_spec().committed_spec() == old(
                    self,
                ).ctx_spec().committed_spec(),
                Some(k) => {
                    &&& r matches Some(node) && parse_step::<Ctx, Tok, Ast, R>(
                        old(self).rules_spec(),
                        old(self).order_spec(),
                        old(self).ctx_spec().tokens(),
                        old(self).ctx_spec().closed_spec(),
                        old(self).ctx_spec().index_spec(),
                        final(self).ctx_spec().index_spec(),
                        node,
                    )
                    &&& final(self).ctx_spec().index_spec() >= old(self).ctx_spec().index_spec()
                    &&& final(self).ctx_spec().committed_spec() == crate::lazy_context::max_int(
                        old(self).ctx_spec().committed_spec(),
                        final(self).ctx_spec().index_spec(),
                    )
                },
            },
            0 <= final(self).ctx_spec().index_spec() <= final(self).ctx_spec().tokens().len(),
    {
        self.next_node()
    }
}

impl<Tok: Copy, Ast, R: ParsingRule<StreamingParseContext<Tok>, Tok, Ast>> Parser<
    StreamingParseContext<Tok>,
    Tok,
    Ast,
    R,
> {
    /// Parses as many nodes as the buffered tokens allow, stopping at the
    /// first place where no rule matches or no progress is made.
    pub fn drain_ready_nodes(&mut self) -> (nodes: Vec<Ast>)
        requires
            old(self).wf(),
        ensures
            final(self).wf(),
            final(self).rules_spec() == old(self).rules_spec(),
            final(self).order_spec() == old(self).order_spec(),
            final(self).ctx_spec().tokens() == old(self).ctx_spec().tokens(),
            final(self).ctx_spec().closed_spec() == old(self).ctx_spec().closed_spec(),
            crate::parser::parse_seq::<StreamingParseContext<Tok>, Tok, Ast, R>(
                final(self).rules_spec(),
                final(self).order_spec(),
                final(self).ctx_spec().tokens(),
                final(self).ctx_spec().closed_spec(),
                old(self).ctx_spec().index_spec(),
                final(self).ctx_spec().index_spec(),
                nodes@,
            ),
            old(self).ctx_spec().index_spec() <= final(self).ctx_spec().index_spec(),
            final(self).ctx_spec().index_spec() <= final(self).ctx_spec().tokens().len(),
            nodes@.len() > 0 ==> old(self).ctx_spec().index_spec() < final(self).ctx_spec().index_spec(),
            parse_done::<StreamingParseContext<Tok>, Tok, Ast, R>(
                final(self).rules_spec(),
                final(self).order_spec(),
                final(self).ctx_spec().tokens(),
                final(self).ctx_spec().closed_spec(),
                final(self).ctx_spec().index_spec(),
            ),
            final(self).ctx_spec().committed_spec() >= old(self).ctx_spec().committed_spec(),
            final(self).emitted_spec() == old(self).emitted_spec() + nodes@,
            final(self).aborts_spec() == old(self).aborts_spec(),
    {
        let ghost rules = self.rules_spec();
        let ghost order = self.order_spec();
        let ghost toks = self.ctx_spec().tokens();
        let ghost closed = self.ctx_spec().closed_spec();
        let ghost i0 = self.ctx_spec().index_spec();
        // reading the index establishes that it lies within the stream
        let _start = self.context().token_index();
        let mut nodes: Vec<Ast> = Vec::new();
        let mut done = false;
        while !done
            invariant
                rules == self.rules_spec(),
                order == self.order_spec(),
                rules == old(self).rules_spec(),
                order == old(self).order_spec(),
                toks == self.ctx_spec().tokens(),
                closed == self.ctx_spec().closed_spec(),
                toks == old(self).ctx_spec().tokens(),
                closed == old(self).ctx_spec().closed_spec(),
                i0 == old(self).ctx_spec().index_spec(),
                i0 <= self.ctx_spec().index_spec(),
                0 <= self.ctx_spec().index_spec() <= toks.len(),
                crate::parser::parse_seq::<StreamingParseContext<Tok>, Tok, Ast, R>(
                    rules,
                    order,
                    toks,
                    closed,
                    i0,
                    self.ctx_spec().index_spec(),
                    nodes@,
                ),
                nodes@.len() > 0 ==> i0 < self.ctx_spec().index_spec(),
                self.emitted_spec() == old(self).emitted_spec(),
                self.aborts_spec() == old(self).aborts_spec(),
                self.ctx_spec().committed_spec() >= old(self).ctx_spec().committed_spec(),
                done ==> parse_done::<StreamingParseContext<Tok>, Tok, Ast, R>(
                    rules,
                    order,
                    toks,
                    closed,
                    self.ctx_spec().index_spec(),
                ),
                self.wf(),
            decreases toks.len() - self.ctx_spec().index_spec() + if done {
                0int
            } else {
                1int
            },
        {
            let before = self.context().token_index();
            let ghost j = self.ctx_spec().index_spec();
            match self.next_node() {
                None => {
                    done = true;
                },
                Some(node) => {
                    let after = self.context().token_index();
                    if after == before {
                        done = true;
                    } else {
                        proof {
                            crate::parser::lemma_parse_seq_snoc::<
                                StreamingParseContext<Tok>,
                                Tok,
                                Ast,
                                R,
                            >(
                                rules,
                                order,
                                toks,
                                closed,
                                i0,
                                j,
                                self.ctx_spec().index_spec(),
                                nodes@,
                                node,
                            );
                        }
                        nodes.push(node);
                    }
                },
            }
        }
        self.emitted = Ghost(self.emitted@ + nodes@);
        nodes
    }
}

impl<Tok: Copy, Ast, R: ParsingRule<StreamingParseContext<Tok>, Tok, Ast>> StreamModel<
    Tok,
    Ast,
> for Parser<StreamingParseContext<Tok>, Tok, Ast, R> {
    /// The nodes this parser has handed over.
    open spec fn emitted(&self) -> Seq<Ast> {
        self.emitted_spec()
    }

    /// The aborts this parser has been told of.
    open spec fn aborts(&self) -> nat {
        self.aborts_spec()
    }
}

impl<Tok: Copy, Ast, R: ParsingRule<StreamingParseContext<Tok>, Tok, Ast>> StreamPart for Parser<
    StreamingParseContext<Tok>,
    Tok,
    Ast,
    R,
> {
    /// A parser is well-formed when its rule order is.
    open spec fn inv(&self) -> bool {
        self.wf()
    }

    /// The buffered tokens still in front of the parser.
    open spec fn fuel(&self) -> nat {
        if 0 <= self.ctx_spec().index_spec() <= self.ctx_spec().tokens().len() {
            (self.ctx_spec().tokens().len() - self.ctx_spec().index_spec()) as nat
        } else {
            0
        }
    }
}

impl<Tok: Copy, Ast, R: ParsingRule<StreamingParseContext<Tok>, Tok, Ast>> TokenConsumer<
    Tok,
    Ast,
> for Parser<StreamingParseContext<Tok>, Tok, Ast, R> {
    /// Buffers the token, then parses whatever became ready.
    fn push_token(&mut self, token: Tok) -> (nodes: Vec<Ast>) {
        self.context.push_token(token);
        self.drain_ready_nodes()
    }

    /// Closes the stream, then parses whatever remains.
    fn finish(&mut self) -> (nodes: Vec<Ast>) {
        self.context.mark_finished();
        self.drain_ready_nodes()
    }
}

impl<Tok: Copy, Ast, R: ParsingRule<StreamingParseContext<Tok>, Tok, Ast>> Outbound<Tok, Ast> for Parser<
    StreamingParseContext<Tok>,
    Tok,
    Ast,
    R,
> {
    /// Reports produced nodes, completion at the end of a closed stream, or
    /// the need for one more token; it never reports nothing.
    fn next_signal(&mut self) -> (r: Option<StreamingSignal<Tok, Ast>>)
        ensures
            final(self).wf(),
            final(self).rules_spec() == old(self).rules_spec(),
            final(self).order_spec() == old(self).order_spec(),
            final(self).ctx_spec().tokens() == old(self).ctx_spec().tokens(),
            final(self).ctx_spec().closed_spec() == old(self).ctx_spec().closed_spec(),
            parse_done::<StreamingParseContext<Tok>, Tok, Ast, R>(
                final(self).rules_spec(),
                final(self).order_spec(),
                final(self).ctx_spec().tokens(),
                final(self).ctx_spec().closed_spec(),
                final(self).ctx_spec().index_spec(),
            ),
            match r {
                Some(StreamingSignal::Produced(ns)) => ns@.len() > 0 && parse_seq::<
                    StreamingParseContext<Tok>,
                    Tok,
                    Ast,
                    R,
                >(
                    final(self).rules_spec(),
                    final(self).order_spec(),
                    final(self).ctx_spec().tokens(),
                    final(self).ctx_spec().closed_spec(),
                    old(self).ctx_spec().index_spec(),
                    final(self).ctx_spec().index_spec(),
                    ns@,
                ),
                Some(StreamingSignal::Finished(ns)) => {
                    &&& ns@.len() == 0
                    &&& final(self).ctx_spec().closed_spec()
                    &&& final(self).ctx_spec().index_spec() == final(self).ctx_spec().tokens().len()
                    &&& final(self).ctx_spec().index_spec() == old(self).ctx_spec().index_spec()
                },
                Some(StreamingSignal::NeedToken(n)) => {
                    &&& n == 1
                    &&& !(final(self).ctx_spec().closed_spec() && final(self).ctx_spec().index_spec()
                        == final(self).ctx_spec().tokens().len())
                    &&& final(self).ctx_spec().index_spec() == old(self).ctx_spec().index_spec()
                },
                _ => false,
            },
    {
        // reading the index establishes that it lies within the stream
        let _start = self.context().token_index();
        let produced = self.drain_ready_nodes();
        if produced.len() > 0 {
            return Some(StreamingSignal::Produced(produced));
        }
        if self.context().is_eof() {
            return Some(StreamingSignal::Finished(Vec::new()));
        }
        Some(StreamingSignal::NeedToken(1))
    }
}

impl<Tok: Copy, Ast, R: ParsingRule<StreamingParseContext<Tok>, Tok, Ast>> Inbound<Tok, Ast> for Parser<
    StreamingParseContext<Tok>,
    Tok,
    Ast,
    R,
> {
    /// Accepts supplied tokens, the end of input, and aborts; aborts close
    /// the stream so the run winds down. A supplied token is only buffered:
    /// the nodes it completes are reported through the next outbound signal.
    fn handle_signal(&mut self, signal: StreamingSignal<Tok, Ast>) {
        match signal {
            StreamingSignal::SupplyToken(token) => {
                self.context.push_token(token);
            },
            StreamingSignal::EndOfInput => {
                self.context.mark_finished();
            },
            StreamingSignal::Abort(_) => {
                self.context.mark_finished();
                self.aborts = Ghost(self.aborts@ + 1);
            },
            _ => {},
        }
    }
}

} // verus!
