use crate::context::{DefaultContext, LexContext};
use crate::position::{byte_len, lemma_byte_len_concat, pos_of, Checkpoint};
use crate::traits::{hint_of, LexingRule};
use core::marker::PhantomData;
use vstd::prelude::*;

verus! {

/// `x` occurs somewhere in `order`.
pub open spec fn in_order(order: Seq<usize>, x: int) -> bool {
    exists|k: int| 0 <= k < order.len() && (#[trigger] order[k]) == x
}

/// `order` lists positions into `rules`, highest priority first, ties in
/// registration order: a stable, priority-descending permutation.
pub open spec fn order_ok<Ctx: LexContext, Tok, R: LexingRule<Ctx, Tok>>(
    rules: Seq<R>,
    order: Seq<usize>,
) -> bool {
    &&& order.len() == rules.len()
    &&& forall|k: int| 0 <= k < order.len() ==> (#[trigger] order[k]) < rules.len()
    &&& forall|x: int| 0 <= x < rules.len() ==> #[trigger] in_order(order, x)
    &&& forall|k: int, l: int|
        0 <= k < l < order.len() ==> ((#[trigger] rules[order[k] as int].priority_spec())
            > (#[trigger] rules[order[l] as int].priority_spec()) || (rules[order[
            k] as int].priority_spec() == rules[order[l] as int].priority_spec() && order[k]
            < order[l]))
}

/// The first place in `order`, at or after `k`, whose rule matches `rest`.
pub open spec fn scan_from<Ctx: LexContext, Tok, R: LexingRule<Ctx, Tok>>(
    rules: Seq<R>,
    order: Seq<usize>,
    k: int,
    rest: Seq<char>,
    closed: bool,
) -> Option<int>
    decreases order.len() - k,
{
    if k < 0 || k >= order.len() {
        None
    } else if rules[order[k] as int].match_len(rest, closed) is Some {
        Some(k)
    } else {
        scan_from(rules, order, k + 1, rest, closed)
    }
}

/// One engine step: at index `i` of `input`, the first matching rule in
/// priority order consumes up to `j` and yields `t`.
pub open spec fn lex_step<Ctx: LexContext, Tok, R: LexingRule<Ctx, Tok>>(
    rules: Seq<R>,
    order: Seq<usize>,
    input: Seq<char>,
    closed: bool,
    i: int,
    j: int,
    t: Tok,
) -> bool {
    match scan_from(rules, order, 0, input.skip(i), closed) {
        None => false,
        Some(k) => {
            &&& rules[order[k] as int].match_len(input.skip(i), closed) == Some(j - i)
            &&& rules[order[k] as int].token_spec(
                input.skip(i),
                closed,
                pos_of(input.take(i)),
                t,
            )
        },
    }
}

/// A run of engine steps from index `i` to `j` producing `toks`, each step
/// making strict progress.
pub open spec fn lex_seq<Ctx: LexContext, Tok, R: LexingRule<Ctx, Tok>>(
    rules: Seq<R>,
    order: Seq<usize>,
    input: Seq<char>,
    closed: bool,
    i: int,
    j: int,
    toks: Seq<Tok>,
) -> bool
    decreases toks.len(),
{
    if toks.len() == 0 {
        i == j
    } else {
        exists|m: int|
            {
                &&& i < m
                &&& #[trigger] lex_step::<Ctx, Tok, R>(rules, order, input, closed, i, m, toks[0])
                &&& lex_seq::<Ctx, Tok, R>(rules, order, input, closed, m, j, toks.drop_first())
            }
    }
}

/// A run extends by one further step at its end.
pub proof fn lemma_lex_seq_snoc<Ctx: LexContext, Tok, R: LexingRule<Ctx, Tok>>(
    rules: Seq<R>,
    order: Seq<usize>,
    input: Seq<char>,
    closed: bool,
    i: int,
    j: int,
    j2: int,
    toks: Seq<Tok>,
    t: Tok,
)
    requires
        lex_seq::<Ctx, Tok, R>(rules, order, input, closed, i, j, toks),
        lex_step::<Ctx, Tok, R>(rules, order, input, closed, j, j2, t),
        j < j2,
    ensures
        lex_seq::<Ctx, Tok, R>(rules, order, input, closed, i, j2, toks.push(t)),
    decreases toks.len(),
{
    if toks.len() == 0 {
        assert(toks.push(t)[0] == t);
        assert(toks.push(t).drop_first() =~= Seq::<Tok>::empty());
        assert(lex_seq::<Ctx, Tok, R>(rules, order, input, closed, j2, j2, toks.push(t).drop_first()));
    } else {
        let m = choose|m: int|
            {
                &&& i < m
                &&& #[trigger] lex_step::<Ctx, Tok, R>(rules, order, input, closed, i, m, toks[0])
                &&& lex_seq::<Ctx, Tok, R>(rules, order, input, closed, m, j, toks.drop_first())
            };
        lemma_lex_seq_snoc::<Ctx, Tok, R>(
            rules,
            order,
            input,
            closed,
            m,
            j,
            j2,
            toks.drop_first(),
            t,
        );
        assert(toks.push(t).drop_first() =~= toks.drop_first().push(t));
        assert(toks.push(t)[0] == toks[0]);
    }
}

/// The engine is done at index `i`: the input is exhausted, no rule matches,
/// or the winning rule would not advance (the zero-progress fault).
pub open spec fn lex_done<Ctx: LexContext, Tok, R: LexingRule<Ctx, Tok>>(
    rules: Seq<R>,
    order: Seq<usize>,
    input: Seq<char>,
    closed: bool,
    i: int,
) -> bool {
    ||| (closed && i == input.len())
    ||| match scan_from(rules, order, 0, input.skip(i), closed) {
        None => true,
        Some(k) => rules[order[k] as int].match_len(input.skip(i), closed) == Some(0int),
    }
}

/// The rule-matching loop shared by lexing and parsing stages: rules are
/// stable-sorted by descending priority once at construction, and each
/// matching attempt is transactional through a checkpoint.
pub struct Lexer<Ctx: LexContext, Tok, R: LexingRule<Ctx, Tok>> {
    context: Ctx,
    rules: Vec<R>,
    order: Vec<usize>,
    aborts: Ghost<nat>,
    marker: PhantomData<Tok>,
}

impl<Ctx: LexContext, Tok, R: LexingRule<Ctx, Tok>> Lexer<Ctx, Tok, R> {
    /// The lexer keeps its rule order a stable, priority-descending
    /// permutation; `new` establishes it and every method preserves it.
    pub open spec fn wf(&self) -> bool {
        order_ok(self.rules_spec(), self.order_spec())
    }

    /// The context the lexer drives.
    pub closed spec fn ctx_spec(&self) -> Ctx {
        self.context
    }

    /// The rules, in registration order.
    pub closed spec fn rules_spec(&self) -> Seq<R> {
        self.rules@
    }

    /// The order in which rules are tried, as positions into the rule list.
    pub closed spec fn order_spec(&self) -> Seq<usize> {
        self.order@
    }

    /// How many aborts this lexer has been told of as a streaming producer.
    pub closed spec fn aborts_spec(&self) -> nat {
        self.aborts@
    }

    /// A lexer over the given context; the rules are stable-sorted by
    /// descending priority, ties keeping registration order.
    pub fn new(context: Ctx, rules: Vec<R>) -> (l: Lexer<Ctx, Tok, R>)
        ensures
            l.ctx_spec() == context,
            l.rules_spec() == rules@,
            l.aborts_spec() == 0,
            l.wf(),
    {
        let mut prios: Vec<i32> = Vec::new();
        let mut i: usize = 0;
        while i < rules.len()
            invariant
                prios@.len() == i <= rules@.len(),
                forall|j: int| 0 <= j < i ==> (#[trigger] prios@[j]) as int == rules@[j].priority_spec(),
            decreases rules@.len() - i,
        {
            prios.push(rules[i].priority());
            i = i + 1;
        }
        let mut order: Vec<usize> = Vec::new();
        let mut i: usize = 0;
        while i < rules.len()
            invariant
                prios@.len() == rules@.len(),
                forall|j: int| 0 <= j < rules@.len() ==> (#[trigger] prios@[j]) as int == rules@[j].priority_spec(),
                order@.len() == i <= rules@.len(),
                forall|k: int| 0 <= k < order@.len() ==> (#[trigger] order@[k]) < i,
                forall|x: int| 0 <= x < i ==> #[trigger] in_order(order@, x),
                forall|k: int, l: int|
                    0 <= k < l < order@.len() ==> ((#[trigger] rules@[order@[k] as int].priority_spec())
                        > (#[trigger] rules@[order@[l] as int].priority_spec()) || (rules@[order@[
                    k] as int].priority_spec() == rules@[order@[l] as int].priority_spec()
                        && order@[k] < order@[l])),
            decreases rules@.len() - i,
        {
            let mut p: usize = 0;
            while p < order.len() && prios[order[p]] >= prios[i]
                invariant
                    p <= order@.len(),
                    order@.len() == i <= rules@.len(),
                    (i as int) < prios@.len(),
                    prios@.len() == rules@.len(),
                    forall|k: int| 0 <= k < order@.len() ==> (#[trigger] order@[k]) < i,
                    forall|q: int|
                        0 <= q < p ==> (#[trigger] prios@[order@[q] as int]) >= prios@[i as int],
                decreases order@.len() - p,
            {
                p = p + 1;
            }
            let ghost old_order = order@;
            order.insert(p, i);
            proof {
                let no = order@;
                let pi = rules@[i as int].priority_spec();
                assert forall|k: int, l: int| 0 <= k < l < no.len() implies ((#[trigger] rules@[no[
                    k] as int].priority_spec()) > (#[trigger] rules@[no[l] as int].priority_spec())
                    || (rules@[no[k] as int].priority_spec() == rules@[no[
                    l] as int].priority_spec() && no[k] < no[l])) by {
                    if l < p as int {
                        assert(no[k] == old_order[k]);
                        assert(no[l] == old_order[l]);
                    } else if k < p as int && l == p as int {
                        assert(no[k] == old_order[k]);
                        assert(no[l] == i);
                        assert(prios@[old_order[k] as int] >= prios@[i as int]);
                        assert(old_order[k] < i);
                    } else if k < p as int {
                        assert(no[k] == old_order[k]);
                        assert(no[l] == old_order[l - 1]);
                    } else if k == p as int {
                        assert(no[k] == i);
                        assert(no[l] == old_order[l - 1]);
                        assert(prios@[old_order[p as int] as int] < prios@[i as int]);
                        if l - 1 > p as int {
                            assert(rules@[old_order[p as int] as int].priority_spec() > rules@[
                                old_order[l - 1] as int].priority_spec() || (rules@[old_order[
                            p as int] as int].priority_spec() == rules@[old_order[
                            l - 1] as int].priority_spec() && old_order[p as int] < old_order[l
                                - 1]));
                        }
                    } else {
                        assert(no[k] == old_order[k - 1]);
                        assert(no[l] == old_order[l - 1]);
                    }
                }
            }
            proof {
                assert forall|x: int| 0 <= x < i + 1 implies #[trigger] in_order(order@, x) by {
                    if x == i {
                        assert(order@[p as int] == x);
                    } else {
                        assert(in_order(old_order, x));
                        let k0 = choose|k0: int|
                            0 <= k0 < old_order.len() && (#[trigger] old_order[k0]) == x;
                        if k0 < p {
                            assert(order@[k0] == x);
                        } else {
                            assert(order@[k0 + 1] == x);
                        }
                    }
                }
            }
            i = i + 1;
        }
        Lexer { context, rules, order, aborts: Ghost(0nat), marker: PhantomData }
    }

    /// The context, read-only.
    pub fn context(&self) -> (c: &Ctx)
        ensures
            *c == self.ctx_spec(),
    {
        &self.context
    }

    /// The context, for direct manipulation (for feeding a streaming context,
    /// for example). What the caller does through the borrow is its own.
    pub fn context_mut(&mut self) -> &mut Ctx {
        &mut self.context
    }

    /// Tries each rule in priority order at the current place: the first
    /// success wins; a failed attempt is rolled back to its checkpoint, so a
    /// rule that fails leaves no trace (transactional backtracking).
    pub fn next_token(&mut self) -> (r: Option<Tok>)
        requires
            old(self).wf(),
        ensures
            final(self).wf(),
            final(self).rules_spec() == old(self).rules_spec(),
            final(self).order_spec() == old(self).order_spec(),
            final(self).aborts_spec() == old(self).aborts_spec(),
            final(self).ctx_spec().input() == old(self).ctx_spec().input(),
            final(self).ctx_spec().closed_spec() == old(self).ctx_spec().closed_spec(),
            match scan_from(
                old(self).rules_spec(),
                old(self).order_spec(),
                0,
                old(self).ctx_spec().input().skip(old(self).ctx_spec().index_spec()),
                old(self).ctx_spec().closed_spec(),
            ) {
                None => r is None && final(self).ctx_spec().index_spec() == old(
                    self,
                ).ctx_spec().index_spec(),
                Some(k) => {
                    &&& r matches Some(t) && lex_step::<Ctx, Tok, R>(
                        old(self).rules_spec(),
                        old(self).order_spec(),
                        old(self).ctx_spec().input(),
                        old(self).ctx_spec().closed_spec(),
                        old(self).ctx_spec().index_spec(),
                        final(self).ctx_spec().index_spec(),
                        t,
                    )
                    &&& final(self).ctx_spec().index_spec() >= old(self).ctx_spec().index_spec()
                },
            },
            0 <= final(self).ctx_spec().index_spec() <= final(self).ctx_spec().input().len(),
            0 <= old(self).ctx_spec().index_spec() <= old(self).ctx_spec().input().len(),
    {
        let ghost rules = self.rules@;
        let ghost order = self.order@;
        let ghost input = self.context.input();
        let ghost closed = self.context.closed_spec();
        let cp0 = self.context.checkpoint();
        let ghost i0 = self.context.index_spec();
        let ghost rest = input.skip(i0);
        let first_char = self.context.peek();
        proof {
            assert(hint_of(rest) == first_char);
        }
        let mut k: usize = 0;
        loop
            invariant
                order_ok(rules, order),
                rules == self.rules@,
                order == self.order@,
                rules == old(self).rules_spec(),
                order == old(self).order_spec(),
                self.aborts_spec() == old(self).aborts_spec(),
                input == self.context.input(),
                closed == self.context.closed_spec(),
                i0 == self.context.index_spec(),
                input == old(self).ctx_spec().input(),
                closed == old(self).ctx_spec().closed_spec(),
                i0 == old(self).ctx_spec().index_spec(),
                0 <= i0 <= input.len(),
                rest == input.skip(i0),
                hint_of(rest) == first_char,
                cp0.index_spec() == i0,
                crate::position::pos_matches(input.take(i0), cp0.pos_spec()),
                0 <= k <= order.len(),
                scan_from(rules, order, 0, rest, closed) == scan_from(
                    rules,
                    order,
                    k as int,
                    rest,
                    closed,
                ),
                self.wf(),
            decreases order.len() - k,
        {
            if k >= self.order.len() {
                return None;
            }
            let idx = self.order[k];
            let skip = {
                let rule = &self.rules[idx];
                matches!(rule.quick_check(first_char), Some(false))
            };
            if skip {
                proof {
                    assert(rules[idx as int].match_len(rest, closed) is None);
                }
                k = k + 1;
                continue ;
            }
            let matched = {
                let rule = &self.rules[idx];
                rule.try_match(&mut self.context)
            };
            match matched {
                Some(t) => {
                    return Some(t);
                },
                None => {
                    self.context.restore(cp0);
                    k = k + 1;
                },
            }
        }
    }

    /// One progress-checked step: a token is returned only when the context
    /// strictly advanced, so a rule that claims success without consuming
    /// anything is reported as no token rather than looping forever.
    pub fn next(&mut self) -> (r: Option<Tok>)
        requires
            old(self).wf(),
        ensures
            final(self).wf(),
            final(self).rules_spec() == old(self).rules_spec(),
            final(self).order_spec() == old(self).order_spec(),
            final(self).aborts_spec() == old(self).aborts_spec(),
            final(self).ctx_spec().input() == old(self).ctx_spec().input(),
            final(self).ctx_spec().closed_spec() == old(self).ctx_spec().closed_spec(),
            match r {
                Some(t) => {
                    &&& lex_step::<Ctx, Tok, R>(
                        final(self).rules_spec(),
                        final(self).order_spec(),
                        final(self).ctx_spec().input(),
                        final(self).ctx_spec().closed_spec(),
                        old(self).ctx_spec().index_spec(),
                        final(self).ctx_spec().index_spec(),
                        t,
                    )
                    &&& old(self).ctx_spec().index_spec() < final(self).ctx_spec().index_spec()
                },
                None => final(self).ctx_spec().index_spec() == old(self).ctx_spec().index_spec()
                    && lex_done::<Ctx, Tok, R>(
                    final(self).rules_spec(),
                    final(self).order_spec(),
                    final(self).ctx_spec().input(),
                    final(self).ctx_spec().closed_spec(),
                    old(self).ctx_spec().index_spec(),
                ),
            },
            0 <= final(self).ctx_spec().index_spec() <= final(self).ctx_spec().input().len(),
            0 <= old(self).ctx_spec().index_spec() <= old(self).ctx_spec().input().len(),
    {
        if self.context.is_eof() {
            return None;
        }
        let before = self.context.offset();
        let ghost j0 = self.context.index_spec();
        let r = self.next_token();
        let after = self.context.offset();
        if r.is_some() {
            if after == before {
                proof {
                    if j0 < self.context.index_spec() {
                        lemma_byte_len_take_strict(
                            self.context.input(),
                            j0,
                            self.context.index_spec(),
                        );
                    }
                }
                return None;
            }
            r
        } else {
            None
        }
    }

    /// Collects tokens until the input is exhausted or no rule matches,
    /// accepting a token only when the index strictly advanced; a
    /// zero-progress match halts the run instead of looping forever.
    pub fn tokenize(&mut self) -> (toks: Vec<Tok>)
        requires
            old(self).wf(),
        ensures
            final(self).wf(),
            final(self).rules_spec() == old(self).rules_spec(),
            final(self).order_spec() == old(self).order_spec(),
            final(self).ctx_spec().input() == old(self).ctx_spec().input(),
            final(self).ctx_spec().closed_spec() == old(self).ctx_spec().closed_spec(),
            lex_seq::<Ctx, Tok, R>(
                final(self).rules_spec(),
                final(self).order_spec(),
                final(self).ctx_spec().input(),
                final(self).ctx_spec().closed_spec(),
                old(self).ctx_spec().index_spec(),
                final(self).ctx_spec().index_spec(),
                toks@,
            ),
            lex_done::<Ctx, Tok, R>(
                final(self).rules_spec(),
                final(self).order_spec(),
                final(self).ctx_spec().input(),
                final(self).ctx_spec().closed_spec(),
                final(self).ctx_spec().index_spec(),
            ),
    {
        let ghost rules = self.rules@;
        let ghost order = self.order@;
        let ghost input = self.context.input();
        let ghost closed = self.context.closed_spec();
        let ghost i0 = self.context.index_spec();
        let mut toks: Vec<Tok> = Vec::new();
        let mut done = false;
        while !done
            invariant
                rules == self.rules@,
                order == self.order@,
                input == self.context.input(),
                closed == self.context.closed_spec(),
                lex_seq::<Ctx, Tok, R>(
                    rules,
                    order,
                    input,
                    closed,
                    i0,
                    self.context.index_spec(),
                    toks@,
                ),
                i0 <= self.context.index_spec(),
                done ==> lex_done::<Ctx, Tok, R>(
                    rules,
                    order,
                    input,
                    closed,
                    self.context.index_spec(),
                ),
                self.wf(),
            decreases input.len() - self.context.index_spec() + if done {
                0int
            } else {
                1int
            },
        {
            if self.context.is_eof() {
                done = true;
                continue ;
            }
            let before = self.context.offset();
            let ghost j = self.context.index_spec();
            match self.next_token() {
                None => {
                    done = true;
                },
                Some(t) => {
                    let after = self.context.offset();
                    if after == before {
                        proof {
                            if j < self.context.index_spec() {
                                lemma_byte_len_take_strict(
                                    input,
                                    j,
                                    self.context.index_spec(),
                                );
                            }
                        }
                        done = true;
                    } else {
                        proof {
                            if j == self.context.index_spec() {
                                assert(false);
                            }
                            lemma_lex_seq_snoc::<Ctx, Tok, R>(
                                rules,
                                order,
                                input,
                                closed,
                                i0,
                                j,
                                self.context.index_spec(),
                                toks@,
                                t,
                            );
                        }
                        toks.push(t);
                    }
                },
            }
        }
        toks
    }

    /// How many tokens may still come: at most one per remaining character.
    pub fn size_hint(&self) -> (r: (usize, Option<usize>))
        ensures
            r.0 == 0,
            r.1 matches Some(n) && n == self.ctx_spec().input().len() - self.ctx_spec().index_spec(),
    {
        let rem = self.context.remaining();
        (0, Some(rem.len()))
    }
}

impl<Tok, R: LexingRule<DefaultContext, Tok>> Lexer<DefaultContext, Tok, R> {
    /// A lexer with a fresh context over the given input.
    pub fn from_str(input: &str, rules: Vec<R>) -> (l: Lexer<DefaultContext, Tok, R>)
        requires
            byte_len(input@) < usize::MAX,
        ensures
            l.ctx_spec().input() == input@,
            l.ctx_spec().index_spec() == 0,
            l.rules_spec() == rules@,
            l.wf(),
    {
        Lexer::new(DefaultContext::new(input), rules)
    }
}

/// Reaching a matching place in the order, the scan stops at or before it.
proof fn lemma_scan_finds<Ctx: LexContext, Tok, R: LexingRule<Ctx, Tok>>(
    rules: Seq<R>,
    order: Seq<usize>,
    k0: int,
    l: int,
    rest: Seq<char>,
    closed: bool,
)
    requires
        0 <= k0 <= l < order.len(),
        rules[order[l] as int].match_len(rest, closed) is Some,
    ensures
        scan_from(rules, order, k0, rest, closed) matches Some(k) && k0 <= k <= l && rules[order[
            k] as int].match_len(rest, closed) is Some,
    decreases l - k0,
{
    if k0 < l && rules[order[k0] as int].match_len(rest, closed) is None {
        lemma_scan_finds::<Ctx, Tok, R>(rules, order, k0 + 1, l, rest, closed);
    }
}

/// Priority ordering: when several rules could match the same remaining
/// input, the engine's winner is one of them, carries the highest priority
/// among them, and among equal priorities stands earliest in registration
/// order. In particular, of two rules that both match, the higher-priority
/// one wins whatever order they were registered in.
pub proof fn lemma_priority_wins<Ctx: LexContext, Tok, R: LexingRule<Ctx, Tok>>(
    rules: Seq<R>,
    order: Seq<usize>,
    rest: Seq<char>,
    closed: bool,
    i: int,
)
    requires
        order_ok(rules, order),
        0 <= i < rules.len(),
        rules[i].match_len(rest, closed) is Some,
    ensures
        scan_from(rules, order, 0, rest, closed) matches Some(k) && {
            let w = order[k] as int;
            &&& 0 <= w < rules.len()
            &&& rules[w].match_len(rest, closed) is Some
            &&& (w == i || rules[w].priority_spec() > rules[i].priority_spec() || (rules[
                w].priority_spec() == rules[i].priority_spec() && w < i))
        },
{
    assert(in_order(order, i));
    let l = choose|l: int| 0 <= l < order.len() && (#[trigger] order[l]) == i;
    lemma_scan_finds::<Ctx, Tok, R>(rules, order, 0, l, rest, closed);
}

impl<Ctx: LexContext, Tok, R: LexingRule<Ctx, Tok>> crate::streaming::StreamPart for Lexer<
    Ctx,
    Tok,
    R,
> {
    /// A lexer is well-formed when its rule order is.
    open spec fn inv(&self) -> bool {
        self.wf()
    }

    /// The characters still in front of the lexer.
    open spec fn fuel(&self) -> nat {
        if 0 <= self.ctx_spec().index_spec() <= self.ctx_spec().input().len() {
            (self.ctx_spec().input().len() - self.ctx_spec().index_spec()) as nat
        } else {
            0
        }
    }
}

impl<Ctx: LexContext, Tok, Ast, R: LexingRule<Ctx, Tok>> crate::streaming::StreamModel<
    Tok,
    Ast,
> for Lexer<Ctx, Tok, R> {
    /// A producer hands over no nodes.
    open spec fn emitted(&self) -> Seq<Ast> {
        Seq::empty()
    }

    /// The aborts this lexer has been told of.
    open spec fn aborts(&self) -> nat {
        self.aborts_spec()
    }
}

impl<Ctx: LexContext, Tok, R: LexingRule<Ctx, Tok>> crate::streaming::TokenProducer<Tok> for Lexer<
    Ctx,
    Tok,
    R,
> {
    /// Emits the next token through the progress-checked step.
    fn poll_token(&mut self) -> (r: Option<Tok>) {
        self.next()
    }
}

impl<Ctx: LexContext, Tok, Ast, R: LexingRule<Ctx, Tok>> crate::streaming::Outbound<
    Tok,
    Ast,
> for Lexer<Ctx, Tok, R> {
    /// Reports the next token as a supply, the end of a closed input, or
    /// nothing when an open input has run dry.
    fn next_signal(&mut self) -> (r: Option<crate::streaming::StreamingSignal<Tok, Ast>>) {
        if let Some(token) = self.next() {
            return Some(crate::streaming::StreamingSignal::SupplyToken(token));
        }
        if self.context().is_eof() {
            return Some(crate::streaming::StreamingSignal::EndOfInput);
        }
        None
    }
}

impl<Ctx: LexContext, Tok, Ast, R: LexingRule<Ctx, Tok>> crate::streaming::Inbound<
    Tok,
    Ast,
> for Lexer<Ctx, Tok, R> {
    /// A producer has nothing to undo: an abort is taken note of, every other
    /// signal is dropped.
    fn handle_signal(&mut self, signal: crate::streaming::StreamingSignal<Tok, Ast>) {
        if matches!(signal, crate::streaming::StreamingSignal::Abort(_)) {
            self.aborts = Ghost(self.aborts@ + 1);
        }
    }
}

/// Strictly more consumed characters mean a strictly larger byte offset.
proof fn lemma_byte_len_take_strict(s: Seq<char>, i: int, j: int)
    requires
        0 <= i < j <= s.len(),
    ensures
        byte_len(s.take(i)) < byte_len(s.take(j)),
{
    assert(s.take(j) =~= s.take(i) + s.take(j).skip(i));
    lemma_byte_len_concat(s.take(i), s.take(j).skip(i));
    crate::position::lemma_byte_len_bounds(s.take(j).skip(i));
}

} // verus!
