use crate::lazy_context::max_int;
use crate::position::{Checkpoint, Position};
use vstd::prelude::*;

verus! {

/// The scanning state a parsing rule works on: a stream of tokens, the index
/// reached so far, and whether more tokens can still arrive.
pub trait ParseContext<Tok: Copy>: Sized {
    /// The tokens this context holds.
    spec fn tokens(&self) -> Seq<Tok>;

    /// How many tokens have been consumed.
    spec fn index_spec(&self) -> int;

    /// Whether no further tokens can arrive.
    spec fn closed_spec(&self) -> bool;

    /// The lowest index promised never to be revisited; only `commit` raises it.
    spec fn committed_spec(&self) -> int;

    /// The position this context reports.
    spec fn pos_spec(&self) -> Position;

    /// The current token, without advancing.
    fn peek(&self) -> (r: Option<&Tok>)
        ensures
            if self.index_spec() < self.tokens().len() {
                r matches Some(t) && *t == self.tokens()[self.index_spec()]
            } else {
                r is None
            },
            0 <= self.index_spec() <= self.tokens().len(),
    ;

    /// The token `offset` places ahead, without advancing.
    fn peek_at(&self, offset: usize) -> (r: Option<&Tok>)
        ensures
            if self.index_spec() + offset < self.tokens().len() {
                r matches Some(t) && *t == self.tokens()[self.index_spec() + offset]
            } else {
                r is None
            },
    ;

    /// Consumes one token and returns it.
    fn advance(&mut self) -> (r: Option<Tok>)
        ensures
            final(self).tokens() == old(self).tokens(),
            final(self).closed_spec() == old(self).closed_spec(),
            final(self).committed_spec() == old(self).committed_spec(),
            if old(self).index_spec() < old(self).tokens().len() {
                r == Some(old(self).tokens()[old(self).index_spec()]) && final(self).index_spec()
                    == old(self).index_spec() + 1
            } else {
                r is None && final(self).index_spec() == old(self).index_spec()
            },
    ;

    /// The position this context reports.
    fn position(&self) -> (p: Position)
        ensures
            p == self.pos_spec(),
    ;

    /// True when the stream is closed and fully consumed.
    fn is_eof(&self) -> (r: bool)
        ensures
            r == (self.closed_spec() && self.index_spec() == self.tokens().len()),
            0 <= self.index_spec() <= self.tokens().len(),
    ;

    /// The index of the current token.
    fn token_index(&self) -> (r: usize)
        ensures
            r == self.index_spec(),
            0 <= self.index_spec() <= self.tokens().len(),
    ;

    /// A checkpoint recording the place the context stands at.
    fn checkpoint(&self) -> (cp: Checkpoint)
        ensures
            cp.index_spec() == self.index_spec(),
            cp.pos_spec() == self.pos_spec(),
            0 <= self.index_spec() <= self.tokens().len(),
    ;

    /// Rewinds the context to a checkpoint taken on the same stream.
    fn restore(&mut self, checkpoint: Checkpoint)
        requires
            0 <= checkpoint.index_spec() <= old(self).tokens().len(),
        ensures
            final(self).tokens() == old(self).tokens(),
            final(self).closed_spec() == old(self).closed_spec(),
            final(self).committed_spec() == old(self).committed_spec(),
            final(self).index_spec() == checkpoint.index_spec(),
            final(self).pos_spec() == checkpoint.pos_spec(),
    ;

    /// A promise that no later backtrack will target a place before the
    /// current one, letting bounded-memory contexts discard history: the
    /// committed place rises to the current index and never falls.
    fn commit(&mut self)
        ensures
            final(self).tokens() == old(self).tokens(),
            final(self).closed_spec() == old(self).closed_spec(),
            final(self).index_spec() == old(self).index_spec(),
            final(self).pos_spec() == old(self).pos_spec(),
            final(self).committed_spec() == max_int(
                old(self).committed_spec(),
                old(self).index_spec(),
            ),
    ;
}

/// The plain parsing context: a fully materialized token vector.
#[derive(Debug)]
pub struct DefaultContext<Tok: Copy> {
    tokens: Vec<Tok>,
    current: usize,
    position: Position,
    committed: usize,
}

impl<Tok: Copy> DefaultContext<Tok> {
    /// A context over the given tokens.
    pub fn new(tokens: Vec<Tok>) -> (ctx: DefaultContext<Tok>)
        ensures
            ctx.tokens() == tokens@,
            ctx.index_spec() == 0,
            ctx.committed_spec() == 0,
    {
        DefaultContext { tokens, current: 0, position: Position::new(), committed: 0 }
    }

    /// A context over the tokens of any iterable collection, materialized.
    pub fn from_token_iter(tokens: Vec<Tok>) -> (ctx: DefaultContext<Tok>)
        ensures
            ctx.tokens() == tokens@,
            ctx.index_spec() == 0,
            ctx.committed_spec() == 0,
    {
        DefaultContext::new(tokens)
    }
}

impl<Tok: Copy> ParseContext<Tok> for DefaultContext<Tok> {
    closed spec fn tokens(&self) -> Seq<Tok> {
        self.tokens@
    }

    closed spec fn index_spec(&self) -> int {
        if self.current as int <= self.tokens@.len() {
            self.current as int
        } else {
            self.tokens@.len() as int
        }
    }

    open spec fn closed_spec(&self) -> bool {
        true
    }

    closed spec fn pos_spec(&self) -> Position {
        self.position
    }

    closed spec fn committed_spec(&self) -> int {
        self.committed as int
    }

    fn peek(&self) -> (r: Option<&Tok>) {
        if self.current < self.tokens.len() {
            Some(&self.tokens[self.current])
        } else {
            None
        }
    }

    fn peek_at(&self, offset: usize) -> (r: Option<&Tok>) {
        if offset < self.tokens.len() && self.current < self.tokens.len() - offset {
            Some(&self.tokens[self.current + offset])
        } else {
            None
        }
    }

    fn advance(&mut self) -> (r: Option<Tok>) {
        if self.current < self.tokens.len() {
            let t = self.tokens[self.current];
            self.current = self.current + 1;
            Some(t)
        } else {
            None
        }
    }

    fn position(&self) -> (p: Position) {
        self.position
    }

    fn is_eof(&self) -> (r: bool) {
        self.current >= self.tokens.len()
    }

    fn token_index(&self) -> (r: usize) {
        if self.current < self.tokens.len() {
            self.current
        } else {
            self.tokens.len()
        }
    }

    fn checkpoint(&self) -> (cp: Checkpoint) {
        let idx = if self.current < self.tokens.len() {
            self.current
        } else {
            self.tokens.len()
        };
        Checkpoint::new(idx, self.position)
    }

    fn restore(&mut self, checkpoint: Checkpoint) {
        self.current = checkpoint.token_index();
        self.position = checkpoint.position();
    }

    fn commit(&mut self) {
        let idx = if self.current < self.tokens.len() {
            self.current
        } else {
            self.tokens.len()
        };
        if idx > self.committed {
            self.committed = idx;
        }
    }
}

} // verus!
