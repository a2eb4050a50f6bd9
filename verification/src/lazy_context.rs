use crate::position::{Checkpoint, Position};
use vstd::prelude::*;

verus! {

/// A pull-based source of tokens: anything that yields items on demand.
/// Whatever blocking or computation happens inside is invisible here; the
/// contract only says the items come off the front of what remains.
pub trait TokenSource<Tok: Copy>: Sized {
    /// The items this source will still yield, in order. A source type
    /// states its contents by overriding this; one that does not is
    /// described as empty.
    open spec fn remaining(&self) -> Seq<Tok> {
        Seq::empty()
    }

    /// Yields the next item, or nothing once the source is exhausted.
    fn next_item(&mut self) -> (r: Option<Tok>)
        ensures
            if old(self).remaining().len() == 0 {
                r is None && final(self).remaining() == old(self).remaining()
            } else {
                r == Some(old(self).remaining()[0]) && final(self).remaining() == old(
                    self,
                ).remaining().drop_first()
            },
    ;
}

/// A source over a materialized vector, yielded front to back.
#[derive(Debug)]
pub struct VecSource<Tok: Copy> {
    items: Vec<Tok>,
    pos: usize,
}

impl<Tok: Copy> VecSource<Tok> {
    /// A source yielding the given items in order.
    pub fn new(items: Vec<Tok>) -> (s: VecSource<Tok>)
        ensures
            s.remaining() == items@,
    {
        VecSource { items, pos: 0 }
    }
}

impl<Tok: Copy> TokenSource<Tok> for VecSource<Tok> {
    closed spec fn remaining(&self) -> Seq<Tok> {
        if self.pos as int <= self.items@.len() {
            self.items@.skip(self.pos as int)
        } else {
            Seq::empty()
        }
    }

    fn next_item(&mut self) -> (r: Option<Tok>) {
        if self.pos < self.items.len() {
            let t = self.items[self.pos];
            self.pos = self.pos + 1;
            proof {
                assert(old(self).items@.skip(old(self).pos as int).drop_first()
                    =~= self.items@.skip(self.pos as int));
            }
            Some(t)
        } else {
            None
        }
    }
}

/// The larger of two integers.
pub open spec fn max_int(a: int, b: int) -> int {
    if a > b {
        a
    } else {
        b
    }
}

/// A bounded-memory incremental context: tokens are pulled from a source on
/// demand into a sliding buffer, and old tokens are discarded once they fall
/// behind the committed place or more than half the window behind the cursor.
pub struct LazyContext<S, Tok: Copy> where S: TokenSource<Tok> {
    source: S,
    buffer: Vec<Tok>,
    base_index: usize,
    cursor_offset: usize,
    position: Position,
    window_size: usize,
    committed_index: usize,
    dropped: Ghost<Seq<Tok>>,
}

impl<S: TokenSource<Tok>, Tok: Copy> LazyContext<S, Tok> {
    /// The whole logical token stream: what was discarded, what is buffered,
    /// and what the source will still yield.
    pub closed spec fn tokens(&self) -> Seq<Tok> {
        self.dropped@ + self.buffer@ + self.source.remaining()
    }

    /// The absolute index of the current token.
    pub closed spec fn index_spec(&self) -> int {
        self.base_index + self.cursor_offset
    }

    /// The absolute index of the first retained token.
    pub closed spec fn base_spec(&self) -> int {
        self.base_index as int
    }

    /// The lowest absolute index promised never to be revisited.
    pub closed spec fn committed_spec(&self) -> int {
        self.committed_index as int
    }

    /// The configured window size.
    pub closed spec fn window_spec(&self) -> int {
        self.window_size as int
    }

    /// The position this context reports.
    pub closed spec fn pos_spec(&self) -> Position {
        self.position
    }

    /// The context's internal consistency: the discarded prefix has exactly
    /// `base_index` tokens, the cursor stays inside the buffer, the committed
    /// place is never ahead of the cursor, and the whole stream fits an index.
    pub closed spec fn wf(&self) -> bool {
        &&& self.dropped@.len() == self.base_index
        &&& self.cursor_offset <= self.buffer@.len()
        &&& self.committed_index <= self.base_index + self.cursor_offset
        &&& self.tokens().len() <= usize::MAX
    }

    /// Pruning keeps only what may still be needed: the first retained token
    /// is no older than the committed place or half a window behind the cursor.
    pub closed spec fn window_ok(&self) -> bool {
        self.base_spec() <= max_int(
            self.committed_spec(),
            self.index_spec() - self.window_spec() / 2,
        )
    }

    /// A fresh context over `source` with the given soft window size.
    pub fn new(source: S, window_size: usize) -> (ctx: LazyContext<S, Tok>)
        requires
            source.remaining().len() <= usize::MAX,
        ensures
            ctx.wf(),
            ctx.window_ok(),
            ctx.tokens() == source.remaining(),
            ctx.index_spec() == 0,
            ctx.committed_spec() == 0,
            ctx.window_spec() == window_size,
            ctx.pos_spec() == crate::position::start_position(),
    {
        let ctx = LazyContext {
            source,
            buffer: Vec::new(),
            base_index: 0,
            cursor_offset: 0,
            position: Position::new(),
            window_size,
            committed_index: 0,
            dropped: Ghost(Seq::empty()),
        };
        proof {
            assert(ctx.tokens() =~= ctx.source.remaining());
        }
        ctx
    }

    /// Pulls until the buffer holds the token `relative_offset` ahead of the
    /// cursor; reports whether it is there.
    fn ensure_buffer(&mut self, relative_offset: usize) -> (ok: bool)
        requires
            old(self).wf(),
            old(self).cursor_offset as int + relative_offset <= usize::MAX,
        ensures
            final(self).wf(),
            final(self).tokens() == old(self).tokens(),
            final(self).index_spec() == old(self).index_spec(),
            final(self).base_spec() == old(self).base_spec(),
            final(self).committed_spec() == old(self).committed_spec(),
            final(self).window_spec() == old(self).window_spec(),
            final(self).pos_spec() == old(self).pos_spec(),
            ok == (final(self).index_spec() + relative_offset < final(self).tokens().len()),
            ok ==> final(self).cursor_offset as int + relative_offset < final(self).buffer@.len(),
    {
        loop
            invariant
                self.wf(),
                self.tokens() == old(self).tokens(),
                self.index_spec() == old(self).index_spec(),
                self.base_spec() == old(self).base_spec(),
                self.committed_spec() == old(self).committed_spec(),
                self.window_spec() == old(self).window_spec(),
                self.pos_spec() == old(self).pos_spec(),
                self.cursor_offset as int + relative_offset <= usize::MAX,
            decreases self.source.remaining().len(),
        {
            if self.cursor_offset + relative_offset < self.buffer.len() {
                return true;
            }
            let ghost toks = self.tokens();
            match self.source.next_item() {
                Some(token) => {
                    self.buffer.push(token);
                    proof {
                        assert(self.tokens() =~= toks);
                    }
                },
                None => {
                    return false;
                },
            }
        }
    }

    /// Discards buffered tokens that are behind the committed place, and — as
    /// a soft memory bound — tokens more than half the window behind the
    /// cursor, but never past the committed place.
    fn maybe_prune(&mut self)
        requires
            old(self).wf(),
        ensures
            final(self).wf(),
            final(self).tokens() == old(self).tokens(),
            final(self).index_spec() == old(self).index_spec(),
            final(self).committed_spec() == old(self).committed_spec(),
            final(self).window_spec() == old(self).window_spec(),
            final(self).pos_spec() == old(self).pos_spec(),
            final(self).base_spec() >= old(self).base_spec(),
            final(self).base_spec() == max_int(
                max_int(old(self).base_spec(), final(self).committed_spec()),
                final(self).index_spec() - final(self).window_spec() / 2,
            ),
    {
        while self.base_index < self.committed_index
            invariant
                self.wf(),
                self.tokens() == old(self).tokens(),
                self.index_spec() == old(self).index_spec(),
                self.committed_spec() == old(self).committed_spec(),
                self.window_spec() == old(self).window_spec(),
                self.pos_spec() == old(self).pos_spec(),
                self.base_spec() >= old(self).base_spec(),
                self.base_spec() == old(self).base_spec() || self.base_spec()
                    <= self.committed_spec(),
            decreases self.committed_index - self.base_index,
        {
            let ghost toks = self.tokens();
            let t = self.buffer.remove(0);
            proof {
                self.dropped@ = self.dropped@.push(t);
            }
            self.base_index = self.base_index + 1;
            if self.cursor_offset > 0 {
                self.cursor_offset = self.cursor_offset - 1;
            }
            proof {
                assert(self.tokens() =~= toks);
            }
        }
        let keep_history = self.window_size / 2;
        if self.cursor_offset > keep_history {
            let prune_count = self.cursor_offset - keep_history;
            let mut i: usize = 0;
            while i < prune_count
                invariant
                    i <= prune_count,
                    self.wf(),
                    self.tokens() == old(self).tokens(),
                    self.index_spec() == old(self).index_spec(),
                    self.committed_spec() == old(self).committed_spec(),
                    self.window_spec() == old(self).window_spec(),
                    self.pos_spec() == old(self).pos_spec(),
                    self.base_spec() >= max_int(old(self).base_spec(), self.committed_spec()),
                    keep_history as int == self.window_spec() / 2,
                    self.cursor_offset as int - (prune_count - i) == keep_history as int,
                decreases prune_count - i,
            {
                let ghost toks = self.tokens();
                let t = self.buffer.remove(0);
                proof {
                    self.dropped@ = self.dropped@.push(t);
                }
                self.base_index = self.base_index + 1;
                self.cursor_offset = self.cursor_offset - 1;
                proof {
                    assert(self.tokens() =~= toks);
                }
                i = i + 1;
            }
        }
    }

    /// The current token, pulled into the buffer if need be.
    pub fn peek(&mut self) -> (r: Option<Tok>)
        requires
            old(self).wf(),
        ensures
            final(self).wf(),
            final(self).tokens() == old(self).tokens(),
            final(self).index_spec() == old(self).index_spec(),
            final(self).base_spec() == old(self).base_spec(),
            final(self).committed_spec() == old(self).committed_spec(),
            final(self).window_spec() == old(self).window_spec(),
            final(self).pos_spec() == old(self).pos_spec(),
            r == if final(self).index_spec() < final(self).tokens().len() {
                Some(final(self).tokens()[final(self).index_spec()])
            } else {
                None::<Tok>
            },
    {
        self.peek_at(0)
    }

    /// The token `offset` places ahead, pulled into the buffer if need be.
    pub fn peek_at(&mut self, offset: usize) -> (r: Option<Tok>)
        requires
            old(self).wf(),
            old(self).index_spec() + offset <= usize::MAX,
        ensures
            final(self).wf(),
            final(self).tokens() == old(self).tokens(),
            final(self).index_spec() == old(self).index_spec(),
            final(self).base_spec() == old(self).base_spec(),
            final(self).committed_spec() == old(self).committed_spec(),
            final(self).window_spec() == old(self).window_spec(),
            final(self).pos_spec() == old(self).pos_spec(),
            r == if final(self).index_spec() + offset < final(self).tokens().len() {
                Some(final(self).tokens()[final(self).index_spec() + offset])
            } else {
                None::<Tok>
            },
    {
        if self.ensure_buffer(offset) {
            Some(self.buffer[self.cursor_offset + offset])
        } else {
            None
        }
    }

    /// Consumes the current token and prunes the window.
    pub fn advance(&mut self) -> (r: Option<Tok>)
        requires
            old(self).wf(),
        ensures
            final(self).wf(),
            old(self).window_ok() ==> final(self).window_ok(),
            final(self).tokens() == old(self).tokens(),
            final(self).committed_spec() == old(self).committed_spec(),
            final(self).window_spec() == old(self).window_spec(),
            final(self).pos_spec() == old(self).pos_spec(),
            if old(self).index_spec() < old(self).tokens().len() {
                r == Some(old(self).tokens()[old(self).index_spec()]) && final(self).index_spec()
                    == old(self).index_spec() + 1 && final(self).base_spec() == max_int(
                    max_int(old(self).base_spec(), final(self).committed_spec()),
                    final(self).index_spec() - final(self).window_spec() / 2,
                )
            } else {
                r is None && final(self).index_spec() == old(self).index_spec()
            },
    {
        if !self.ensure_buffer(0) {
            return None;
        }
        let token = self.buffer[self.cursor_offset];
        self.cursor_offset = self.cursor_offset + 1;
        self.maybe_prune();
        Some(token)
    }

    /// The position this context reports; only `restore` moves it.
    pub fn position(&self) -> (p: Position)
        ensures
            p == self.pos_spec(),
    {
        self.position
    }

    /// True once the cursor has passed every token the source will yield.
    pub fn is_eof(&mut self) -> (r: bool)
        requires
            old(self).wf(),
        ensures
            final(self).wf(),
            final(self).tokens() == old(self).tokens(),
            final(self).index_spec() == old(self).index_spec(),
            final(self).base_spec() == old(self).base_spec(),
            final(self).committed_spec() == old(self).committed_spec(),
            final(self).window_spec() == old(self).window_spec(),
            final(self).pos_spec() == old(self).pos_spec(),
            r == (final(self).index_spec() == final(self).tokens().len()),
    {
        !self.ensure_buffer(0)
    }

    /// The absolute index of the current token.
    pub fn token_index(&self) -> (r: usize)
        requires
            self.wf(),
        ensures
            r == self.index_spec(),
    {
        self.base_index + self.cursor_offset
    }

    /// A checkpoint recording the absolute index and position.
    pub fn checkpoint(&self) -> (cp: Checkpoint)
        requires
            self.wf(),
        ensures
            cp.index_spec() == self.index_spec(),
            cp.pos_spec() == self.pos_spec(),
    {
        Checkpoint::new(self.base_index + self.cursor_offset, self.position)
    }

    /// Rewinds to a checkpoint. A checkpoint whose index has already been
    /// pruned away is outside this function's contract: the backtrack
    /// distance exceeded the retained window, a caller misconfiguration.
    pub fn restore(&mut self, checkpoint: Checkpoint)
        requires
            old(self).wf(),
            checkpoint.index_spec() >= old(self).committed_spec(),
            old(self).base_spec() <= checkpoint.index_spec(),
            checkpoint.index_spec() <= old(self).base_spec() + old(self).buffer_len_spec(),
        ensures
            final(self).wf(),
            final(self).tokens() == old(self).tokens(),
            final(self).index_spec() == checkpoint.index_spec(),
            final(self).base_spec() == old(self).base_spec(),
            final(self).committed_spec() == old(self).committed_spec(),
            final(self).window_spec() == old(self).window_spec(),
            final(self).pos_spec() == checkpoint.pos_spec(),
    {
        let target_index = checkpoint.index();
        let new_offset = target_index - self.base_index;
        self.cursor_offset = new_offset;
        self.position = checkpoint.position();
    }

    /// Raises the committed place to the current index: a promise that no
    /// later backtrack will target anything before it. Prunes accordingly.
    pub fn commit(&mut self)
        requires
            old(self).wf(),
        ensures
            final(self).wf(),
            old(self).window_ok() ==> final(self).window_ok(),
            final(self).tokens() == old(self).tokens(),
            final(self).index_spec() == old(self).index_spec(),
            final(self).window_spec() == old(self).window_spec(),
            final(self).pos_spec() == old(self).pos_spec(),
            final(self).committed_spec() == max_int(
                old(self).committed_spec(),
                old(self).index_spec(),
            ),
            final(self).base_spec() == max_int(
                max_int(old(self).base_spec(), final(self).committed_spec()),
                final(self).index_spec() - final(self).window_spec() / 2,
            ),
    {
        let current_index = self.base_index + self.cursor_offset;
        if current_index > self.committed_index {
            self.committed_index = current_index;
        }
        self.maybe_prune();
    }
}

/// Window safety: a checkpoint taken no more than half the window behind the
/// current cursor, and not passed by any commit, still lies in the retained
/// buffer, so `restore` accepts it. (A backtrack beyond half the window that
/// was never committed may have been pruned: callers must either commit or
/// size the window beyond their grammar's worst-case lookahead.)
pub proof fn lemma_window_safety<S: TokenSource<Tok>, Tok: Copy>(
    ctx: &LazyContext<S, Tok>,
    cp: Checkpoint,
)
    requires
        ctx.wf(),
        ctx.window_ok(),
        cp.index_spec() >= ctx.committed_spec(),
        cp.index_spec() >= ctx.index_spec() - ctx.window_spec() / 2,
        cp.index_spec() <= ctx.index_spec(),
    ensures
        ctx.base_spec() <= cp.index_spec() <= ctx.base_spec() + ctx.buffer_len_spec(),
{
}

impl<S: TokenSource<Tok>, Tok: Copy> LazyContext<S, Tok> {
    /// How many tokens the buffer currently retains.
    pub closed spec fn buffer_len_spec(&self) -> int {
        self.buffer@.len() as int
    }
}

} // verus!
