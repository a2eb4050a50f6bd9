use crate::cursor::{min_int, Cursor};
use crate::position::{byte_len, pos_matches, Checkpoint, Position};
use crate::text_slice::TextSlice;
use vstd::prelude::*;

verus! {

/// The scanning state a lexing rule works on: an input of characters, the
/// index reached so far, and whether the input can still grow.
///
/// `input` is everything the context holds; `index_spec` counts the characters
/// consumed; `closed_spec` is false only for contexts that are still being fed.
pub trait LexContext: Sized {
    /// The characters this context holds.
    spec fn input(&self) -> Seq<char>;

    /// How many characters have been consumed.
    spec fn index_spec(&self) -> int;

    /// Whether no further input can arrive.
    spec fn closed_spec(&self) -> bool;

    /// The position belonging to the characters consumed so far.
    fn position(&self) -> (p: Position)
        ensures
            pos_matches(self.input().take(self.index_spec()), p),
    ;

    /// The byte offset of the next character.
    fn offset(&self) -> (r: usize)
        ensures
            r == byte_len(self.input().take(self.index_spec())),
    ;

    /// True when the input is closed and fully consumed.
    fn is_eof(&self) -> (r: bool)
        ensures
            r == (self.closed_spec() && self.index_spec() == self.input().len()),
            0 <= self.index_spec() <= self.input().len(),
    ;

    /// The next character, without consuming it.
    fn peek(&self) -> (r: Option<char>)
        ensures
            r == if self.index_spec() < self.input().len() {
                Some(self.input()[self.index_spec()])
            } else {
                None::<char>
            },
            0 <= self.index_spec() <= self.input().len(),
    ;

    /// The character `k` places ahead, without consuming anything.
    fn peek_at(&self, k: usize) -> (r: Option<char>)
        ensures
            r == if self.index_spec() + k < self.input().len() {
                Some(self.input()[self.index_spec() + k])
            } else {
                None::<char>
            },
    ;

    /// Consumes one character and returns it, or nothing at the end of the input.
    fn advance(&mut self) -> (r: Option<char>)
        ensures
            final(self).input() == old(self).input(),
            final(self).closed_spec() == old(self).closed_spec(),
            if old(self).index_spec() < old(self).input().len() {
                r == Some(old(self).input()[old(self).index_spec()]) && final(self).index_spec()
                    == old(self).index_spec() + 1
            } else {
                r is None && final(self).index_spec() == old(self).index_spec()
            },
    ;

    /// Consumes characters while `predicate` allows them; returns the consumed text.
    fn consume_while<F: Fn(char) -> bool>(&mut self, predicate: F) -> (s: TextSlice)
        requires
            forall|c: char| predicate.requires((c,)),
        ensures
            final(self).input() == old(self).input(),
            final(self).closed_spec() == old(self).closed_spec(),
            old(self).index_spec() <= final(self).index_spec() <= final(self).input().len(),
            s@ == final(self).input().subrange(old(self).index_spec(), final(self).index_spec()),
            forall|i: int|
                old(self).index_spec() <= i < final(self).index_spec() ==> predicate.ensures(
                    (final(self).input()[i],),
                    true,
                ),
            final(self).index_spec() < final(self).input().len() ==> predicate.ensures(
                (final(self).input()[final(self).index_spec()],),
                false,
            ),
    ;

    /// The next `n` characters (fewer if the input ends first), without
    /// consuming them.
    fn peek_slice(&self, n: usize) -> (s: TextSlice)
        ensures
            s@ == self.input().skip(self.index_spec()).take(
                min_int(n as int, self.input().len() - self.index_spec()),
            ),
            0 <= self.index_spec() <= self.input().len(),
    ;

    /// Consumes up to `n` characters; returns how many were consumed.
    fn advance_by(&mut self, n: usize) -> (count: usize)
        ensures
            final(self).input() == old(self).input(),
            final(self).closed_spec() == old(self).closed_spec(),
            count == min_int(n as int, old(self).input().len() - old(self).index_spec()),
            final(self).index_spec() == old(self).index_spec() + count,
    ;

    /// The input that has not yet been consumed.
    fn remaining(&self) -> (s: TextSlice)
        ensures
            s@ == self.input().skip(self.index_spec()),
            0 <= self.index_spec() <= self.input().len(),
    ;

    /// A checkpoint recording the place the context stands at.
    fn checkpoint(&self) -> (cp: Checkpoint)
        ensures
            cp.index_spec() == self.index_spec(),
            pos_matches(self.input().take(self.index_spec()), cp.pos_spec()),
            0 <= self.index_spec() <= self.input().len(),
    ;

    /// Rewinds the context to a checkpoint taken on the same input.
    fn restore(&mut self, checkpoint: Checkpoint)
        requires
            0 <= checkpoint.index_spec() <= old(self).input().len(),
            pos_matches(old(self).input().take(checkpoint.index_spec()), checkpoint.pos_spec()),
        ensures
            final(self).input() == old(self).input(),
            final(self).closed_spec() == old(self).closed_spec(),
            final(self).index_spec() == checkpoint.index_spec(),
    ;
}

/// The plain lexing context: a cursor over a fully materialized input.
#[derive(Debug)]
pub struct DefaultContext {
    cursor: Cursor,
}

impl DefaultContext {
    /// A context over the given input.
    pub fn new(input: &str) -> (ctx: DefaultContext)
        requires
            byte_len(input@) < usize::MAX,
        ensures
            ctx.input() == input@,
            ctx.index_spec() == 0,
    {
        DefaultContext { cursor: Cursor::new(input) }
    }

    /// A context over an existing cursor, wherever it stands.
    pub fn from_cursor(cursor: Cursor) -> (ctx: DefaultContext)
        ensures
            ctx.input() == cursor.input(),
            ctx.index_spec() == cursor.index_spec(),
    {
        DefaultContext { cursor }
    }

    /// The underlying cursor.
    pub fn cursor(&self) -> (c: &Cursor)
        ensures
            c.input() == self.input(),
            c.index_spec() == self.index_spec(),
    {
        &self.cursor
    }

    /// The underlying cursor, for direct manipulation. What the caller does
    /// through the borrow is not described here; the cursor's own contracts apply.
    pub fn cursor_mut(&mut self) -> &mut Cursor {
        &mut self.cursor
    }
}

impl LexContext for DefaultContext {
    closed spec fn input(&self) -> Seq<char> {
        self.cursor.input()
    }

    closed spec fn index_spec(&self) -> int {
        self.cursor.index_spec()
    }

    open spec fn closed_spec(&self) -> bool {
        true
    }

    fn position(&self) -> (p: Position) {
        self.cursor.position()
    }

    fn offset(&self) -> (r: usize) {
        self.cursor.offset()
    }

    fn is_eof(&self) -> (r: bool) {
        self.cursor.is_eof()
    }

    fn peek(&self) -> (r: Option<char>) {
        self.cursor.peek()
    }

    fn peek_at(&self, k: usize) -> (r: Option<char>) {
        self.cursor.peek_at(k)
    }

    fn advance(&mut self) -> (r: Option<char>) {
        self.cursor.advance()
    }

    fn consume_while<F: Fn(char) -> bool>(&mut self, predicate: F) -> (s: TextSlice) {
        self.cursor.consume_while(predicate)
    }

    fn peek_slice(&self, n: usize) -> (s: TextSlice) {
        self.cursor.peek_slice(n)
    }

    fn advance_by(&mut self, n: usize) -> (count: usize) {
        self.cursor.advance_by(n)
    }

    fn remaining(&self) -> (s: TextSlice) {
        self.cursor.remaining()
    }

    fn checkpoint(&self) -> (cp: Checkpoint) {
        self.cursor.checkpoint()
    }

    fn restore(&mut self, checkpoint: Checkpoint) {
        self.cursor.restore(checkpoint)
    }
}

} // verus!
