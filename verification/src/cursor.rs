use crate::position::{
    byte_len, char_width, lemma_byte_len_bounds, lemma_byte_len_push, lemma_byte_len_take_le,
    lemma_line_col_bounds, lemma_line_col_push, pos_matches, Checkpoint, Position,
};
use crate::text_slice::{arc_clone, TextSlice};
use std::sync::Arc;
use vstd::prelude::*;

verus! {

/// The number of bytes the UTF-8 encoding of `c` takes.
pub fn utf8_width(c: char) -> (w: usize)
    ensures
        w == char_width(c),
{
    let u = c as u32;
    if u < 0x80 {
        1
    } else if u < 0x800 {
        2
    } else if u < 0x10000 {
        3
    } else {
        4
    }
}

/// A cursor over an immutable text buffer: the character index scanned so far,
/// with the line, column and byte offset that belong to it.
#[derive(Debug)]
pub struct Cursor {
    buffer: Arc<String>,
    current: usize,
    position: Position,
}

impl Cursor {
    #[verifier::type_invariant]
    spec fn type_wf(&self) -> bool {
        &&& self.current as int <= self.buffer@.len()
        &&& pos_matches(self.buffer@.take(self.current as int), self.position)
        &&& byte_len(self.buffer@) < usize::MAX
    }

    /// The whole input this cursor scans.
    pub closed spec fn input(&self) -> Seq<char> {
        self.buffer@
    }

    /// The number of characters consumed so far.
    pub closed spec fn index_spec(&self) -> int {
        self.current as int
    }

    /// A cursor at the start of the given input.
    pub fn new(input: &str) -> (c: Cursor)
        requires
            byte_len(input@) < usize::MAX,
        ensures
            c.input() == input@,
            c.index_spec() == 0,
    {
        let owned: String = input.to_owned();
        Cursor::with_arc(Arc::new(owned))
    }

    /// A cursor at the start of an existing shared buffer.
    pub fn with_arc(buffer: Arc<String>) -> (c: Cursor)
        requires
            byte_len(buffer@) < usize::MAX,
        ensures
            c.input() == buffer@,
            c.index_spec() == 0,
    {
        let c = Cursor { buffer, current: 0, position: Position::new() };
        proof {
            assert(c.buffer@.take(0) =~= Seq::<char>::empty());
        }
        c
    }

    /// The position belonging to the characters consumed so far.
    pub fn position(&self) -> (p: Position)
        ensures
            pos_matches(self.input().take(self.index_spec()), p),
    {
        proof {
            use_type_invariant(self);
        }
        self.position
    }

    /// The byte offset of the next character.
    pub fn offset(&self) -> (r: usize)
        ensures
            r == byte_len(self.input().take(self.index_spec())),
    {
        proof {
            use_type_invariant(self);
        }
        self.position.offset
    }

    /// Whether every character of the input has been consumed.
    pub fn is_eof(&self) -> (r: bool)
        ensures
            r == (self.index_spec() == self.input().len()),
            0 <= self.index_spec() <= self.input().len(),
    {
        proof {
            use_type_invariant(self);
        }
        self.current >= self.buffer.as_str().unicode_len()
    }

    /// The next character, without consuming it.
    pub fn peek(&self) -> (r: Option<char>)
        ensures
            r == if self.index_spec() < self.input().len() {
                Some(self.input()[self.index_spec()])
            } else {
                None::<char>
            },
            0 <= self.index_spec() <= self.input().len(),
    {
        proof {
            use_type_invariant(self);
        }
        if self.current < self.buffer.as_str().unicode_len() {
            Some(self.buffer.as_str().get_char(self.current))
        } else {
            None
        }
    }

    /// The character `k` places ahead of the cursor, without consuming anything.
    pub fn peek_at(&self, k: usize) -> (r: Option<char>)
        ensures
            r == if self.index_spec() + k < self.input().len() {
                Some(self.input()[self.index_spec() + k])
            } else {
                None::<char>
            },
    {
        proof {
            use_type_invariant(self);
        }
        let n = self.buffer.as_str().unicode_len();
        if k < n && self.current < n - k {
            Some(self.buffer.as_str().get_char(self.current + k))
        } else {
            None
        }
    }

    /// The next `n` characters (fewer if the input ends first), without consuming them.
    pub fn peek_slice(&self, n: usize) -> (s: TextSlice)
        ensures
            s@ == self.input().skip(self.index_spec()).take(
                min_int(n as int, self.input().len() - self.index_spec()),
            ),
            0 <= self.index_spec() <= self.input().len(),
    {
        proof {
            use_type_invariant(self);
        }
        let len = self.buffer.as_str().unicode_len();
        let avail = len - self.current;
        let take = if n < avail {
            n
        } else {
            avail
        };
        let s = TextSlice::new(arc_clone(&self.buffer), self.current, self.current + take);
        proof {
            assert(s@ =~= self.input().skip(self.index_spec()).take(
                min_int(n as int, self.input().len() - self.index_spec()),
            ));
        }
        s
    }

    /// The next `n` characters, without consuming them (an alias for `peek_slice`).
    pub fn peek_str(&self, n: usize) -> (s: TextSlice)
        ensures
            s@ == self.input().skip(self.index_spec()).take(
                min_int(n as int, self.input().len() - self.index_spec()),
            ),
    {
        self.peek_slice(n)
    }

    /// Consumes one character, advancing line, column and byte offset.
    pub fn advance(&mut self) -> (r: Option<char>)
        ensures
            final(self).input() == old(self).input(),
            if old(self).index_spec() < old(self).input().len() {
                r == Some(old(self).input()[old(self).index_spec()]) && final(self).index_spec()
                    == old(self).index_spec() + 1
            } else {
                r is None && final(self).index_spec() == old(self).index_spec()
            },
    {
        proof {
            use_type_invariant(&*self);
        }
        let n = self.buffer.as_str().unicode_len();
        if self.current >= n {
            return None;
        }
        let ch = self.buffer.as_str().get_char(self.current);
        let w = utf8_width(ch);
        proof {
            let consumed = self.buffer@.take(self.current as int);
            let consumed1 = self.buffer@.take(self.current as int + 1);
            assert(consumed1 =~= consumed.push(ch));
            lemma_line_col_push(consumed, ch);
            lemma_byte_len_push(consumed, ch);
            lemma_line_col_bounds(consumed);
            lemma_byte_len_take_le(self.buffer@, self.current as int + 1);
            lemma_byte_len_bounds(self.buffer@.skip(self.current as int + 1));
            lemma_byte_len_bounds(consumed1);
        }
        let new_position = if ch == '\n' {
            Position {
                line: self.position.line + 1,
                column: 1,
                offset: self.position.offset + w,
            }
        } else {
            Position {
                line: self.position.line,
                column: self.position.column + 1,
                offset: self.position.offset + w,
            }
        };
        let new_current = self.current + 1;
        let buffer = arc_clone(&self.buffer);
        *self = Cursor { buffer, current: new_current, position: new_position };
        Some(ch)
    }

    /// Consumes up to `n` characters; returns how many were consumed.
    pub fn advance_by(&mut self, n: usize) -> (count: usize)
        ensures
            final(self).input() == old(self).input(),
            count == min_int(n as int, old(self).input().len() - old(self).index_spec()),
            final(self).index_spec() == old(self).index_spec() + count,
    {
        proof {
            use_type_invariant(&*self);
        }
        let mut count: usize = 0;
        while count < n
            invariant
                count <= n,
                self.input() == old(self).input(),
                self.index_spec() == old(self).index_spec() + count,
                self.index_spec() <= self.input().len(),
            decreases n - count,
        {
            if self.advance().is_none() {
                return count;
            }
            count = count + 1;
        }
        count
    }

    /// Consumes characters while `predicate` allows them; returns the consumed text.
    pub fn consume_while<F: Fn(char) -> bool>(&mut self, predicate: F) -> (s: TextSlice)
        requires
            forall|c: char| predicate.requires((c,)),
        ensures
            final(self).input() == old(self).input(),
            old(self).index_spec() <= final(self).index_spec() <= final(self).input().len(),
            s@ == final(self).input().subrange(old(self).index_spec(), final(self).index_spec()),
            forall|i: int|
                old(self).index_spec() <= i < final(self).index_spec() ==> predicate.ensures(
                    (final(self).input()[i],),
                    true,
                ),
            final(self).index_spec() < final(self).input().len() ==> predicate.ensures(
                (final(self).input()[final(self).index_spec()],),
                false,
            ),
    {
        let start = self.current;
        proof {
            use_type_invariant(&*self);
        }
        loop
            invariant
                forall|c: char| predicate.requires((c,)),
                self.input() == old(self).input(),
                start <= self.index_spec() <= self.input().len(),
                start as int == old(self).index_spec(),
                forall|i: int|
                    start <= i < self.index_spec() ==> predicate.ensures((self.input()[i],), true),
            ensures
                self.index_spec() < self.input().len() ==> predicate.ensures(
                    (self.input()[self.index_spec()],),
                    false,
                ),
            decreases self.input().len() - self.index_spec(),
        {
            match self.peek() {
                None => {
                    break ;
                },
                Some(c) => {
                    if !predicate(c) {
                        break ;
                    }
                    self.advance();
                },
            }
        }
        proof {
            use_type_invariant(&*self);
        }
        let s = TextSlice::new(arc_clone(&self.buffer), start, self.current);
        proof {
            assert(s@ =~= self.input().subrange(old(self).index_spec(), self.index_spec()));
        }
        s
    }

    /// The input that has not yet been consumed.
    pub fn remaining(&self) -> (s: TextSlice)
        ensures
            s@ == self.input().skip(self.index_spec()),
            0 <= self.index_spec() <= self.input().len(),
    {
        proof {
            use_type_invariant(self);
        }
        let len = self.buffer.as_str().unicode_len();
        let s = TextSlice::new(arc_clone(&self.buffer), self.current, len);
        proof {
            assert(s@ =~= self.input().skip(self.index_spec()));
        }
        s
    }

    /// Moves the cursor back to the beginning of the input.
    pub fn reset(&mut self)
        ensures
            final(self).input() == old(self).input(),
            final(self).index_spec() == 0,
    {
        proof {
            use_type_invariant(&*self);
            assert(old(self).buffer@.take(0) =~= Seq::<char>::empty());
        }
        let buffer = arc_clone(&self.buffer);
        *self = Cursor { buffer, current: 0, position: Position::new() };
    }

    /// A checkpoint recording the place the cursor stands at.
    pub fn checkpoint(&self) -> (cp: Checkpoint)
        ensures
            cp.index_spec() == self.index_spec(),
            pos_matches(self.input().take(self.index_spec()), cp.pos_spec()),
            0 <= self.index_spec() <= self.input().len(),
    {
        proof {
            use_type_invariant(self);
        }
        Checkpoint::new(self.current, self.position)
    }

    /// Rewinds (or forwards) the cursor to a checkpoint taken on the same input.
    pub fn restore(&mut self, checkpoint: Checkpoint)
        requires
            0 <= checkpoint.index_spec() <= old(self).input().len(),
            pos_matches(old(self).input().take(checkpoint.index_spec()), checkpoint.pos_spec()),
        ensures
            final(self).input() == old(self).input(),
            final(self).index_spec() == checkpoint.index_spec(),
    {
        proof {
            use_type_invariant(&*self);
        }
        let buffer = arc_clone(&self.buffer);
        *self = Cursor { buffer, current: checkpoint.index(), position: checkpoint.position() };
    }
}

impl Cursor {
    /// The same cursor over the same input extended by `extra`: the place
    /// already reached, and everything consumed, stay as they were.
    pub fn extended(&self, extra: &str) -> (c: Cursor)
        requires
            byte_len(self.input() + extra@) < usize::MAX,
        ensures
            c.input() == self.input() + extra@,
            c.index_spec() == self.index_spec(),
    {
        proof {
            use_type_invariant(self);
        }
        let mut grown: String = (*self.buffer).clone();
        grown.append(extra);
        proof {
            assert((self.buffer@ + extra@).take(self.current as int) =~= self.buffer@.take(
                self.current as int,
            ));
        }
        Cursor { buffer: Arc::new(grown), current: self.current, position: self.position }
    }
}

impl Clone for Cursor {
    /// A clone scans the same input and stands at the same place.
    fn clone(&self) -> (c: Cursor)
        ensures
            c.input() == self.input(),
            c.index_spec() == self.index_spec(),
    {
        proof {
            use_type_invariant(self);
        }
        Cursor { buffer: arc_clone(&self.buffer), current: self.current, position: self.position }
    }
}

/// The smaller of two integers.
pub open spec fn min_int(a: int, b: int) -> int {
    if a < b {
        a
    } else {
        b
    }
}

} // verus!
