use crate::context::LexContext;
use crate::cursor::Cursor;
use crate::lexer::Lexer;
use crate::parse_context::ParseContext;
use crate::parser::{Parser, ParsingRule};
use crate::position::{byte_len, char_width, Checkpoint, Position};
use crate::text_slice::{char_to_string, TextSlice};
use crate::traits::{LexingRule, LexToken};
use vstd::prelude::*;

verus! {

/// The protocol signals that pace a token producer and a tree consumer.
#[derive(Debug, Clone)]
pub enum StreamingSignal<Tok, Ast> {
    /// The driver asks the producer to emit up to `n` tokens.
    RequestToken(usize),
    /// The producer supplies one token from the input.
    SupplyToken(Tok),
    /// The driver confirms a token was delivered to the consumer.
    TokenDelivered,
    /// The consumer reports nodes it produced.
    Produced(Vec<Ast>),
    /// The consumer needs `n` more tokens before continuing.
    NeedToken(usize),
    /// The consumer has completed, handing over any remaining nodes.
    Finished(Vec<Ast>),
    /// A side hit a blocking condition, with the reason.
    Blocked(String),
    /// The input stream is finished.
    EndOfInput,
    /// The run is aborted, with the reason.
    Abort(String),
}

/// The nodes a signal hands over: a produced or finishing batch, or nothing.
pub open spec fn signal_nodes<Tok, Ast>(r: Option<StreamingSignal<Tok, Ast>>) -> Seq<Ast> {
    match r {
        Some(StreamingSignal::Produced(ns)) => ns@,
        Some(StreamingSignal::Finished(ns)) => ns@,
        _ => Seq::empty(),
    }
}

/// The observable history of a protocol participant: the nodes it has handed
/// over, and how many aborts it has been told of. A participant type states
/// its history by overriding these; the driver's contract is written against
/// them.
pub trait StreamModel<Tok, Ast>: Sized {
    /// The nodes handed over so far, in order.
    open spec fn emitted(&self) -> Seq<Ast> {
        Seq::empty()
    }

    /// How many aborts this participant has been told of.
    open spec fn aborts(&self) -> nat {
        0
    }
}

/// A participant in the streaming protocol: it keeps an invariant across
/// calls and measures the work left in front of it, which bounds the driver
/// loop.
pub trait StreamPart: Sized {
    /// The participant's own well-formedness, kept across every call. A
    /// participant type states its invariant by overriding this.
    open spec fn inv(&self) -> bool {
        true
    }

    /// How much work is left: supplying or producing strictly lowers it, and
    /// only a supplied token can raise it, by one. A participant type states
    /// its measure by overriding this.
    open spec fn fuel(&self) -> nat {
        0
    }
}

/// A component that receives streaming signals.
pub trait Inbound<Tok, Ast>: StreamPart + StreamModel<Tok, Ast> {
    /// Reacts to one signal. Only a supplied token may add work; an abort is
    /// counted exactly once, and nothing is handed over.
    fn handle_signal(&mut self, signal: StreamingSignal<Tok, Ast>)
        requires
            old(self).inv(),
        ensures
            final(self).inv(),
            final(self).fuel() <= old(self).fuel() + (if signal is SupplyToken {
                1nat
            } else {
                0nat
            }),
            final(self).emitted() == old(self).emitted(),
            final(self).aborts() == old(self).aborts() + (if signal is Abort {
                1nat
            } else {
                0nat
            }),
    ;
}

/// A component that emits streaming signals on demand.
pub trait Outbound<Tok, Ast>: StreamPart + StreamModel<Tok, Ast> {
    /// The next signal reflecting the component's state, or nothing if
    /// nothing changed. Handing over a token or produced nodes consumes
    /// work; the nodes a signal carries extend the emitted history.
    fn next_signal(&mut self) -> (r: Option<StreamingSignal<Tok, Ast>>)
        requires
            old(self).inv(),
        ensures
            final(self).inv(),
            final(self).fuel() <= old(self).fuel(),
            r matches Some(s) && (s is SupplyToken || s is Produced) ==> final(self).fuel() < old(
                self,
            ).fuel(),
            final(self).emitted() == old(self).emitted() + signal_nodes(r),
            final(self).aborts() == old(self).aborts(),
    ;
}

/// A source of tokens that are pulled one at a time.
pub trait TokenProducer<Tok>: StreamPart {
    /// Attempts to emit the next token; each token is work consumed.
    fn poll_token(&mut self) -> (r: Option<Tok>)
        requires
            old(self).inv(),
        ensures
            final(self).inv(),
            final(self).fuel() <= old(self).fuel(),
            r is Some ==> final(self).fuel() < old(self).fuel(),
    ;
}

/// A consumer that accepts tokens one at a time and hands back any nodes
/// that became ready.
pub trait TokenConsumer<Tok, Ast>: StreamPart + StreamModel<Tok, Ast> {
    /// Pushes a single token and returns the nodes that became available,
    /// which extend the emitted history.
    fn push_token(&mut self, token: Tok) -> (nodes: Vec<Ast>)
        requires
            old(self).inv(),
        ensures
            final(self).inv(),
            final(self).fuel() <= old(self).fuel() + 1,
            final(self).emitted() == old(self).emitted() + nodes@,
            final(self).aborts() == old(self).aborts(),
    ;

    /// Signals the end of input and drains the remaining nodes, which extend
    /// the emitted history.
    fn finish(&mut self) -> (nodes: Vec<Ast>)
        requires
            old(self).inv(),
        ensures
            final(self).inv(),
            final(self).fuel() <= old(self).fuel(),
            final(self).emitted() == old(self).emitted() + nodes@,
            final(self).aborts() == old(self).aborts(),
    ;
}

/// A lexing context that can be fed characters incrementally: end of input is
/// reported only once the feeder has marked it finished.
#[derive(Debug)]
pub struct StreamingLexContext {
    cursor: Cursor,
    finished: bool,
}

impl StreamingLexContext {
    /// An empty context, still open for input.
    pub fn new() -> (ctx: StreamingLexContext)
        ensures
            ctx.input() == Seq::<char>::empty(),
            ctx.index_spec() == 0,
            !ctx.closed_spec(),
    {
        proof {
            reveal_strlit("");
        }
        let ctx = StreamingLexContext { cursor: Cursor::new(""), finished: false };
        proof {
            assert(ctx.input() =~= Seq::<char>::empty());
        }
        ctx
    }

    /// Feeds one more character.
    pub fn push_char(&mut self, ch: char)
        requires
            byte_len(old(self).input()) + char_width(ch) < usize::MAX,
        ensures
            final(self).input() == old(self).input().push(ch),
            final(self).index_spec() == old(self).index_spec(),
            !final(self).closed_spec(),
    {
        let s = char_to_string(ch);
        proof {
            crate::position::lemma_byte_len_push(old(self).input(), ch);
            assert(old(self).input() + s@ =~= old(self).input().push(ch));
        }
        self.cursor = self.cursor.extended(s.as_str());
        self.finished = false;
    }

    /// Feeds a run of characters.
    pub fn push_str(&mut self, s: &str)
        requires
            byte_len(old(self).input() + s@) < usize::MAX,
        ensures
            final(self).input() == old(self).input() + s@,
            final(self).index_spec() == old(self).index_spec(),
            !final(self).closed_spec(),
    {
        self.cursor = self.cursor.extended(s);
        self.finished = false;
    }

    /// Marks the input as complete: no more characters will arrive.
    pub fn mark_finished(&mut self)
        ensures
            final(self).input() == old(self).input(),
            final(self).index_spec() == old(self).index_spec(),
            final(self).closed_spec(),
    {
        self.finished = true;
    }

    /// A closed context over the given text, as if it had been fed whole.
    pub fn from_str(input: &str) -> (ctx: StreamingLexContext)
        requires
            byte_len(input@) < usize::MAX,
        ensures
            ctx.input() == input@,
            ctx.index_spec() == 0,
            ctx.closed_spec(),
    {
        StreamingLexContext { cursor: Cursor::new(input), finished: true }
    }
}

impl LexContext for StreamingLexContext {
    closed spec fn input(&self) -> Seq<char> {
        self.cursor.input()
    }

    closed spec fn index_spec(&self) -> int {
        self.cursor.index_spec()
    }

    closed spec fn closed_spec(&self) -> bool {
        self.finished
    }

    fn position(&self) -> (p: Position) {
        self.cursor.position()
    }

    fn offset(&self) -> (r: usize) {
        self.cursor.offset()
    }

    fn is_eof(&self) -> (r: bool) {
        let at_end = self.cursor.is_eof();
        self.finished && at_end
    }

    fn peek(&self) -> (r: Option<char>) {
        self.cursor.peek()
    }

    fn peek_at(&self, k: usize) -> (r: Option<char>) {
        self.cursor.peek_at(k)
    }

    fn advance(&mut self) -> (r: Option<char>) {
        self.cursor.advance()
    }

    fn consume_while<F: Fn(char) -> bool>(&mut self, predicate: F) -> (s: TextSlice) {
        self.cursor.consume_while(predicate)
    }

    fn peek_slice(&self, n: usize) -> (s: TextSlice) {
        self.cursor.peek_slice(n)
    }

    fn advance_by(&mut self, n: usize) -> (count: usize) {
        self.cursor.advance_by(n)
    }

    fn remaining(&self) -> (s: TextSlice) {
        self.cursor.remaining()
    }

    fn checkpoint(&self) -> (cp: Checkpoint) {
        self.cursor.checkpoint()
    }

    fn restore(&mut self, checkpoint: Checkpoint) {
        self.cursor.restore(checkpoint)
    }
}

impl Default for StreamingLexContext {
    /// The default streaming context is empty and still open.
    fn default() -> (ctx: StreamingLexContext)
        ensures
            ctx.input() == Seq::<char>::empty(),
            ctx.index_spec() == 0,
            !ctx.closed_spec(),
    {
        StreamingLexContext::new()
    }
}

/// A parsing context that can be fed tokens incrementally: end of input is
/// reported only once the feeder has marked it finished.
#[derive(Debug)]
pub struct StreamingParseContext<Tok: Copy> {
    tokens: Vec<Tok>,
    current: usize,
    finished: bool,
    position: Position,
    committed: usize,
}

impl<Tok: Copy> StreamingParseContext<Tok> {
    /// An empty context, still open for tokens.
    pub fn new() -> (ctx: StreamingParseContext<Tok>)
        ensures
            ctx.tokens() == Seq::<Tok>::empty(),
            ctx.index_spec() == 0,
            !ctx.closed_spec(),
    {
        StreamingParseContext {
            tokens: Vec::new(),
            current: 0,
            finished: false,
            position: Position::new(),
            committed: 0,
        }
    }

    /// Feeds one more token.
    pub fn push_token(&mut self, token: Tok)
        ensures
            final(self).tokens() == old(self).tokens().push(token),
            final(self).index_spec() == old(self).index_spec(),
            final(self).committed_spec() == old(self).committed_spec(),
            0 <= final(self).index_spec() <= final(self).tokens().len(),
            !final(self).closed_spec(),
    {
        if self.current > self.tokens.len() {
            self.current = self.tokens.len();
        }
        self.tokens.push(token);
        self.finished = false;
    }

    /// Marks the stream as complete: no more tokens will arrive.
    pub fn mark_finished(&mut self)
        ensures
            final(self).tokens() == old(self).tokens(),
            final(self).index_spec() == old(self).index_spec(),
            final(self).committed_spec() == old(self).committed_spec(),
            0 <= final(self).index_spec() <= final(self).tokens().len(),
            final(self).closed_spec(),
    {
        self.finished = true;
    }

}

impl<Tok: Copy> Default for StreamingParseContext<Tok> {
    /// The default streaming context is empty and still open.
    fn default() -> (ctx: StreamingParseContext<Tok>)
        ensures
            ctx.tokens() == Seq::<Tok>::empty(),
            ctx.index_spec() == 0,
            !ctx.closed_spec(),
    {
        StreamingParseContext::new()
    }
}

impl<Tok: Copy> ParseContext<Tok> for StreamingParseContext<Tok> {
    closed spec fn tokens(&self) -> Seq<Tok> {
        self.tokens@
    }

    closed spec fn index_spec(&self) -> int {
        if self.current as int <= self.tokens@.len() {
            self.current as int
        } else {
            self.tokens@.len() as int
        }
    }

    closed spec fn closed_spec(&self) -> bool {
        self.finished
    }

    closed spec fn pos_spec(&self) -> Position {
        self.position
    }

    closed spec fn committed_spec(&self) -> int {
        self.committed as int
    }

    fn peek(&self) -> (r: Option<&Tok>) {
        if self.current < self.tokens.len() {
            Some(&self.tokens[self.current])
        } else {
            None
        }
    }

    fn peek_at(&self, offset: usize) -> (r: Option<&Tok>) {
        if offset < self.tokens.len() && self.current < self.tokens.len() - offset {
            Some(&self.tokens[self.current + offset])
        } else {
            None
        }
    }

    fn advance(&mut self) -> (r: Option<Tok>) {
        if self.current < self.tokens.len() {
            let t = self.tokens[self.current];
            self.current = self.current + 1;
            Some(t)
        } else {
            None
        }
    }

    fn position(&self) -> (p: Position) {
        self.position
    }

    fn is_eof(&self) -> (r: bool) {
        self.finished && self.current >= self.tokens.len()
    }

    fn token_index(&self) -> (r: usize) {
        if self.current < self.tokens.len() {
            self.current
        } else {
            self.tokens.len()
        }
    }

    fn checkpoint(&self) -> (cp: Checkpoint) {
        let idx = if self.current < self.tokens.len() {
            self.current
        } else {
            self.tokens.len()
        };
        Checkpoint::new(idx, self.position)
    }

    fn restore(&mut self, checkpoint: Checkpoint) {
        self.current = checkpoint.token_index();
        self.position = checkpoint.position();
    }

    fn commit(&mut self) {
        let idx = if self.current < self.tokens.len() {
            self.current
        } else {
            self.tokens.len()
        };
        if idx > self.committed {
            self.committed = idx;
        }
    }
}

/// A producer stage wrapped around another: it forwards every signal
/// unchanged except supplied tokens, dropping those reported as whitespace or
/// end markers so the consumer never sees them.
pub struct FilteringProducer<L> {
    inner: L,
}

impl<L> FilteringProducer<L> {
    /// The wrapped producer.
    pub closed spec fn inner_spec(&self) -> L {
        self.inner
    }

    /// Wraps `inner`.
    pub fn new(inner: L) -> (r: FilteringProducer<L>)
        ensures
            r.inner_spec() == inner,
    {
        FilteringProducer { inner }
    }
}

impl<L: StreamModel<Tok, Ast>, Tok, Ast> StreamModel<Tok, Ast> for FilteringProducer<L> {
    /// The wrapper hands over exactly what its inner producer hands over.
    open spec fn emitted(&self) -> Seq<Ast> {
        self.inner_spec().emitted()
    }

    /// The wrapper is told of exactly the aborts its inner producer is.
    open spec fn aborts(&self) -> nat {
        self.inner_spec().aborts()
    }
}

impl<L: StreamPart> StreamPart for FilteringProducer<L> {
    /// The wrapper is as well-formed as what it wraps.
    open spec fn inv(&self) -> bool {
        self.inner_spec().inv()
    }

    /// The wrapper has exactly the work its inner producer has.
    open spec fn fuel(&self) -> nat {
        self.inner_spec().fuel()
    }
}

impl<L: TokenProducer<Tok>, Tok: LexToken> TokenProducer<Tok> for FilteringProducer<L> {
    /// Pulls from the wrapped producer until a token survives the filter.
    fn poll_token(&mut self) -> (r: Option<Tok>) {
        loop
            invariant
                self.inner.inv(),
                self.fuel() <= old(self).fuel(),
            decreases self.inner.fuel(),
        {
            match self.inner.poll_token() {
                None => {
                    return None;
                },
                Some(t) => {
                    let drop_it = t.is_whitespace() || t.is_eof();
                    if !drop_it {
                        return Some(t);
                    }
                },
            }
        }
    }
}

impl<L: Outbound<Tok, Ast>, Tok: LexToken, Ast> Outbound<Tok, Ast> for FilteringProducer<L> {
    /// Forwards the wrapped producer's signals, dropping filtered tokens.
    fn next_signal(&mut self) -> (r: Option<StreamingSignal<Tok, Ast>>) {
        loop
            invariant
                self.inner.inv(),
                self.fuel() <= old(self).fuel(),
                self.inner.emitted() == old(self).inner_spec().emitted(),
                self.inner.aborts() == old(self).inner_spec().aborts(),
            decreases self.inner.fuel(),
        {
            match self.inner.next_signal() {
                None => {
                    return None;
                },
                Some(StreamingSignal::SupplyToken(t)) => {
                    let drop_it = t.is_whitespace() || t.is_eof();
                    if !drop_it {
                        return Some(StreamingSignal::SupplyToken(t));
                    }
                },
                Some(other) => {
                    return Some(other);
                },
            }
        }
    }
}

impl<L: Inbound<Tok, Ast>, Tok: LexToken, Ast> Inbound<Tok, Ast> for FilteringProducer<L> {
    /// Hands every received signal to the wrapped producer.
    fn handle_signal(&mut self, signal: StreamingSignal<Tok, Ast>) {
        self.inner.handle_signal(signal);
    }
}

} // verus!
