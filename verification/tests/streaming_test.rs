use lexparse::parser::Parser;
use lexparse::FilteringProducer;
use lexparse::{
    AstNode, BatchPipeline, DefaultContext, Inbound, LexContext, LexToken, Lexer, LexingRule,
    Outbound, ParseContext, ParsingRule, Position, StreamModel, StreamPart, StreamingLexContext,
    StreamingParseContext, StreamingPipeline, StreamingSignal, TokenConsumer, TokenProducer,
};
use std::cell::RefCell;
use std::rc::Rc;

#[derive(Debug, Clone, Copy, PartialEq, Eq)]
struct Tok {
    ch: char,
}

impl LexToken for Tok {
    fn position(&self) -> Option<Position> {
        None
    }

    fn is_eof(&self) -> bool {
        false
    }

    fn is_newline(&self) -> bool {
        self.ch == '\n'
    }

    fn is_whitespace(&self) -> bool {
        self.ch == ' '
    }

    fn is_indent(&self) -> bool {
        false
    }
}

#[derive(Debug, Clone, Copy, PartialEq, Eq)]
struct Node {
    ch: char,
}

impl AstNode for Node {
    fn position(&self) -> Option<Position> {
        None
    }

    fn span(&self) -> Option<(Position, Position)> {
        None
    }
}

struct CharTokRule;

impl<Ctx: LexContext> LexingRule<Ctx, Tok> for CharTokRule {
    fn try_match(&self, ctx: &mut Ctx) -> Option<Tok> {
        let ch = ctx.peek()?;
        ctx.advance();
        Some(Tok { ch })
    }

    fn priority(&self) -> i32 {
        1
    }

    fn quick_check(&self, _first_char: Option<char>) -> Option<bool> {
        None
    }
}

struct NodeRule;

impl<Ctx: ParseContext<Tok>> ParsingRule<Ctx, Tok, Node> for NodeRule {
    fn try_parse(&self, ctx: &mut Ctx) -> Option<Node> {
        let t = *ctx.peek()?;
        ctx.advance();
        Some(Node { ch: t.ch })
    }

    fn priority(&self) -> i32 {
        1
    }

    fn quick_check(&self, _current: Option<&Tok>) -> Option<bool> {
        None
    }
}

#[test]
fn streaming_lex_context_feeds_incrementally() {
    let mut ctx = StreamingLexContext::new();
    assert!(!ctx.is_eof());
    assert_eq!(ctx.peek(), None);

    ctx.push_str("ab");
    assert_eq!(ctx.peek(), Some('a'));
    assert_eq!(ctx.advance(), Some('a'));
    assert_eq!(ctx.advance(), Some('b'));
    // Out of buffered input, but not finished: still not end-of-input
    assert!(!ctx.is_eof());

    ctx.push_char('c');
    assert_eq!(ctx.advance(), Some('c'));
    ctx.mark_finished();
    assert!(ctx.is_eof());
}

#[test]
fn streaming_lex_context_from_str() {
    let mut ctx = StreamingLexContext::from_str("hi");
    assert_eq!(ctx.advance(), Some('h'));
    assert_eq!(ctx.advance(), Some('i'));
    assert!(ctx.is_eof());
}

#[test]
fn streaming_parse_context_feeds_incrementally() {
    let mut ctx: StreamingParseContext<Tok> = StreamingParseContext::new();
    assert!(!ctx.is_eof());
    ctx.push_token(Tok { ch: 'x' });
    assert_eq!(ctx.peek().copied(), Some(Tok { ch: 'x' }));
    assert_eq!(ctx.advance(), Some(Tok { ch: 'x' }));
    assert!(!ctx.is_eof());
    ctx.mark_finished();
    assert!(ctx.is_eof());
}

#[test]
fn lexer_as_producer_emits_then_ends() {
    let lexer: Lexer<DefaultContext, Tok, CharTokRule> = Lexer::from_str("ab", vec![CharTokRule]);
    let mut producer = lexer;
    assert_eq!(producer.poll_token(), Some(Tok { ch: 'a' }));
    assert_eq!(producer.poll_token(), Some(Tok { ch: 'b' }));
    assert_eq!(producer.poll_token(), None);
    let signal: Option<StreamingSignal<Tok, Node>> = producer.next_signal();
    assert!(matches!(signal, Some(StreamingSignal::EndOfInput)));
}

#[test]
fn pipeline_equivalence_batch_and_streaming() {
    // The eager two-stage run and the signal-driven run must produce the
    // same node sequence for the same input and the same rule sets.
    let input = "abc d";

    let eager: Vec<Node> =
        BatchPipeline::<Tok, Node>::run(input, vec![CharTokRule], vec![NodeRule]);

    let lexer: Lexer<DefaultContext, Tok, CharTokRule> =
        Lexer::from_str(input, vec![CharTokRule]);
    let parser: Parser<StreamingParseContext<Tok>, Tok, Node, NodeRule> =
        Parser::new(StreamingParseContext::new(), vec![NodeRule]);
    let streamed: Vec<Node> = StreamingPipeline::new(lexer, parser).run();

    assert_eq!(eager, streamed);
}

#[test]
fn pipeline_filters_whitespace() {
    let input = "a b";
    let lexer: Lexer<DefaultContext, Tok, CharTokRule> =
        Lexer::from_str(input, vec![CharTokRule]);
    let producer = FilteringProducer::new(lexer);
    let parser: Parser<StreamingParseContext<Tok>, Tok, Node, NodeRule> =
        Parser::new(StreamingParseContext::new(), vec![NodeRule]);
    let streamed: Vec<Node> = StreamingPipeline::new(producer, parser).run();

    assert_eq!(streamed, vec![Node { ch: 'a' }, Node { ch: 'b' }]);
}

// A scripted producer: supplies its tokens one by one, then aborts.
struct ScriptedProducer {
    tokens: Vec<Tok>,
    next: usize,
    aborts_received: Rc<RefCell<usize>>,
}

impl StreamPart for ScriptedProducer {

}

impl StreamModel<Tok, Node> for ScriptedProducer {

}

impl TokenProducer<Tok> for ScriptedProducer {
    fn poll_token(&mut self) -> Option<Tok> {
        if self.next < self.tokens.len() {
            let t = self.tokens[self.next];
            self.next += 1;
            Some(t)
        } else {
            None
        }
    }
}

impl Outbound<Tok, Node> for ScriptedProducer {
    fn next_signal(&mut self) -> Option<StreamingSignal<Tok, Node>> {
        if self.next < self.tokens.len() {
            let t = self.tokens[self.next];
            self.next += 1;
            Some(StreamingSignal::SupplyToken(t))
        } else {
            Some(StreamingSignal::Abort("x".to_string()))
        }
    }
}

impl Inbound<Tok, Node> for ScriptedProducer {
    fn handle_signal(&mut self, signal: StreamingSignal<Tok, Node>) {
        if matches!(signal, StreamingSignal::Abort(_)) {
            *self.aborts_received.borrow_mut() += 1;
        }
    }
}

// A counting consumer: turns each supplied token into one node and counts
// the aborts it is told about.
struct CountingConsumer {
    buffered: Vec<Tok>,
    produced: usize,
    finished: bool,
    aborts_received: Rc<RefCell<usize>>,
}

impl StreamPart for CountingConsumer {

}

impl StreamModel<Tok, Node> for CountingConsumer {

}

impl TokenConsumer<Tok, Node> for CountingConsumer {
    fn push_token(&mut self, token: Tok) -> Vec<Node> {
        self.buffered.push(token);
        self.drain()
    }

    fn finish(&mut self) -> Vec<Node> {
        self.finished = true;
        self.drain()
    }
}

impl CountingConsumer {
    fn drain(&mut self) -> Vec<Node> {
        let mut out = Vec::new();
        while self.produced < self.buffered.len() {
            out.push(Node {
                ch: self.buffered[self.produced].ch,
            });
            self.produced += 1;
        }
        out
    }
}

impl Outbound<Tok, Node> for CountingConsumer {
    fn next_signal(&mut self) -> Option<StreamingSignal<Tok, Node>> {
        let ready = self.drain();
        if !ready.is_empty() {
            return Some(StreamingSignal::Produced(ready));
        }
        if self.finished {
            return Some(StreamingSignal::Finished(Vec::new()));
        }
        Some(StreamingSignal::NeedToken(1))
    }
}

impl Inbound<Tok, Node> for CountingConsumer {
    fn handle_signal(&mut self, signal: StreamingSignal<Tok, Node>) {
        match signal {
            StreamingSignal::SupplyToken(t) => {
                self.buffered.push(t);
            }
            StreamingSignal::EndOfInput => {
                self.finished = true;
            }
            StreamingSignal::Abort(_) => {
                *self.aborts_received.borrow_mut() += 1;
                self.finished = true;
            }
            _ => {}
        }
    }
}

#[test]
fn abort_propagation() {
    // Once the producer emits Abort("x"), the driver returns exactly the
    // nodes produced before the abort, and tells the consumer exactly once.
    let consumer_aborts = Rc::new(RefCell::new(0));
    let producer_aborts = Rc::new(RefCell::new(0));

    let producer = ScriptedProducer {
        tokens: vec![Tok { ch: 'a' }, Tok { ch: 'b' }],
        next: 0,
        aborts_received: Rc::clone(&producer_aborts),
    };
    let consumer = CountingConsumer {
        buffered: Vec::new(),
        produced: 0,
        finished: false,
        aborts_received: Rc::clone(&consumer_aborts),
    };

    let results = StreamingPipeline::new(producer, consumer).run();

    assert_eq!(results, vec![Node { ch: 'a' }, Node { ch: 'b' }]);
    assert_eq!(*consumer_aborts.borrow(), 1);
    assert_eq!(*producer_aborts.borrow(), 1);
}
