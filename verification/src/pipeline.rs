use crate::context::DefaultContext as LexDefaultContext;
use crate::context::LexContext;
use crate::lexer::{lex_done, lex_seq, order_ok, Lexer};
use crate::parse_context::DefaultContext as ParseDefaultContext;
use crate::parser::{p_order_ok, parse_done, parse_seq, Parser, ParsingRule};
use crate::position::byte_len;
use crate::streaming::{
    Inbound, Outbound, StreamPart, StreamingSignal, TokenConsumer, TokenProducer,
};
use crate::traits::LexingRule;
use core::marker::PhantomData;
use vstd::prelude::*;

verus! {

/// The two-stage eager pipeline: the whole input is tokenized first, then the
/// whole token vector is parsed.
pub struct BatchPipeline<Tok, Ast> {
    marker: PhantomData<(Tok, Ast)>,
}

impl<Tok: Copy, Ast> BatchPipeline<Tok, Ast> {
    /// A batch pipeline. It carries no state; the work happens in `run`.
    pub fn new() -> BatchPipeline<Tok, Ast> {
        BatchPipeline { marker: PhantomData }
    }

    /// Tokenizes the whole input with the lexing rules, then parses the whole
    /// token vector with the parsing rules, returning every node produced.
    /// The result is exactly an eager lexing run followed by an eager parsing
    /// run over its tokens, under the priority orders of the two rule lists.
    pub fn run<LR: LexingRule<LexDefaultContext, Tok>, PR: ParsingRule<
        ParseDefaultContext<Tok>,
        Tok,
        Ast,
    >>(input: &str, lexer_rules: Vec<LR>, parser_rules: Vec<PR>) -> (nodes: Vec<Ast>)
        requires
            byte_len(input@) < usize::MAX,
        ensures
            exists|lorder: Seq<usize>, toks: Seq<Tok>, j: int, porder: Seq<usize>, j2: int|
                {
                    &&& order_ok(lexer_rules@, lorder)
                    &&& #[trigger] lex_seq::<LexDefaultContext, Tok, LR>(
                        lexer_rules@,
                        lorder,
                        input@,
                        true,
                        0,
                        j,
                        toks,
                    )
                    &&& lex_done::<LexDefaultContext, Tok, LR>(
                        lexer_rules@,
                        lorder,
                        input@,
                        true,
                        j,
                    )
                    &&& p_order_ok(parser_rules@, porder)
                    &&& #[trigger] parse_seq::<ParseDefaultContext<Tok>, Tok, Ast, PR>(
                        parser_rules@,
                        porder,
                        toks,
                        true,
                        0,
                        j2,
                        nodes@,
                    )
                    &&& parse_done::<ParseDefaultContext<Tok>, Tok, Ast, PR>(
                        parser_rules@,
                        porder,
                        toks,
                        true,
                        j2,
                    )
                },
    {
        let mut lexer = Lexer::<LexDefaultContext, Tok, LR>::from_str(input, lexer_rules);
        let tokens: Vec<Tok> = lexer.tokenize();
        let mut parser = Parser::<ParseDefaultContext<Tok>, Tok, Ast, PR>::from_tokens(
            tokens,
            parser_rules,
        );
        let nodes = parser.parse();
        nodes
    }

    /// Runs the pipeline with an already-built lexer: its remaining input is
    /// tokenized, and the tokens parsed with the parsing rules.
    pub fn run_with_lexer<LCtx: LexContext, LR: LexingRule<LCtx, Tok>, PR: ParsingRule<
        ParseDefaultContext<Tok>,
        Tok,
        Ast,
    >>(lexer: Lexer<LCtx, Tok, LR>, parser_rules: Vec<PR>) -> (nodes: Vec<Ast>)
        requires
            lexer.wf(),
        ensures
            exists|toks: Seq<Tok>, j: int, porder: Seq<usize>, j2: int|
                {
                    &&& #[trigger] lex_seq::<LCtx, Tok, LR>(
                        lexer.rules_spec(),
                        lexer.order_spec(),
                        lexer.ctx_spec().input(),
                        lexer.ctx_spec().closed_spec(),
                        lexer.ctx_spec().index_spec(),
                        j,
                        toks,
                    )
                    &&& p_order_ok(parser_rules@, porder)
                    &&& #[trigger] parse_seq::<ParseDefaultContext<Tok>, Tok, Ast, PR>(
                        parser_rules@,
                        porder,
                        toks,
                        true,
                        0,
                        j2,
                        nodes@,
                    )
                    &&& parse_done::<ParseDefaultContext<Tok>, Tok, Ast, PR>(
                        parser_rules@,
                        porder,
                        toks,
                        true,
                        j2,
                    )
                },
    {
        let mut lexer = lexer;
        let tokens: Vec<Tok> = lexer.tokenize();
        let mut parser = Parser::<ParseDefaultContext<Tok>, Tok, Ast, PR>::from_tokens(
            tokens,
            parser_rules,
        );
        parser.parse()
    }
}

impl<Tok: Copy, Ast> Default for BatchPipeline<Tok, Ast> {
    /// The default batch pipeline is the only batch pipeline.
    fn default() -> (r: BatchPipeline<Tok, Ast>)
        ensures
            true,
    {
        BatchPipeline::new()
    }
}

/// The signal-driven pipeline: the driver pulls the consumer's signals and
/// paces the producer by them, so tokens are produced only as they are
/// demanded (backpressure), and aborts reach both sides.
pub struct StreamingPipeline<L, P, Tok, Ast> where
    L: TokenProducer<Tok> + Inbound<Tok, Ast> + Outbound<Tok, Ast>,
    P: TokenConsumer<Tok, Ast> + Inbound<Tok, Ast> + Outbound<Tok, Ast>,
 {
    lexer: L,
    parser: P,
    marker: PhantomData<(Tok, Ast)>,
}

impl<L, P, Tok, Ast> StreamingPipeline<L, P, Tok, Ast> where
    L: TokenProducer<Tok> + Inbound<Tok, Ast> + Outbound<Tok, Ast>,
    P: TokenConsumer<Tok, Ast> + Inbound<Tok, Ast> + Outbound<Tok, Ast>,
 {
    /// The producer side.
    pub closed spec fn lexer_spec(&self) -> L {
        self.lexer
    }

    /// The consumer side.
    pub closed spec fn parser_spec(&self) -> P {
        self.parser
    }

    /// A pipeline over the given producer and consumer.
    pub fn new(lexer: L, parser: P) -> (r: StreamingPipeline<L, P, Tok, Ast>)
        ensures
            r.lexer_spec() == lexer,
            r.parser_spec() == parser,
    {
        StreamingPipeline { lexer, parser, marker: PhantomData }
    }

    /// Drives consumer and producer in lockstep until the consumer finishes,
    /// the producer runs out, or either side blocks or aborts. The returned
    /// nodes are exactly, in order, the nodes the consumer hands over during
    /// the run: nothing is dropped and nothing is added. The consumer is told
    /// of at most one abort, and the producer of exactly as many: on an abort
    /// both sides are told once, then the run ends. A signal the driver has
    /// no rule for also ends the run, rather than being ignored, so that every
    /// run over finite work provably terminates.
    pub fn run(&mut self) -> (results: Vec<Ast>)
        requires
            old(self).lexer_spec().inv(),
            old(self).parser_spec().inv(),
        ensures
            final(self).lexer_spec().inv(),
            final(self).parser_spec().inv(),
            final(self).parser_spec().emitted() == old(self).parser_spec().emitted() + results@,
            final(self).parser_spec().aborts() <= old(self).parser_spec().aborts() + 1,
            final(self).parser_spec().aborts() + old(self).lexer_spec().aborts() == final(self).lexer_spec().aborts() + old(self).parser_spec().aborts(),
    {
        let mut results: Vec<Ast> = Vec::new();
        loop
            invariant_except_break
                self.parser.aborts() == old(self).parser_spec().aborts(),
                self.lexer.aborts() == old(self).lexer_spec().aborts(),
            invariant
                self.lexer.inv(),
                self.parser.inv(),
                self.parser.emitted() == old(self).parser_spec().emitted() + results@,
            ensures
                self.lexer.inv(),
                self.parser.inv(),
                self.parser.emitted() == old(self).parser_spec().emitted() + results@,
                (self.parser.aborts() == old(self).parser_spec().aborts() && self.lexer.aborts()
                    == old(self).lexer_spec().aborts()) || (self.parser.aborts()
                    == old(self).parser_spec().aborts() + 1 && self.lexer.aborts()
                    == old(self).lexer_spec().aborts() + 1),
            decreases 2 * self.lexer.fuel() + self.parser.fuel(),
        {
            match self.parser.next_signal() {
                None => {
                    break ;
                },
                Some(StreamingSignal::Produced(mut nodes)) => {
                    results.append(&mut nodes);
                },
                Some(StreamingSignal::NeedToken(min_needed)) => {
                    self.lexer.handle_signal(StreamingSignal::RequestToken(min_needed));
                    match self.lexer.next_signal() {
                        Some(StreamingSignal::SupplyToken(token)) => {
                            self.parser.handle_signal(StreamingSignal::SupplyToken(token));
                        },
                        Some(StreamingSignal::EndOfInput) => {
                            self.parser.handle_signal(StreamingSignal::EndOfInput);
                            let mut rest = self.parser.finish();
                            results.append(&mut rest);
                            break ;
                        },
                        None => {
                            self.parser.handle_signal(StreamingSignal::EndOfInput);
                            let mut rest = self.parser.finish();
                            results.append(&mut rest);
                            break ;
                        },
                        Some(StreamingSignal::Blocked(reason)) => {
                            self.parser.handle_signal(StreamingSignal::Abort(reason.clone()));
                            self.lexer.handle_signal(StreamingSignal::Abort(reason));
                            break ;
                        },
                        Some(StreamingSignal::Abort(reason)) => {
                            self.parser.handle_signal(StreamingSignal::Abort(reason.clone()));
                            self.lexer.handle_signal(StreamingSignal::Abort(reason));
                            break ;
                        },
                        Some(_) => {
                            break ;
                        },
                    }
                },
                Some(StreamingSignal::Finished(mut nodes)) => {
                    results.append(&mut nodes);
                    break ;
                },
                Some(StreamingSignal::Blocked(reason)) => {
                    self.parser.handle_signal(StreamingSignal::Abort(reason.clone()));
                    self.lexer.handle_signal(StreamingSignal::Abort(reason));
                    break ;
                },
                Some(StreamingSignal::Abort(reason)) => {
                    self.parser.handle_signal(StreamingSignal::Abort(reason.clone()));
                    self.lexer.handle_signal(StreamingSignal::Abort(reason));
                    break ;
                },
                Some(_) => {
                    break ;
                },
            }
        }
        results
    }
}

} // verus!
