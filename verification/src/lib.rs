//! A generic engine for building lexers and parsers out of independently
//! registered rules. A priority-ordered, checkpoint-backed matching loop is
//! shared by the tokenizing and tree-building stages; contexts over
//! characters and over tokens expose the same transactional scanning
//! interface; a bounded-memory sliding-window context supports unbounded
//! streaming input; an operator-precedence engine parses expressions over any
//! token context; and a small signal protocol lets a token producer and a
//! tree consumer run in lockstep with backpressure.

use vstd::prelude::*;

pub mod chars;
pub mod context;
pub mod cursor;
pub mod json_rules;
pub mod lazy_context;
pub mod lexer;
pub mod parse_context;
pub mod parser;
pub mod pipeline;
pub mod position;
pub mod pratt;
pub mod rules;
pub mod simple_exprs;
pub mod streaming;
pub mod text_slice;
pub mod traits;

pub use context::{DefaultContext, LexContext};
pub use cursor::Cursor;
pub use json_rules::{json_rules, JsonRule, JsonToken, KeywordRule, PunctuationRule, StringRule};

pub use lazy_context::{LazyContext, TokenSource, VecSource};
pub use lexer::Lexer;
pub use parse_context::ParseContext;
pub use pipeline::{BatchPipeline, StreamingPipeline};
pub use pratt::{parse_pratt, PrattConfig};
pub use streaming::{FilteringProducer, Inbound, Outbound, StreamModel, StreamPart, StreamingLexContext, StreamingParseContext, StreamingSignal, TokenConsumer, TokenProducer};
pub use parser::{AstNode, Parser, ParsingRule, StatefulNode};
pub use simple_exprs::{ArithPratt, Op, SimpleExpr};
pub use rules::{default_rules, EofRule, IdentRule, NewlineRule, NumberRule, OperatorRule, SimpleRule, SimpleToken, WhitespaceRule};
pub use position::{Checkpoint, Position};
pub use text_slice::TextSlice;
pub use traits::{LexToken, LexingRule};

verus! {

} // verus!
