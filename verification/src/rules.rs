use crate::chars::{
    char_is_alphabetic, char_is_alphanumeric, char_is_digit, char_is_space, is_alnum_char,
    is_alpha_char, is_digit_char, is_prefix_of, is_space_char, lemma_take_while_exact,
    take_while_len,
};
use crate::context::LexContext;
use crate::position::Position;
use crate::traits::{LexingRule, LexToken};
use vstd::prelude::*;
use vstd::string::StrSliceExecFns;
use vstd::string::StringExecFns;

verus! {

/// A small general-purpose token shape: whitespace, newlines, identifiers,
/// numbers, operators, and an explicit end-of-input marker.
#[derive(Debug, Clone)]
pub enum SimpleToken {
    Whitespace { value: String, position: Position },
    Newline { position: Position },
    Ident { value: String, position: Position },
    Number { value: String, position: Position },
    Operator { value: String, position: Position },
    Eof { position: Position },
}

impl PartialEq for SimpleToken {
    /// Tokens compare by variant, text and position.
    fn eq(&self, other: &SimpleToken) -> (r: bool) {
        match (self, other) {
            (
                SimpleToken::Whitespace { value: v1, position: p1 },
                SimpleToken::Whitespace { value: v2, position: p2 },
            ) => *v1 == *v2 && *p1 == *p2,
            (
                SimpleToken::Newline { position: p1 },
                SimpleToken::Newline { position: p2 },
            ) => *p1 == *p2,
            (
                SimpleToken::Ident { value: v1, position: p1 },
                SimpleToken::Ident { value: v2, position: p2 },
            ) => *v1 == *v2 && *p1 == *p2,
            (
                SimpleToken::Number { value: v1, position: p1 },
                SimpleToken::Number { value: v2, position: p2 },
            ) => *v1 == *v2 && *p1 == *p2,
            (
                SimpleToken::Operator { value: v1, position: p1 },
                SimpleToken::Operator { value: v2, position: p2 },
            ) => *v1 == *v2 && *p1 == *p2,
            (SimpleToken::Eof { position: p1 }, SimpleToken::Eof { position: p2 }) => *p1 == *p2,
            _ => false,
        }
    }
}

impl vstd::std_specs::cmp::PartialEqSpecImpl for SimpleToken {
    open spec fn obeys_eq_spec() -> bool {
        true
    }

    open spec fn eq_spec(&self, other: &SimpleToken) -> bool {
        match (self, other) {
            (
                SimpleToken::Whitespace { value: v1, position: p1 },
                SimpleToken::Whitespace { value: v2, position: p2 },
            ) => v1@ == v2@ && p1 == p2,
            (
                SimpleToken::Newline { position: p1 },
                SimpleToken::Newline { position: p2 },
            ) => p1 == p2,
            (
                SimpleToken::Ident { value: v1, position: p1 },
                SimpleToken::Ident { value: v2, position: p2 },
            ) => v1@ == v2@ && p1 == p2,
            (
                SimpleToken::Number { value: v1, position: p1 },
                SimpleToken::Number { value: v2, position: p2 },
            ) => v1@ == v2@ && p1 == p2,
            (
                SimpleToken::Operator { value: v1, position: p1 },
                SimpleToken::Operator { value: v2, position: p2 },
            ) => v1@ == v2@ && p1 == p2,
            (SimpleToken::Eof { position: p1 }, SimpleToken::Eof { position: p2 }) => p1 == p2,
            _ => false,
        }
    }
}

impl Eq for SimpleToken {

}

impl LexToken for SimpleToken {
    open spec fn whitespace_spec(&self) -> bool {
        self is Whitespace
    }

    open spec fn eof_spec(&self) -> bool {
        self is Eof
    }

    fn position(&self) -> Option<Position> {
        match self {
            SimpleToken::Whitespace { position, .. } => Some(*position),
            SimpleToken::Newline { position } => Some(*position),
            SimpleToken::Ident { position, .. } => Some(*position),
            SimpleToken::Number { position, .. } => Some(*position),
            SimpleToken::Operator { position, .. } => Some(*position),
            SimpleToken::Eof { position } => Some(*position),
        }
    }

    fn is_eof(&self) -> (r: bool) {
        matches!(self, SimpleToken::Eof { .. })
    }

    fn is_newline(&self) -> bool {
        matches!(self, SimpleToken::Newline { .. })
    }

    fn is_whitespace(&self) -> (r: bool) {
        matches!(self, SimpleToken::Whitespace { .. })
    }

    fn is_indent(&self) -> bool {
        match self {
            SimpleToken::Whitespace { value, .. } => {
                let s = value.as_str();
                let n = s.unicode_len();
                if n == 0 {
                    return true;
                }
                if s.get_char(0) == '\t' {
                    return true;
                }
                let mut i: usize = 0;
                while i < n
                    invariant
                        0 <= i <= n,
                        n == value@.len(),
                        s@ == value@,
                    decreases n - i,
                {
                    if s.get_char(i) != ' ' {
                        return false;
                    }
                    i = i + 1;
                }
                true
            },
            _ => false,
        }
    }
}

fn ws_not_newline(c: char) -> (b: bool)
    ensures
        b == (is_space_char(c) && c != '\n'),
{
    char_is_space(c) && c != '\n'
}

fn digit_char(c: char) -> (b: bool)
    ensures
        b == is_digit_char(c),
{
    char_is_digit(c)
}

fn ident_char(c: char) -> (b: bool)
    ensures
        b == (is_alnum_char(c) || c == '_'),
{
    char_is_alphanumeric(c) || c == '_'
}

/// The predicate the whitespace rule consumes by: whitespace except newlines.
pub open spec fn ws_pred() -> spec_fn(char) -> bool {
    |c: char| is_space_char(c) && c != '\n'
}

/// The predicate the number rule consumes by: ASCII digits.
pub open spec fn digit_pred() -> spec_fn(char) -> bool {
    |c: char| is_digit_char(c)
}

/// The predicate the identifier rule consumes by: alphanumerics and underscores.
pub open spec fn ident_pred() -> spec_fn(char) -> bool {
    |c: char| is_alnum_char(c) || c == '_'
}

/// Matches a run of whitespace characters, newlines excluded.
#[derive(Debug)]
pub struct WhitespaceRule;

impl<Ctx: LexContext> LexingRule<Ctx, SimpleToken> for WhitespaceRule {
    open spec fn priority_spec(&self) -> int {
        1
    }

    open spec fn quick_spec(&self, first_char: Option<char>) -> Option<bool> {
        None
    }

    open spec fn match_len(&self, rest: Seq<char>, closed: bool) -> Option<int> {
        let n = take_while_len(rest, ws_pred());
        if n == 0 {
            None
        } else {
            Some(n)
        }
    }

    open spec fn token_spec(
        &self,
        rest: Seq<char>,
        closed: bool,
        pos: Position,
        tok: SimpleToken,
    ) -> bool {
        &&& tok matches SimpleToken::Whitespace { value, position }
        &&& value@ == rest.take(take_while_len(rest, ws_pred()))
        &&& position == pos
    }

    fn try_match(&self, ctx: &mut Ctx) -> (r: Option<SimpleToken>) {
        let ghost input = old(ctx).input();
        let ghost i0 = old(ctx).index_spec();
        let ghost rest = input.skip(i0);
        let position = ctx.position();
        let value = ctx.consume_while(ws_not_newline);
        proof {
            let i1 = ctx.index_spec();
            let n = i1 - i0;
            assert forall|j: int| 0 <= j < n implies ws_pred()(#[trigger] rest[j]) by {
                assert(rest[j] == input[i0 + j]);
            }
            if n < rest.len() {
                assert(rest[n] == input[i1]);
            }
            lemma_take_while_exact(rest, ws_pred(), n);
            crate::position::lemma_pos_matches_is_pos_of(input.take(i0), position);
            assert(value@ =~= rest.take(n));
        }
        if value.is_empty() {
            None
        } else {
            Some(SimpleToken::Whitespace { value: value.to_string(), position })
        }
    }

    fn priority(&self) -> (r: i32) {
        1
    }

    fn quick_check(&self, first_char: Option<char>) -> (r: Option<bool>) {
        None
    }
}

/// Matches a single newline character.
#[derive(Debug)]
pub struct NewlineRule;

impl<Ctx: LexContext> LexingRule<Ctx, SimpleToken> for NewlineRule {
    open spec fn priority_spec(&self) -> int {
        2
    }

    open spec fn quick_spec(&self, first_char: Option<char>) -> Option<bool> {
        None
    }

    open spec fn match_len(&self, rest: Seq<char>, closed: bool) -> Option<int> {
        if rest.len() > 0 && rest[0] == '\n' {
            Some(1)
        } else {
            None
        }
    }

    open spec fn token_spec(
        &self,
        rest: Seq<char>,
        closed: bool,
        pos: Position,
        tok: SimpleToken,
    ) -> bool {
        &&& tok matches SimpleToken::Newline { position }
        &&& position == pos
    }

    fn try_match(&self, ctx: &mut Ctx) -> (r: Option<SimpleToken>) {
        let ghost input = old(ctx).input();
        let ghost i0 = old(ctx).index_spec();
        if ctx.peek() == Some('\n') {
            let position = ctx.position();
            ctx.advance();
            proof {
                crate::position::lemma_pos_matches_is_pos_of(input.take(i0), position);
            }
            Some(SimpleToken::Newline { position })
        } else {
            None
        }
    }

    fn priority(&self) -> (r: i32) {
        2
    }

    fn quick_check(&self, first_char: Option<char>) -> (r: Option<bool>) {
        None
    }
}

/// Matches an identifier: a letter or underscore, then letters, digits and
/// underscores.
#[derive(Debug)]
pub struct IdentRule;

impl<Ctx: LexContext> LexingRule<Ctx, SimpleToken> for IdentRule {
    open spec fn priority_spec(&self) -> int {
        10
    }

    open spec fn quick_spec(&self, first_char: Option<char>) -> Option<bool> {
        None
    }

    open spec fn match_len(&self, rest: Seq<char>, closed: bool) -> Option<int> {
        if rest.len() > 0 && (is_alpha_char(rest[0]) || rest[0] == '_') {
            Some(take_while_len(rest, ident_pred()))
        } else {
            None
        }
    }

    open spec fn token_spec(
        &self,
        rest: Seq<char>,
        closed: bool,
        pos: Position,
        tok: SimpleToken,
    ) -> bool {
        &&& tok matches SimpleToken::Ident { value, position }
        &&& value@ == rest.take(take_while_len(rest, ident_pred()))
        &&& position == pos
    }

    fn try_match(&self, ctx: &mut Ctx) -> (r: Option<SimpleToken>) {
        let ghost input = old(ctx).input();
        let ghost i0 = old(ctx).index_spec();
        let ghost rest = input.skip(i0);
        let first = match ctx.peek() {
            None => {
                return None;
            },
            Some(c) => c,
        };
        if !(char_is_alphabetic(first) || first == '_') {
            return None;
        }
        let position = ctx.position();
        let value = ctx.consume_while(ident_char);
        proof {
            let i1 = ctx.index_spec();
            let n = i1 - i0;
            assert forall|j: int| 0 <= j < n implies ident_pred()(#[trigger] rest[j]) by {
                assert(rest[j] == input[i0 + j]);
            }
            if n < rest.len() {
                assert(rest[n] == input[i1]);
            }
            lemma_take_while_exact(rest, ident_pred(), n);
            crate::position::lemma_pos_matches_is_pos_of(input.take(i0), position);
            assert(value@ =~= rest.take(n));
        }
        Some(SimpleToken::Ident { value: value.to_string(), position })
    }

    fn priority(&self) -> (r: i32) {
        10
    }

    fn quick_check(&self, first_char: Option<char>) -> (r: Option<bool>) {
        None
    }
}

/// Matches a number: digits, optionally followed by a decimal point and more
/// digits (only when a digit really follows the point).
#[derive(Debug)]
pub struct NumberRule;

/// How far the number rule reaches into `rest`, counting the integer part and
/// a decimal part if one is there.
pub open spec fn number_len(rest: Seq<char>) -> int {
    let d = take_while_len(rest, digit_pred());
    if d + 1 < rest.len() && rest[d] == '.' && is_digit_char(rest[d + 1]) {
        d + 1 + take_while_len(rest.skip(d + 1), digit_pred())
    } else {
        d
    }
}

impl<Ctx: LexContext> LexingRule<Ctx, SimpleToken> for NumberRule {
    open spec fn priority_spec(&self) -> int {
        10
    }

    open spec fn quick_spec(&self, first_char: Option<char>) -> Option<bool> {
        None
    }

    open spec fn match_len(&self, rest: Seq<char>, closed: bool) -> Option<int> {
        if rest.len() > 0 && is_digit_char(rest[0]) {
            Some(number_len(rest))
        } else {
            None
        }
    }

    open spec fn token_spec(
        &self,
        rest: Seq<char>,
        closed: bool,
        pos: Position,
        tok: SimpleToken,
    ) -> bool {
        &&& tok matches SimpleToken::Number { value, position }
        &&& value@ == rest.take(number_len(rest))
        &&& position == pos
    }

    fn try_match(&self, ctx: &mut Ctx) -> (r: Option<SimpleToken>) {
        let ghost input = old(ctx).input();
        let ghost i0 = old(ctx).index_spec();
        let ghost rest = input.skip(i0);
        let first = match ctx.peek() {
            None => {
                return None;
            },
            Some(c) => c,
        };
        if !char_is_digit(first) {
            return None;
        }
        let position = ctx.position();
        let int_part = ctx.consume_while(digit_char);
        let ghost d = ctx.index_spec() - i0;
        proof {
            assert forall|j: int| 0 <= j < d implies digit_pred()(#[trigger] rest[j]) by {
                assert(rest[j] == input[i0 + j]);
            }
            if d < rest.len() {
                assert(rest[d] == input[i0 + d]);
            }
            lemma_take_while_exact(rest, digit_pred(), d);
            crate::position::lemma_pos_matches_is_pos_of(input.take(i0), position);
            assert(int_part@ =~= rest.take(d));
        }
        let mut value = int_part.to_string();
        let has_frac = match (ctx.peek(), ctx.peek_at(1)) {
            (Some('.'), Some(c2)) => char_is_digit(c2),
            _ => false,
        };
        if has_frac {
            ctx.advance();
            let frac = ctx.consume_while(digit_char);
            let ghost i2 = i0 + d + 1;
            let ghost f = ctx.index_spec() - i2;
            let ghost tail = rest.skip(d + 1);
            proof {
                assert forall|j: int| 0 <= j < f implies digit_pred()(#[trigger] tail[j]) by {
                    assert(tail[j] == input[i2 + j]);
                }
                if f < tail.len() {
                    assert(tail[f] == input[i2 + f]);
                }
                lemma_take_while_exact(tail, digit_pred(), f);
                reveal_strlit(".");
                assert(frac@ =~= tail.take(f));
            }
            value.append(".");
            value.append(frac.as_str());
            proof {
                assert(value@ =~= rest.take(number_len(rest)));
            }
        }
        Some(SimpleToken::Number { value, position })
    }

    fn priority(&self) -> (r: i32) {
        10
    }

    fn quick_check(&self, first_char: Option<char>) -> (r: Option<bool>) {
        None
    }
}

/// The longest spelling among `ops[k..]` that begins `rest` (0 when none does).
pub open spec fn best_op_from(ops: Seq<String>, k: int, rest: Seq<char>) -> int
    decreases ops.len() - k,
{
    if k < 0 || k >= ops.len() {
        0
    } else {
        let tb = best_op_from(ops, k + 1, rest);
        if is_prefix_of(ops[k]@, rest) && ops[k]@.len() > tb {
            ops[k]@.len() as int
        } else {
            tb
        }
    }
}

/// The best length is never negative and never reaches past the input.
pub proof fn lemma_best_op_bounds(ops: Seq<String>, k: int, rest: Seq<char>)
    ensures
        0 <= best_op_from(ops, k, rest) <= rest.len(),
    decreases ops.len() - k,
{
    if 0 <= k < ops.len() {
        lemma_best_op_bounds(ops, k + 1, rest);
    }
}

/// Matches the longest of a configurable list of operator spellings.
#[derive(Debug)]
pub struct OperatorRule {
    operators: Vec<String>,
}

impl OperatorRule {
    /// The configured spellings, in registration order.
    pub closed spec fn ops_spec(&self) -> Seq<String> {
        self.operators@
    }

    /// A rule for the given operator spellings.
    pub fn new(operators: Vec<&str>) -> (r: OperatorRule)
        ensures
            r.ops_spec().len() == operators@.len(),
            forall|j: int|
                0 <= j < operators@.len() ==> (#[trigger] r.ops_spec()[j])@ == operators@[j]@,
    {
        let mut owned: Vec<String> = Vec::new();
        let mut i: usize = 0;
        while i < operators.len()
            invariant
                owned@.len() == i <= operators@.len(),
                forall|j: int| 0 <= j < i ==> (#[trigger] owned@[j])@ == operators@[j]@,
            decreases operators@.len() - i,
        {
            owned.push(operators[i].to_owned());
            i = i + 1;
        }
        OperatorRule { operators: owned }
    }

    /// The usual spellings: comparison, arithmetic, logic and punctuation.
    pub fn default() -> (r: OperatorRule)
        ensures
            r.ops_spec().len() == 25,
    {
        OperatorRule::new(
            vec![
                "==",
                "!=",
                "<=",
                ">=",
                "&&",
                "||",
                "+",
                "-",
                "*",
                "/",
                "%",
                "=",
                "<",
                ">",
                "!",
                "(",
                ")",
                "{",
                "}",
                "[",
                "]",
                ".",
                ",",
                ";",
                ":",
            ],
        )
    }
}

impl<Ctx: LexContext> LexingRule<Ctx, SimpleToken> for OperatorRule {
    open spec fn priority_spec(&self) -> int {
        5
    }

    open spec fn quick_spec(&self, first_char: Option<char>) -> Option<bool> {
        None
    }

    open spec fn match_len(&self, rest: Seq<char>, closed: bool) -> Option<int> {
        let n = best_op_from(self.ops_spec(), 0, rest);
        if n == 0 {
            None
        } else {
            Some(n)
        }
    }

    open spec fn token_spec(
        &self,
        rest: Seq<char>,
        closed: bool,
        pos: Position,
        tok: SimpleToken,
    ) -> bool {
        &&& tok matches SimpleToken::Operator { value, position }
        &&& value@ == rest.take(best_op_from(self.ops_spec(), 0, rest))
        &&& position == pos
    }

    fn try_match(&self, ctx: &mut Ctx) -> (r: Option<SimpleToken>) {
        let ghost input = old(ctx).input();
        let ghost i0 = old(ctx).index_spec();
        let ghost rest = input.skip(i0);
        let rem = ctx.remaining();
        let mut best: usize = 0;
        let mut i: usize = self.operators.len();
        proof {
            lemma_best_op_bounds(self.operators@, i as int, rest);
        }
        while i > 0
            invariant
                0 <= i <= self.operators@.len(),
                rem@ == rest,
                best == best_op_from(self.operators@, i as int, rest),
                0 <= best <= rest.len(),
            decreases i,
        {
            i = i - 1;
            let op = &self.operators[i];
            let is_pref = rem.starts_with(op.as_str());
            let n = op.as_str().unicode_len();
            if is_pref && n > best {
                best = n;
            }
        }
        if best == 0 {
            return None;
        }
        let position = ctx.position();
        let text = ctx.peek_slice(best);
        ctx.advance_by(best);
        proof {
            crate::position::lemma_pos_matches_is_pos_of(input.take(i0), position);
            assert(text@ =~= rest.take(best as int));
        }
        Some(SimpleToken::Operator { value: text.to_string(), position })
    }

    fn priority(&self) -> (r: i32) {
        5
    }

    fn quick_check(&self, first_char: Option<char>) -> (r: Option<bool>) {
        None
    }
}

/// Matches only at the very end of a closed input, producing an end marker
/// without consuming anything.
#[derive(Debug)]
pub struct EofRule;

impl<Ctx: LexContext> LexingRule<Ctx, SimpleToken> for EofRule {
    open spec fn priority_spec(&self) -> int {
        -1
    }

    open spec fn quick_spec(&self, first_char: Option<char>) -> Option<bool> {
        None
    }

    open spec fn match_len(&self, rest: Seq<char>, closed: bool) -> Option<int> {
        if closed && rest.len() == 0 {
            Some(0)
        } else {
            None
        }
    }

    open spec fn token_spec(
        &self,
        rest: Seq<char>,
        closed: bool,
        pos: Position,
        tok: SimpleToken,
    ) -> bool {
        &&& tok matches SimpleToken::Eof { position }
        &&& position == pos
    }

    fn try_match(&self, ctx: &mut Ctx) -> (r: Option<SimpleToken>) {
        let ghost input = old(ctx).input();
        let ghost i0 = old(ctx).index_spec();
        if ctx.is_eof() {
            let position = ctx.position();
            proof {
                crate::position::lemma_pos_matches_is_pos_of(input.take(i0), position);
            }
            Some(SimpleToken::Eof { position })
        } else {
            None
        }
    }

    fn priority(&self) -> (r: i32) {
        -1
    }

    fn quick_check(&self, first_char: Option<char>) -> (r: Option<bool>) {
        None
    }
}

/// One of the stock rules, so a single rule list can hold them all.
#[derive(Debug)]
pub enum SimpleRule {
    Whitespace(WhitespaceRule),
    Newline(NewlineRule),
    Ident(IdentRule),
    Number(NumberRule),
    Operator(OperatorRule),
    Eof(EofRule),
}

impl<Ctx: LexContext> LexingRule<Ctx, SimpleToken> for SimpleRule {
    open spec fn priority_spec(&self) -> int {
        match self {
            SimpleRule::Whitespace(r) => <WhitespaceRule as LexingRule<Ctx, SimpleToken>>::priority_spec(r),
            SimpleRule::Newline(r) => <NewlineRule as LexingRule<Ctx, SimpleToken>>::priority_spec(r),
            SimpleRule::Ident(r) => <IdentRule as LexingRule<Ctx, SimpleToken>>::priority_spec(r),
            SimpleRule::Number(r) => <NumberRule as LexingRule<Ctx, SimpleToken>>::priority_spec(r),
            SimpleRule::Operator(r) => <OperatorRule as LexingRule<Ctx, SimpleToken>>::priority_spec(r),
            SimpleRule::Eof(r) => <EofRule as LexingRule<Ctx, SimpleToken>>::priority_spec(r),
        }
    }

    open spec fn quick_spec(&self, first_char: Option<char>) -> Option<bool> {
        match self {
            SimpleRule::Whitespace(r) => <WhitespaceRule as LexingRule<Ctx, SimpleToken>>::quick_spec(r, first_char),
            SimpleRule::Newline(r) => <NewlineRule as LexingRule<Ctx, SimpleToken>>::quick_spec(r, first_char),
            SimpleRule::Ident(r) => <IdentRule as LexingRule<Ctx, SimpleToken>>::quick_spec(r, first_char),
            SimpleRule::Number(r) => <NumberRule as LexingRule<Ctx, SimpleToken>>::quick_spec(r, first_char),
            SimpleRule::Operator(r) => <OperatorRule as LexingRule<Ctx, SimpleToken>>::quick_spec(r, first_char),
            SimpleRule::Eof(r) => <EofRule as LexingRule<Ctx, SimpleToken>>::quick_spec(r, first_char),
        }
    }

    open spec fn match_len(&self, rest: Seq<char>, closed: bool) -> Option<int> {
        match self {
            SimpleRule::Whitespace(r) => <WhitespaceRule as LexingRule<Ctx, SimpleToken>>::match_len(r, rest, closed),
            SimpleRule::Newline(r) => <NewlineRule as LexingRule<Ctx, SimpleToken>>::match_len(r, rest, closed),
            SimpleRule::Ident(r) => <IdentRule as LexingRule<Ctx, SimpleToken>>::match_len(r, rest, closed),
            SimpleRule::Number(r) => <NumberRule as LexingRule<Ctx, SimpleToken>>::match_len(r, rest, closed),
            SimpleRule::Operator(r) => <OperatorRule as LexingRule<Ctx, SimpleToken>>::match_len(r, rest, closed),
            SimpleRule::Eof(r) => <EofRule as LexingRule<Ctx, SimpleToken>>::match_len(r, rest, closed),
        }
    }

    open spec fn token_spec(
        &self,
        rest: Seq<char>,
        closed: bool,
        pos: Position,
        tok: SimpleToken,
    ) -> bool {
        match self {
            SimpleRule::Whitespace(r) => <WhitespaceRule as LexingRule<Ctx, SimpleToken>>::token_spec(r, rest, closed, pos, tok),
            SimpleRule::Newline(r) => <NewlineRule as LexingRule<Ctx, SimpleToken>>::token_spec(r, rest, closed, pos, tok),
            SimpleRule::Ident(r) => <IdentRule as LexingRule<Ctx, SimpleToken>>::token_spec(r, rest, closed, pos, tok),
            SimpleRule::Number(r) => <NumberRule as LexingRule<Ctx, SimpleToken>>::token_spec(r, rest, closed, pos, tok),
            SimpleRule::Operator(r) => <OperatorRule as LexingRule<Ctx, SimpleToken>>::token_spec(r, rest, closed, pos, tok),
            SimpleRule::Eof(r) => <EofRule as LexingRule<Ctx, SimpleToken>>::token_spec(r, rest, closed, pos, tok),
        }
    }

    fn try_match(&self, ctx: &mut Ctx) -> (r: Option<SimpleToken>) {
        match self {
            SimpleRule::Whitespace(r) => r.try_match(ctx),
            SimpleRule::Newline(r) => r.try_match(ctx),
            SimpleRule::Ident(r) => r.try_match(ctx),
            SimpleRule::Number(r) => r.try_match(ctx),
            SimpleRule::Operator(r) => r.try_match(ctx),
            SimpleRule::Eof(r) => r.try_match(ctx),
        }
    }

    fn priority(&self) -> (r: i32) {
        match self {
            SimpleRule::Whitespace(r) => <WhitespaceRule as LexingRule<Ctx, SimpleToken>>::priority(r),
            SimpleRule::Newline(r) => <NewlineRule as LexingRule<Ctx, SimpleToken>>::priority(r),
            SimpleRule::Ident(r) => <IdentRule as LexingRule<Ctx, SimpleToken>>::priority(r),
            SimpleRule::Number(r) => <NumberRule as LexingRule<Ctx, SimpleToken>>::priority(r),
            SimpleRule::Operator(r) => <OperatorRule as LexingRule<Ctx, SimpleToken>>::priority(r),
            SimpleRule::Eof(r) => <EofRule as LexingRule<Ctx, SimpleToken>>::priority(r),
        }
    }

    fn quick_check(&self, first_char: Option<char>) -> (r: Option<bool>) {
        match self {
            SimpleRule::Whitespace(r) => <WhitespaceRule as LexingRule<Ctx, SimpleToken>>::quick_check(r, first_char),
            SimpleRule::Newline(r) => <NewlineRule as LexingRule<Ctx, SimpleToken>>::quick_check(r, first_char),
            SimpleRule::Ident(r) => <IdentRule as LexingRule<Ctx, SimpleToken>>::quick_check(r, first_char),
            SimpleRule::Number(r) => <NumberRule as LexingRule<Ctx, SimpleToken>>::quick_check(r, first_char),
            SimpleRule::Operator(r) => <OperatorRule as LexingRule<Ctx, SimpleToken>>::quick_check(r, first_char),
            SimpleRule::Eof(r) => <EofRule as LexingRule<Ctx, SimpleToken>>::quick_check(r, first_char),
        }
    }
}

/// The stock rule set: newlines, whitespace, identifiers, numbers, the usual
/// operators, and an end marker.
pub fn default_rules() -> (r: Vec<SimpleRule>)
    ensures
        r@.len() == 6,
        r@[0] is Newline,
        r@[1] is Whitespace,
        r@[2] is Ident,
        r@[3] is Number,
        r@[4] is Operator,
        r@[5] is Eof,
{
    let mut rules: Vec<SimpleRule> = Vec::new();
    rules.push(SimpleRule::Newline(NewlineRule));
    rules.push(SimpleRule::Whitespace(WhitespaceRule));
    rules.push(SimpleRule::Ident(IdentRule));
    rules.push(SimpleRule::Number(NumberRule));
    rules.push(SimpleRule::Operator(OperatorRule::default()));
    rules.push(SimpleRule::Eof(EofRule));
    rules
}

} // verus!
