use crate::chars::{
    char_is_digit, char_is_space, is_digit_char, is_space_char, lemma_take_while_exact,
    take_while_len,
};
use crate::context::LexContext;
use crate::position::Position;
use crate::rules::digit_pred;
use crate::text_slice::char_to_string;
use crate::traits::{LexingRule, LexToken};
use vstd::prelude::*;
use vstd::string::StringExecFns;

verus! {

/// Tokens of a JSON-like surface: strings with escapes, numbers, the
/// keywords, punctuation, whitespace, and an end marker.
#[derive(Debug, Clone)]
pub enum JsonToken {
    String { value: String, position: Position },
    Number { value: String, position: Position },
    Boolean { value: bool, position: Position },
    Null { position: Position },
    LeftBrace { position: Position },
    RightBrace { position: Position },
    LeftBracket { position: Position },
    RightBracket { position: Position },
    Comma { position: Position },
    Colon { position: Position },
    Whitespace { value: String, position: Position },
    Eof { position: Position },
}

impl LexToken for JsonToken {
    open spec fn whitespace_spec(&self) -> bool {
        self is Whitespace
    }

    open spec fn eof_spec(&self) -> bool {
        self is Eof
    }

    fn position(&self) -> Option<Position> {
        match self {
            JsonToken::String { position, .. } => Some(*position),
            JsonToken::Number { position, .. } => Some(*position),
            JsonToken::Boolean { position, .. } => Some(*position),
            JsonToken::Null { position } => Some(*position),
            JsonToken::LeftBrace { position } => Some(*position),
            JsonToken::RightBrace { position } => Some(*position),
            JsonToken::LeftBracket { position } => Some(*position),
            JsonToken::RightBracket { position } => Some(*position),
            JsonToken::Comma { position } => Some(*position),
            JsonToken::Colon { position } => Some(*position),
            JsonToken::Whitespace { position, .. } => Some(*position),
            JsonToken::Eof { position } => Some(*position),
        }
    }

    fn is_eof(&self) -> (r: bool) {
        matches!(self, JsonToken::Eof { .. })
    }

    fn is_newline(&self) -> bool {
        false
    }

    fn is_whitespace(&self) -> (r: bool) {
        matches!(self, JsonToken::Whitespace { .. })
    }

    fn is_indent(&self) -> bool {
        false
    }
}

/// What one escaped character denotes: the usual short escapes map to their
/// control characters, and an unknown escape keeps the backslash.
pub open spec fn escape_of(c: char) -> Seq<char> {
    if c == 'n' {
        seq!['\n']
    } else if c == 't' {
        seq!['\t']
    } else if c == 'r' {
        seq!['\r']
    } else if c == '\\' {
        seq!['\\']
    } else if c == '"' {
        seq!['"']
    } else {
        seq!['\\', c]
    }
}

/// How many characters a string token occupies, scanning `rest` from `i`
/// (just past the opening quote), `esc` saying whether the previous character
/// was an unconsumed backslash; `None` when no closing quote follows.
pub open spec fn string_scan(rest: Seq<char>, i: int, esc: bool) -> Option<int>
    decreases rest.len() - i,
{
    if i < 0 || i >= rest.len() {
        None
    } else if !esc && rest[i] == '"' {
        Some(i + 1)
    } else if !esc && rest[i] == '\\' {
        string_scan(rest, i + 1, true)
    } else {
        string_scan(rest, i + 1, false)
    }
}

/// The unescaped text a string token denotes, scanned the same way.
pub open spec fn string_value(rest: Seq<char>, i: int, esc: bool) -> Seq<char>
    decreases rest.len() - i,
{
    if i < 0 || i >= rest.len() {
        Seq::empty()
    } else if esc {
        escape_of(rest[i]) + string_value(rest, i + 1, false)
    } else if rest[i] == '"' {
        Seq::empty()
    } else if rest[i] == '\\' {
        string_value(rest, i + 1, true)
    } else {
        seq![rest[i]] + string_value(rest, i + 1, false)
    }
}

/// A scan that closes stays within the input.
pub proof fn lemma_string_scan_bounds(rest: Seq<char>, i: int, esc: bool)
    requires
        0 <= i,
    ensures
        string_scan(rest, i, esc) matches Some(n) ==> i < n <= rest.len(),
    decreases rest.len() - i,
{
    if i < rest.len() {
        lemma_string_scan_bounds(rest, i + 1, true);
        lemma_string_scan_bounds(rest, i + 1, false);
    }
}

/// Matches a quoted string, understanding the usual backslash escapes.
#[derive(Debug)]
pub struct StringRule;

impl<Ctx: LexContext> LexingRule<Ctx, JsonToken> for StringRule {
    open spec fn priority_spec(&self) -> int {
        15
    }

    open spec fn match_len(&self, rest: Seq<char>, closed: bool) -> Option<int> {
        if rest.len() > 0 && rest[0] == '"' {
            string_scan(rest, 1, false)
        } else {
            None
        }
    }

    open spec fn token_spec(
        &self,
        rest: Seq<char>,
        closed: bool,
        pos: Position,
        tok: JsonToken,
    ) -> bool {
        &&& tok matches JsonToken::String { value, position }
        &&& value@ == string_value(rest, 1, false)
        &&& position == pos
    }

    fn try_match(&self, ctx: &mut Ctx) -> (r: Option<JsonToken>) {
        let ghost input = old(ctx).input();
        let ghost i0 = old(ctx).index_spec();
        let ghost rest = input.skip(i0);
        if ctx.peek() != Some('"') {
            return None;
        }
        let position = ctx.position();
        ctx.advance();
        let mut value = String::new();
        let mut escape = false;
        proof {
            crate::position::lemma_pos_matches_is_pos_of(input.take(i0), position);
        }
        loop
            invariant
                input == ctx.input(),
                input == old(ctx).input(),
                old(ctx).closed_spec() == ctx.closed_spec(),
                0 <= i0 <= input.len(),
                i0 == old(ctx).index_spec(),
                rest == input.skip(i0),
                rest.len() > 0 && rest[0] == '"',
                position == crate::position::pos_of(input.take(i0)),
                i0 + 1 <= ctx.index_spec() <= input.len(),
                string_scan(rest, 1, false) == string_scan(
                    rest,
                    ctx.index_spec() - i0,
                    escape,
                ),
                string_value(rest, 1, false) == value@ + string_value(
                    rest,
                    ctx.index_spec() - i0,
                    escape,
                ),
            decreases input.len() - ctx.index_spec(),
        {
            let ghost j = ctx.index_spec() - i0;
            match ctx.peek() {
                None => {
                    return None;
                },
                Some(c) => {
                    proof {
                        assert(rest[j] == input[i0 + j]);
                    }
                    if !escape && c == '"' {
                        ctx.advance();
                        proof {
                            lemma_string_scan_bounds(rest, 1, false);
                            assert(string_value(rest, j, false) =~= Seq::<char>::empty());
                            assert(value@ =~= string_value(rest, 1, false));
                        }
                        return Some(JsonToken::String { value, position });
                    }
                    if !escape && c == '\\' {
                        escape = true;
                        ctx.advance();
                        continue ;
                    }
                    if escape {
                        let piece = match c {
                            'n' => char_to_string('\n'),
                            't' => char_to_string('\t'),
                            'r' => char_to_string('\r'),
                            '\\' => char_to_string('\\'),
                            '"' => char_to_string('"'),
                            _ => {
                                let mut p = char_to_string('\\');
                                let rest_s = char_to_string(c);
                                p.append(rest_s.as_str());
                                p
                            },
                        };
                        proof {
                            reveal_strlit("");
                            assert(piece@ =~= escape_of(c));
                        }
                        value.append(piece.as_str());
                        escape = false;
                    } else {
                        let piece = char_to_string(c);
                        value.append(piece.as_str());
                    }
                    ctx.advance();
                    proof {
                        assert(value@ + string_value(rest, j + 1, false) =~= string_value(
                            rest,
                            1,
                            false,
                        ));
                    }
                },
            }
        }
    }

    fn priority(&self) -> (r: i32) {
        15
    }

    fn quick_check(&self, first_char: Option<char>) -> (r: Option<bool>) {
        None
    }
}


/// Matches a JSON-style number: an optional minus sign, digits, an optional
/// decimal part (only when a digit follows the point), and an optional
/// exponent (only when digits follow it).
#[derive(Debug)]
pub struct NumberRule;

/// How many characters the number occupies at the front of `rest`, or `None`
/// when no number starts there.
pub open spec fn json_number_len(rest: Seq<char>) -> Option<int> {
    if rest.len() == 0 || (rest[0] != '-' && !is_digit_char(rest[0])) {
        None
    } else {
        let s = if rest[0] == '-' {
            1int
        } else {
            0int
        };
        let d = take_while_len(rest.skip(s), digit_pred());
        if d == 0 {
            None
        } else {
            let p1 = s + d;
            let p2 = if p1 + 1 < rest.len() && rest[p1] == '.' && is_digit_char(rest[p1 + 1]) {
                p1 + 1 + take_while_len(rest.skip(p1 + 1), digit_pred())
            } else {
                p1
            };
            if p2 < rest.len() && (rest[p2] == 'e' || rest[p2] == 'E') {
                let sg = if p2 + 1 < rest.len() && (rest[p2 + 1] == '+' || rest[p2 + 1] == '-') {
                    1int
                } else {
                    0int
                };
                let ed = take_while_len(rest.skip(p2 + 1 + sg), digit_pred());
                if ed > 0 {
                    Some(p2 + 1 + sg + ed)
                } else {
                    Some(p2)
                }
            } else {
                Some(p2)
            }
        }
    }
}

impl<Ctx: LexContext> LexingRule<Ctx, JsonToken> for NumberRule {
    open spec fn priority_spec(&self) -> int {
        14
    }



    open spec fn match_len(&self, rest: Seq<char>, closed: bool) -> Option<int> {
        json_number_len(rest)
    }

    open spec fn token_spec(
        &self,
        rest: Seq<char>,
        closed: bool,
        pos: Position,
        tok: JsonToken,
    ) -> bool {
        &&& tok matches JsonToken::Number { value, position }
        &&& json_number_len(rest) matches Some(n) && value@ == rest.take(n)
        &&& position == pos
    }

    #[verifier::rlimit(100)]
    fn try_match(&self, ctx: &mut Ctx) -> (r: Option<JsonToken>) {
        let ghost input = old(ctx).input();
        let ghost i0 = old(ctx).index_spec();
        let ghost rest = input.skip(i0);
        let first = match ctx.peek() {
            None => {
                return None;
            },
            Some(c) => c,
        };
        if !(first == '-' || char_is_digit(first)) {
            return None;
        }
        let position = ctx.position();
        let cp0 = ctx.checkpoint();
        proof {
            crate::position::lemma_pos_matches_is_pos_of(input.take(i0), position);
        }
        let ghost sg0: int = if first == '-' {
            1int
        } else {
            0int
        };
        if first == '-' {
            ctx.advance();
        }
        let ints = ctx.consume_while(digit_char_pred);
        let d = ints.len();
        proof {
            let tail = rest.skip(sg0);
            assert forall|j: int| 0 <= j < d implies digit_pred()(#[trigger] tail[j]) by {
                assert(tail[j] == input[i0 + sg0 + j]);
            }
            if d < tail.len() {
                assert(tail[d as int] == input[i0 + sg0 + d]);
            }
            lemma_take_while_exact(tail, digit_pred(), d as int);
        }
        if d == 0 {
            ctx.restore(cp0);
            return None;
        }
        let ghost p1 = sg0 + d;
        let has_frac = match (ctx.peek(), ctx.peek_at(1)) {
            (Some('.'), Some(c2)) => char_is_digit(c2),
            _ => false,
        };
        proof {
            if i0 + p1 < input.len() {
                assert(rest[p1] == input[i0 + p1]);
            }
            if i0 + p1 + 1 < input.len() {
                assert(rest[p1 + 1] == input[i0 + p1 + 1]);
            }
        }
        if has_frac {
            ctx.advance();
            let fr = ctx.consume_while(digit_char_pred);
            proof {
                let tail = rest.skip(p1 + 1);
                let f = fr@.len() as int;
                assert forall|j: int| 0 <= j < f implies digit_pred()(#[trigger] tail[j]) by {
                    assert(tail[j] == input[i0 + p1 + 1 + j]);
                }
                if f < tail.len() {
                    assert(tail[f] == input[i0 + p1 + 1 + f]);
                }
                lemma_take_while_exact(tail, digit_pred(), f);
            }
        }
        let ghost p2 = ctx.index_spec() - i0;
        let has_exp_marker = matches!(ctx.peek(), Some('e') | Some('E'));
        proof {
            if i0 + p2 < input.len() {
                assert(rest[p2] == input[i0 + p2]);
            }
        }
        if has_exp_marker {
            let has_sign = matches!(ctx.peek_at(1), Some('+') | Some('-'));
            let ghost sg = if has_sign {
                1int
            } else {
                0int
            };
            proof {
                if i0 + p2 + 1 < input.len() {
                    assert(rest[p2 + 1] == input[i0 + p2 + 1]);
                }
            }
            let first_exp_digit = if has_sign {
                ctx.peek_at(2)
            } else {
                ctx.peek_at(1)
            };
            let exp_ok = match first_exp_digit {
                Some(c) => char_is_digit(c),
                None => false,
            };
            proof {
                if i0 + p2 + 1 + sg < input.len() {
                    assert(rest[p2 + 1 + sg] == input[i0 + p2 + 1 + sg]);
                }
                let tail = rest.skip(p2 + 1 + sg);
                if !exp_ok {
                    if tail.len() > 0 {
                        assert(tail[0] == input[i0 + p2 + 1 + sg]);
                    }
                    assert(take_while_len(tail, digit_pred()) == 0);
                }
            }
            if exp_ok {
                ctx.advance();
                if has_sign {
                    ctx.advance();
                }
                let ex = ctx.consume_while(digit_char_pred);
                proof {
                    let tail = rest.skip(p2 + 1 + sg);
                    let e = ex@.len() as int;
                    assert forall|j: int| 0 <= j < e implies digit_pred()(#[trigger] tail[j]) by {
                        assert(tail[j] == input[i0 + p2 + 1 + sg + j]);
                    }
                    if e < tail.len() {
                        assert(tail[e] == input[i0 + p2 + 1 + sg + e]);
                    }
                    lemma_take_while_exact(tail, digit_pred(), e);
                }
            }
        }
        let end_cp = ctx.checkpoint();
        let n = end_cp.index() - cp0.index();
        ctx.restore(cp0);
        let text = ctx.peek_slice(n);
        ctx.advance_by(n);
        proof {
            assert(text@ =~= rest.take(n as int));
        }
        Some(JsonToken::Number { value: text.to_string(), position })
    }

    fn priority(&self) -> (r: i32) {
        14
    }

    fn quick_check(&self, first_char: Option<char>) -> (r: Option<bool>) {
        None
    }
}

fn digit_char_pred(c: char) -> (b: bool)
    ensures
        b == is_digit_char(c),
{
    char_is_digit(c)
}

/// Matches the keywords `true`, `false` and `null`.
#[derive(Debug)]
pub struct KeywordRule;

/// Which keyword begins `rest`, if any, and its length.
pub open spec fn keyword_len(rest: Seq<char>) -> Option<int> {
    if crate::chars::is_prefix_of("true"@, rest) {
        Some(4)
    } else if crate::chars::is_prefix_of("false"@, rest) {
        Some(5)
    } else if crate::chars::is_prefix_of("null"@, rest) {
        Some(4)
    } else {
        None
    }
}

impl<Ctx: LexContext> LexingRule<Ctx, JsonToken> for KeywordRule {
    open spec fn priority_spec(&self) -> int {
        13
    }

    open spec fn match_len(&self, rest: Seq<char>, closed: bool) -> Option<int> {
        keyword_len(rest)
    }

    open spec fn token_spec(
        &self,
        rest: Seq<char>,
        closed: bool,
        pos: Position,
        tok: JsonToken,
    ) -> bool {
        if crate::chars::is_prefix_of("true"@, rest) {
            tok == JsonToken::Boolean { value: true, position: pos }
        } else if crate::chars::is_prefix_of("false"@, rest) {
            tok == JsonToken::Boolean { value: false, position: pos }
        } else {
            tok == JsonToken::Null { position: pos }
        }
    }

    fn try_match(&self, ctx: &mut Ctx) -> (r: Option<JsonToken>) {
        let ghost input = old(ctx).input();
        let ghost i0 = old(ctx).index_spec();
        let position = ctx.position();
        let remaining = ctx.remaining();
        proof {
            crate::position::lemma_pos_matches_is_pos_of(input.take(i0), position);
            reveal_strlit("true");
            reveal_strlit("false");
            reveal_strlit("null");
        }
        if remaining.starts_with("true") {
            ctx.advance_by(4);
            Some(JsonToken::Boolean { value: true, position })
        } else if remaining.starts_with("false") {
            ctx.advance_by(5);
            Some(JsonToken::Boolean { value: false, position })
        } else if remaining.starts_with("null") {
            ctx.advance_by(4);
            Some(JsonToken::Null { position })
        } else {
            None
        }
    }

    fn priority(&self) -> (r: i32) {
        13
    }

    fn quick_check(&self, first_char: Option<char>) -> (r: Option<bool>) {
        None
    }
}

/// Matches one punctuation character: braces, brackets, comma or colon.
#[derive(Debug)]
pub struct PunctuationRule;

/// Whether `c` is one of the JSON punctuation characters.
pub open spec fn is_punct_char(c: char) -> bool {
    c == '{' || c == '}' || c == '[' || c == ']' || c == ',' || c == ':'
}

impl<Ctx: LexContext> LexingRule<Ctx, JsonToken> for PunctuationRule {
    open spec fn priority_spec(&self) -> int {
        5
    }

    open spec fn match_len(&self, rest: Seq<char>, closed: bool) -> Option<int> {
        if rest.len() > 0 && is_punct_char(rest[0]) {
            Some(1)
        } else {
            None
        }
    }

    open spec fn token_spec(
        &self,
        rest: Seq<char>,
        closed: bool,
        pos: Position,
        tok: JsonToken,
    ) -> bool {
        rest.len() > 0 && tok == (if rest[0] == '{' {
            JsonToken::LeftBrace { position: pos }
        } else if rest[0] == '}' {
            JsonToken::RightBrace { position: pos }
        } else if rest[0] == '[' {
            JsonToken::LeftBracket { position: pos }
        } else if rest[0] == ']' {
            JsonToken::RightBracket { position: pos }
        } else if rest[0] == ',' {
            JsonToken::Comma { position: pos }
        } else {
            JsonToken::Colon { position: pos }
        })
    }

    fn try_match(&self, ctx: &mut Ctx) -> (r: Option<JsonToken>) {
        let ghost input = old(ctx).input();
        let ghost i0 = old(ctx).index_spec();
        let ch = match ctx.peek() {
            None => {
                return None;
            },
            Some(c) => c,
        };
        let position = ctx.position();
        proof {
            crate::position::lemma_pos_matches_is_pos_of(input.take(i0), position);
        }
        let token = match ch {
            '{' => JsonToken::LeftBrace { position },
            '}' => JsonToken::RightBrace { position },
            '[' => JsonToken::LeftBracket { position },
            ']' => JsonToken::RightBracket { position },
            ',' => JsonToken::Comma { position },
            ':' => JsonToken::Colon { position },
            _ => {
                return None;
            },
        };
        ctx.advance();
        Some(token)
    }

    fn priority(&self) -> (r: i32) {
        5
    }

    fn quick_check(&self, first_char: Option<char>) -> (r: Option<bool>) {
        None
    }
}

/// Matches a run of whitespace characters, newlines included.
#[derive(Debug)]
pub struct WhitespaceRule;

/// The predicate this rule consumes by: any whitespace.
pub open spec fn any_space_pred() -> spec_fn(char) -> bool {
    |c: char| is_space_char(c)
}

fn any_space(c: char) -> (b: bool)
    ensures
        b == is_space_char(c),
{
    char_is_space(c)
}

impl<Ctx: LexContext> LexingRule<Ctx, JsonToken> for WhitespaceRule {
    open spec fn priority_spec(&self) -> int {
        1
    }

    open spec fn match_len(&self, rest: Seq<char>, closed: bool) -> Option<int> {
        let n = take_while_len(rest, any_space_pred());
        if n == 0 {
            None
        } else {
            Some(n)
        }
    }

    open spec fn token_spec(
        &self,
        rest: Seq<char>,
        closed: bool,
        pos: Position,
        tok: JsonToken,
    ) -> bool {
        &&& tok matches JsonToken::Whitespace { value, position }
        &&& value@ == rest.take(take_while_len(rest, any_space_pred()))
        &&& position == pos
    }

    fn try_match(&self, ctx: &mut Ctx) -> (r: Option<JsonToken>) {
        let ghost input = old(ctx).input();
        let ghost i0 = old(ctx).index_spec();
        let ghost rest = input.skip(i0);
        let position = ctx.position();
        let value = ctx.consume_while(any_space);
        proof {
            let i1 = ctx.index_spec();
            let n = i1 - i0;
            assert forall|j: int| 0 <= j < n implies any_space_pred()(#[trigger] rest[j]) by {
                assert(rest[j] == input[i0 + j]);
            }
            if n < rest.len() {
                assert(rest[n] == input[i1]);
            }
            lemma_take_while_exact(rest, any_space_pred(), n);
            crate::position::lemma_pos_matches_is_pos_of(input.take(i0), position);
            assert(value@ =~= rest.take(n));
        }
        if value.is_empty() {
            None
        } else {
            Some(JsonToken::Whitespace { value: value.to_string(), position })
        }
    }

    fn priority(&self) -> (r: i32) {
        1
    }

    fn quick_check(&self, first_char: Option<char>) -> (r: Option<bool>) {
        None
    }
}

/// Matches only at the very end of a closed input.
#[derive(Debug)]
pub struct EofRule;

impl<Ctx: LexContext> LexingRule<Ctx, JsonToken> for EofRule {
    open spec fn priority_spec(&self) -> int {
        -1
    }

    open spec fn match_len(&self, rest: Seq<char>, closed: bool) -> Option<int> {
        if closed && rest.len() == 0 {
            Some(0)
        } else {
            None
        }
    }

    open spec fn token_spec(
        &self,
        rest: Seq<char>,
        closed: bool,
        pos: Position,
        tok: JsonToken,
    ) -> bool {
        &&& tok matches JsonToken::Eof { position }
        &&& position == pos
    }

    fn try_match(&self, ctx: &mut Ctx) -> (r: Option<JsonToken>) {
        let ghost input = old(ctx).input();
        let ghost i0 = old(ctx).index_spec();
        if ctx.is_eof() {
            let position = ctx.position();
            proof {
                crate::position::lemma_pos_matches_is_pos_of(input.take(i0), position);
            }
            Some(JsonToken::Eof { position })
        } else {
            None
        }
    }

    fn priority(&self) -> (r: i32) {
        -1
    }

    fn quick_check(&self, first_char: Option<char>) -> (r: Option<bool>) {
        None
    }
}

/// One of the JSON rules, so a single rule list can hold them all.
#[derive(Debug)]
pub enum JsonRule {
    String(StringRule),
    Number(NumberRule),
    Keyword(KeywordRule),
    Punctuation(PunctuationRule),
    Whitespace(WhitespaceRule),
    Eof(EofRule),
}

impl<Ctx: LexContext> LexingRule<Ctx, JsonToken> for JsonRule {
    open spec fn priority_spec(&self) -> int {
        match self {
            JsonRule::String(r) => <StringRule as LexingRule<Ctx, JsonToken>>::priority_spec(r),
            JsonRule::Number(r) => <NumberRule as LexingRule<Ctx, JsonToken>>::priority_spec(r),
            JsonRule::Keyword(r) => <KeywordRule as LexingRule<Ctx, JsonToken>>::priority_spec(r),
            JsonRule::Punctuation(r) => <PunctuationRule as LexingRule<Ctx, JsonToken>>::priority_spec(r),
            JsonRule::Whitespace(r) => <WhitespaceRule as LexingRule<Ctx, JsonToken>>::priority_spec(r),
            JsonRule::Eof(r) => <EofRule as LexingRule<Ctx, JsonToken>>::priority_spec(r),
        }
    }

    open spec fn quick_spec(&self, first_char: Option<char>) -> Option<bool> {
        None
    }

    open spec fn match_len(&self, rest: Seq<char>, closed: bool) -> Option<int> {
        match self {
            JsonRule::String(r) => <StringRule as LexingRule<Ctx, JsonToken>>::match_len(r, rest, closed),
            JsonRule::Number(r) => <NumberRule as LexingRule<Ctx, JsonToken>>::match_len(r, rest, closed),
            JsonRule::Keyword(r) => <KeywordRule as LexingRule<Ctx, JsonToken>>::match_len(r, rest, closed),
            JsonRule::Punctuation(r) => <PunctuationRule as LexingRule<Ctx, JsonToken>>::match_len(r, rest, closed),
            JsonRule::Whitespace(r) => <WhitespaceRule as LexingRule<Ctx, JsonToken>>::match_len(r, rest, closed),
            JsonRule::Eof(r) => <EofRule as LexingRule<Ctx, JsonToken>>::match_len(r, rest, closed),
        }
    }

    open spec fn token_spec(
        &self,
        rest: Seq<char>,
        closed: bool,
        pos: Position,
        tok: JsonToken,
    ) -> bool {
        match self {
            JsonRule::String(r) => <StringRule as LexingRule<Ctx, JsonToken>>::token_spec(r, rest, closed, pos, tok),
            JsonRule::Number(r) => <NumberRule as LexingRule<Ctx, JsonToken>>::token_spec(r, rest, closed, pos, tok),
            JsonRule::Keyword(r) => <KeywordRule as LexingRule<Ctx, JsonToken>>::token_spec(r, rest, closed, pos, tok),
            JsonRule::Punctuation(r) => <PunctuationRule as LexingRule<Ctx, JsonToken>>::token_spec(r, rest, closed, pos, tok),
            JsonRule::Whitespace(r) => <WhitespaceRule as LexingRule<Ctx, JsonToken>>::token_spec(r, rest, closed, pos, tok),
            JsonRule::Eof(r) => <EofRule as LexingRule<Ctx, JsonToken>>::token_spec(r, rest, closed, pos, tok),
        }
    }

    fn try_match(&self, ctx: &mut Ctx) -> (r: Option<JsonToken>) {
        match self {
            JsonRule::String(r) => r.try_match(ctx),
            JsonRule::Number(r) => r.try_match(ctx),
            JsonRule::Keyword(r) => r.try_match(ctx),
            JsonRule::Punctuation(r) => r.try_match(ctx),
            JsonRule::Whitespace(r) => r.try_match(ctx),
            JsonRule::Eof(r) => r.try_match(ctx),
        }
    }

    fn priority(&self) -> (r: i32) {
        match self {
            JsonRule::String(r) => <StringRule as LexingRule<Ctx, JsonToken>>::priority(r),
            JsonRule::Number(r) => <NumberRule as LexingRule<Ctx, JsonToken>>::priority(r),
            JsonRule::Keyword(r) => <KeywordRule as LexingRule<Ctx, JsonToken>>::priority(r),
            JsonRule::Punctuation(r) => <PunctuationRule as LexingRule<Ctx, JsonToken>>::priority(r),
            JsonRule::Whitespace(r) => <WhitespaceRule as LexingRule<Ctx, JsonToken>>::priority(r),
            JsonRule::Eof(r) => <EofRule as LexingRule<Ctx, JsonToken>>::priority(r),
        }
    }

    fn quick_check(&self, first_char: Option<char>) -> (r: Option<bool>) {
        None
    }
}

/// The JSON rule set: strings, keywords, punctuation, whitespace, and an end
/// marker.
pub fn json_rules() -> (r: Vec<JsonRule>)
    ensures
        r@.len() == 6,
        r@[0] is String,
        r@[1] is Number,
        r@[2] is Keyword,
        r@[3] is Punctuation,
        r@[4] is Whitespace,
        r@[5] is Eof,
{
    let mut rules: Vec<JsonRule> = Vec::new();
    rules.push(JsonRule::String(StringRule));
    rules.push(JsonRule::Number(NumberRule));
    rules.push(JsonRule::Keyword(KeywordRule));
    rules.push(JsonRule::Punctuation(PunctuationRule));
    rules.push(JsonRule::Whitespace(WhitespaceRule));
    rules.push(JsonRule::Eof(EofRule));
    rules
}

} // verus!
