use crate::context::LexContext;
use crate::position::Position;
use vstd::prelude::*;

verus! {

/// The first character of a remaining input, if any: the cheap hint handed to
/// `quick_check`.
pub open spec fn hint_of(rest: Seq<char>) -> Option<char> {
    if rest.len() > 0 {
        Some(rest[0])
    } else {
        None
    }
}

/// A token produced by a lexer. The engine never inspects tokens; these
/// methods serve filtering stages and embedding grammars.
pub trait LexToken: Sized {
    /// Whether this token is reported as whitespace; unless a token type says
    /// otherwise, none is.
    open spec fn whitespace_spec(&self) -> bool {
        false
    }

    /// Whether this token is reported as end-of-input; unless a token type
    /// says otherwise, none is.
    open spec fn eof_spec(&self) -> bool {
        false
    }

    /// Returns the position of this token in the source, if it carries one.
    fn position(&self) -> Option<Position>;

    /// Returns true if this token represents end-of-file.
    fn is_eof(&self) -> (r: bool)
        ensures
            r == self.eof_spec(),
    ;

    /// Returns true if this token represents a newline.
    fn is_newline(&self) -> bool;

    /// Returns true if this token represents whitespace.
    fn is_whitespace(&self) -> (r: bool)
        ensures
            r == self.whitespace_spec(),
    ;

    /// Returns true if this token represents indentation.
    fn is_indent(&self) -> bool;
}

/// A unit matcher: given a context, it may consume input and produce one
/// token, or fail. What it does is pinned by two spec functions: `match_len`
/// says on which remaining inputs it succeeds and how far it advances, and
/// `token_spec` describes the token it hands back.
pub trait LexingRule<Ctx: LexContext, Tok>: Sized {
    /// The rule's priority; higher priorities are tried first. A rule type
    /// that overrides `priority` states its value by overriding this too.
    open spec fn priority_spec(&self) -> int {
        0
    }

    /// What `quick_check` answers for a given first character; unless a rule
    /// type says otherwise, it answers nothing.
    open spec fn quick_spec(&self, first_char: Option<char>) -> Option<bool> {
        None
    }

    /// On the remaining input `rest` (with `closed` saying whether more input
    /// could still arrive), how many characters the rule consumes, or `None`
    /// if it does not match. A rule type states its matching behavior by
    /// overriding this; one that does not is described as never matching.
    open spec fn match_len(&self, rest: Seq<char>, closed: bool) -> Option<int> {
        None
    }

    /// Relates the token produced on a successful match to the remaining
    /// input, the closed flag, and the position at the start of the match.
    open spec fn token_spec(&self, rest: Seq<char>, closed: bool, pos: Position, tok: Tok) -> bool {
        true
    }

    /// Attempts to match a token at the context's place. On failure the
    /// context may have moved; the engine restores it from a checkpoint.
    /// A match is pinned by `match_len` and `token_spec`, and never consumes
    /// more than the input that is there.
    fn try_match(&self, ctx: &mut Ctx) -> (r: Option<Tok>)
        requires
            0 <= old(ctx).index_spec() <= old(ctx).input().len(),
        ensures
            final(ctx).input() == old(ctx).input(),
            final(ctx).closed_spec() == old(ctx).closed_spec(),
            0 <= final(ctx).index_spec() <= final(ctx).input().len(),
            match self.match_len(
                old(ctx).input().skip(old(ctx).index_spec()),
                old(ctx).closed_spec(),
            ) {
                None => r is None,
                Some(n) => {
                    &&& r matches Some(t) && self.token_spec(
                        old(ctx).input().skip(old(ctx).index_spec()),
                        old(ctx).closed_spec(),
                        crate::position::pos_of(old(ctx).input().take(old(ctx).index_spec())),
                        t,
                    )
                    &&& final(ctx).index_spec() == old(ctx).index_spec() + n
                    &&& 0 <= n <= old(ctx).input().skip(old(ctx).index_spec()).len()
                },
            },
    ;

    /// The rule's priority. Higher priority rules are tried first.
    fn priority(&self) -> (r: i32)
        ensures
            r as int == self.priority_spec(),
    ;

    /// A cheap pre-filter on the first character: `Some(false)` promises that
    /// `try_match` would fail on any input starting that way (quick-check
    /// soundness), `Some(true)` that it might succeed, `None` that nothing is
    /// known without a full attempt.
    fn quick_check(&self, first_char: Option<char>) -> (r: Option<bool>)
        ensures
            r == self.quick_spec(first_char),
            r == Some(false) ==> forall|rest: Seq<char>, closed: bool|
                hint_of(rest) == first_char ==> (#[trigger] self.match_len(rest, closed))
                    is None,
    ;
}

} // verus!
