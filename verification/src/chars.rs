use vstd::prelude::*;

verus! {

/// Whether `c` is an ASCII digit.
pub open spec fn is_digit_char(c: char) -> bool {
    48 <= (c as u32) && (c as u32) <= 57
}

/// Decides `is_digit_char`.
pub fn char_is_digit(c: char) -> (r: bool)
    ensures
        r == is_digit_char(c),
{
    let u = c as u32;
    48 <= u && u <= 57
}

/// Whether `c` has the Unicode White_Space property.
pub open spec fn is_space_char(c: char) -> bool {
    ||| (0x9 <= (c as u32) && (c as u32) <= 0xD)
    ||| (c as u32) == 0x20
    ||| (c as u32) == 0x85
    ||| (c as u32) == 0xA0
    ||| (c as u32) == 0x1680
    ||| (0x2000 <= (c as u32) && (c as u32) <= 0x200A)
    ||| (c as u32) == 0x2028
    ||| (c as u32) == 0x2029
    ||| (c as u32) == 0x202F
    ||| (c as u32) == 0x205F
    ||| (c as u32) == 0x3000
}

/// Decides `is_space_char`.
pub fn char_is_space(c: char) -> (r: bool)
    ensures
        r == is_space_char(c),
{
    let u = c as u32;
    (0x9 <= u && u <= 0xD) || u == 0x20 || u == 0x85 || u == 0xA0 || u == 0x1680 || (0x2000 <= u
        && u <= 0x200A) || u == 0x2028 || u == 0x2029 || u == 0x202F || u == 0x205F || u == 0x3000
}

/// What `char::is_alphabetic` returns: a function of the character alone.
pub uninterp spec fn is_alpha_char(c: char) -> bool;

/// What `char::is_numeric` returns: a function of the character alone.
pub uninterp spec fn is_numeric_char(c: char) -> bool;

/// Whether `c` is alphanumeric: alphabetic or numeric, as std defines it.
pub open spec fn is_alnum_char(c: char) -> bool {
    is_alpha_char(c) || is_numeric_char(c)
}

/// Relies on `char::is_alphabetic` from std: whether the character is in one
/// of the Unicode letter categories, a property of the character alone.
#[verifier::external_body]
pub fn char_is_alphabetic(c: char) -> (r: bool)
    ensures
        r == is_alpha_char(c),
{
    c.is_alphabetic()
}

/// Relies on `char::is_alphanumeric` from std: true exactly when the
/// character is alphabetic or numeric.
#[verifier::external_body]
pub fn char_is_alphanumeric(c: char) -> (r: bool)
    ensures
        r == (is_alpha_char(c) || is_numeric_char(c)),
{
    c.is_alphanumeric()
}

/// The length of the longest prefix of `rest` whose characters all satisfy `pred`.
pub open spec fn take_while_len(rest: Seq<char>, pred: spec_fn(char) -> bool) -> int
    decreases rest.len(),
{
    if rest.len() == 0 || !pred(rest[0]) {
        0
    } else {
        1 + take_while_len(rest.drop_first(), pred)
    }
}

/// A stretch of `m` satisfying characters followed by a failing one (or the
/// end of the input) pins the longest satisfying prefix at exactly `m`.
pub proof fn lemma_take_while_exact(rest: Seq<char>, pred: spec_fn(char) -> bool, m: int)
    requires
        0 <= m <= rest.len(),
        forall|i: int| 0 <= i < m ==> pred(#[trigger] rest[i]),
        m < rest.len() ==> !pred(rest[m]),
    ensures
        take_while_len(rest, pred) == m,
    decreases m,
{
    if m == 0 {
    } else {
        assert(pred(rest[0]));
        lemma_take_while_exact(rest.drop_first(), pred, m - 1);
    }
}

/// `p` is an initial segment of `s`.
pub open spec fn is_prefix_of(p: Seq<char>, s: Seq<char>) -> bool {
    p.len() <= s.len() && s.take(p.len() as int) == p
}

} // verus!
