use vstd::prelude::*;

verus! {

/// A location in the scanned input: 1-based line and column, 0-based byte offset.
#[derive(Debug, Clone, Copy, PartialEq, Eq, Hash, Structural)]
pub struct Position {
    /// Line number (1-indexed).
    pub line: usize,
    /// Column number (1-indexed).
    pub column: usize,
    /// Byte offset from the start of the input.
    pub offset: usize,
}

impl Position {
    /// The position at the start of the input.
    pub fn new() -> (p: Position)
        ensures
            p == start_position(),
    {
        Position { line: 1, column: 1, offset: 0 }
    }

    /// A position with the given coordinates.
    pub fn at(line: usize, column: usize, offset: usize) -> (p: Position)
        ensures
            p.line == line,
            p.column == column,
            p.offset == offset,
    {
        Position { line, column, offset }
    }
}

impl Default for Position {
    /// The default position is the start of the input.
    fn default() -> (p: Position)
        ensures
            p == start_position(),
    {
        Position::new()
    }
}

/// The position before anything has been consumed: line 1, column 1, offset 0.
pub open spec fn start_position() -> Position {
    Position { line: 1, column: 1, offset: 0 }
}

/// The number of bytes the UTF-8 encoding of `c` takes.
pub open spec fn char_width(c: char) -> int {
    if (c as u32) < 0x80 {
        1
    } else if (c as u32) < 0x800 {
        2
    } else if (c as u32) < 0x10000 {
        3
    } else {
        4
    }
}

/// The number of bytes the UTF-8 encoding of `s` takes.
pub open spec fn byte_len(s: Seq<char>) -> int
    decreases s.len(),
{
    if s.len() == 0 {
        0
    } else {
        char_width(s[0]) + byte_len(s.drop_first())
    }
}

/// The 1-based line number after consuming `s`: one more than the newlines seen.
pub open spec fn line_after(s: Seq<char>) -> int
    decreases s.len(),
{
    if s.len() == 0 {
        1
    } else {
        line_after(s.drop_last()) + if s.last() == '\n' {
            1int
        } else {
            0int
        }
    }
}

/// The 1-based column after consuming `s`: one more than the characters since
/// the last newline.
pub open spec fn col_after(s: Seq<char>) -> int
    decreases s.len(),
{
    if s.len() == 0 {
        1
    } else if s.last() == '\n' {
        1
    } else {
        col_after(s.drop_last()) + 1
    }
}

/// `p` is exactly the position reached after consuming the characters of `s`.
pub open spec fn pos_matches(s: Seq<char>, p: Position) -> bool {
    &&& p.line == line_after(s)
    &&& p.column == col_after(s)
    &&& p.offset == byte_len(s)
}

/// Each character takes between one and four bytes.
pub proof fn lemma_byte_len_bounds(s: Seq<char>)
    ensures
        s.len() <= byte_len(s) <= 4 * s.len(),
    decreases s.len(),
{
    if s.len() > 0 {
        lemma_byte_len_bounds(s.drop_first());
    }
}

/// Appending one character adds its width to the byte length.
pub proof fn lemma_byte_len_push(s: Seq<char>, c: char)
    ensures
        byte_len(s.push(c)) == byte_len(s) + char_width(c),
    decreases s.len(),
{
    if s.len() == 0 {
        assert(s.push(c).drop_first() =~= s);
    } else {
        assert(s.push(c).drop_first() =~= s.drop_first().push(c));
        lemma_byte_len_push(s.drop_first(), c);
    }
}

/// How line and column change when one more character is consumed.
pub proof fn lemma_line_col_push(s: Seq<char>, c: char)
    ensures
        line_after(s.push(c)) == line_after(s) + if c == '\n' {
            1int
        } else {
            0int
        },
        col_after(s.push(c)) == if c == '\n' {
            1int
        } else {
            col_after(s) + 1
        },
{
    assert(s.push(c).drop_last() =~= s);
    assert(s.push(c).last() == c);
}

/// Line and column stay within one plus the number of characters consumed.
pub proof fn lemma_line_col_bounds(s: Seq<char>)
    ensures
        1 <= line_after(s) <= s.len() + 1,
        1 <= col_after(s) <= s.len() + 1,
    decreases s.len(),
{
    if s.len() > 0 {
        lemma_line_col_bounds(s.drop_last());
    }
}

/// Byte length distributes over concatenation.
pub proof fn lemma_byte_len_concat(a: Seq<char>, b: Seq<char>)
    ensures
        byte_len(a + b) == byte_len(a) + byte_len(b),
    decreases a.len(),
{
    if a.len() == 0 {
        assert(a + b =~= b);
    } else {
        assert((a + b).drop_first() =~= a.drop_first() + b);
        lemma_byte_len_concat(a.drop_first(), b);
    }
}

/// A prefix never takes more bytes than the whole.
pub proof fn lemma_byte_len_take_le(s: Seq<char>, i: int)
    requires
        0 <= i <= s.len(),
    ensures
        byte_len(s.take(i)) <= byte_len(s),
        byte_len(s) - byte_len(s.take(i)) == byte_len(s.skip(i)),
{
    assert(s.take(i) + s.skip(i) =~= s);
    lemma_byte_len_concat(s.take(i), s.skip(i));
    lemma_byte_len_bounds(s.skip(i));
}

/// A `char` is a Unicode scalar value, so its width class is decided by its range.
proof fn lemma_char_scalar_width(c: char)
    ensures
        vstd::utf8::encode_scalar(c as u32).len() == char_width(c),
{
    let v = c as u32;
    assert(v <= 0x10FFFF && !(0xD800 <= v <= 0xDFFF));
    if vstd::utf8::has_width_1_encoding(v) {
        assert(vstd::utf8::encode_scalar(v).len() == 1);
    } else if vstd::utf8::has_width_2_encoding(v) {
        assert(vstd::utf8::encode_scalar(v).len() == 2);
    } else if vstd::utf8::has_width_3_encoding(v) {
        assert(vstd::utf8::encode_scalar(v).len() == 3);
    } else {
        assert(vstd::utf8::encode_scalar(v).len() == 4);
    }
}

/// The byte length of a character sequence agrees with the length of its UTF-8
/// encoding as vstd defines it, so a `&str`'s byte length is `byte_len` of its view.
pub proof fn lemma_byte_len_is_utf8_len(s: Seq<char>)
    ensures
        byte_len(s) == vstd::utf8::encode_utf8(s).len(),
    decreases s.len(),
{
    if s.len() > 0 {
        lemma_char_scalar_width(s[0]);
        lemma_byte_len_is_utf8_len(s.drop_first());
    }
}

/// The position value reached after consuming `s`.
pub open spec fn pos_of(s: Seq<char>) -> Position {
    Position {
        line: line_after(s) as usize,
        column: col_after(s) as usize,
        offset: byte_len(s) as usize,
    }
}

/// A position that matches `s` is exactly `pos_of(s)`.
pub proof fn lemma_pos_matches_is_pos_of(s: Seq<char>, p: Position)
    requires
        pos_matches(s, p),
    ensures
        p == pos_of(s),
{
}

/// A checkpoint of a scanning context: an index (byte or character offset for
/// character-oriented contexts, token index for token-oriented ones) together
/// with the position recorded there. Only meaningful when handed back to the
/// context it was taken from.
#[derive(Debug, Clone, Copy)]
pub struct Checkpoint {
    index: usize,
    position: Position,
}

impl PartialEq for Checkpoint {
    /// Checkpoints compare, and order, by their index alone.
    fn eq(&self, other: &Checkpoint) -> (r: bool) {
        self.index == other.index
    }
}

impl vstd::std_specs::cmp::PartialEqSpecImpl for Checkpoint {
    open spec fn obeys_eq_spec() -> bool {
        true
    }

    open spec fn eq_spec(&self, other: &Checkpoint) -> bool {
        self.index_spec() == other.index_spec()
    }
}

impl Eq for Checkpoint {

}

impl Checkpoint {
    /// The stored index.
    pub closed spec fn index_spec(&self) -> int {
        self.index as int
    }

    /// The stored position.
    pub closed spec fn pos_spec(&self) -> Position {
        self.position
    }

    /// A checkpoint with the given index and position.
    pub fn new(index: usize, position: Position) -> (c: Checkpoint)
        ensures
            c.index_spec() == index,
            c.pos_spec() == position,
    {
        Checkpoint { index, position }
    }

    /// The index stored in this checkpoint.
    pub fn index(&self) -> (r: usize)
        ensures
            r == self.index_spec(),
    {
        self.index
    }

    /// The position stored in this checkpoint.
    pub fn position(&self) -> (r: Position)
        ensures
            r == self.pos_spec(),
    {
        self.position
    }

    /// The stored index read as a byte offset (an alias for `index`).
    pub fn current(&self) -> (r: usize)
        ensures
            r == self.index_spec(),
    {
        self.index
    }

    /// The stored index read as a token index (an alias for `index`).
    pub fn token_index(&self) -> (r: usize)
        ensures
            r == self.index_spec(),
    {
        self.index
    }
}

} // verus!
