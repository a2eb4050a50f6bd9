use std::sync::Arc;
use vstd::prelude::*;

verus! {

/// Relies on `Arc::clone` from std: the new handle refers to the same value.
#[verifier::external_body]
pub(crate) fn arc_clone<T>(a: &Arc<T>) -> (r: Arc<T>)
    ensures
        r == *a,
{
    Arc::clone(a)
}

/// Relies on `char::to_string` from std: the string holding exactly the
/// character itself.
#[verifier::external_body]
pub(crate) fn char_to_string(c: char) -> (s: String)
    ensures
        s@ == seq![c],
{
    c.to_string()
}

/// An immutable slice of a shared text buffer, identified by a character range.
///
/// The slice keeps the buffer alive through an `Arc`, so it can be cloned and
/// passed around freely; its view is the sequence of characters it covers.
#[derive(Debug)]
pub struct TextSlice {
    buffer: Arc<String>,
    start: usize,
    end: usize,
}

impl View for TextSlice {
    type V = Seq<char>;

    closed spec fn view(&self) -> Seq<char> {
        self.buffer@.subrange(self.start as int, self.end as int)
    }
}

impl TextSlice {
    #[verifier::type_invariant]
    spec fn type_wf(&self) -> bool {
        self.start <= self.end && self.end as int <= self.buffer@.len()
    }

    /// The full shared buffer this slice points into.
    pub closed spec fn buffer_spec(&self) -> Seq<char> {
        self.buffer@
    }

    /// The character index where the slice begins.
    pub closed spec fn start_spec(&self) -> int {
        self.start as int
    }

    /// The character index where the slice ends.
    pub closed spec fn end_spec(&self) -> int {
        self.end as int
    }

    /// A slice of `buffer` covering the character range `start..end`.
    pub fn new(buffer: Arc<String>, start: usize, end: usize) -> (s: TextSlice)
        requires
            start <= end,
            end as int <= buffer@.len(),
        ensures
            s@ == buffer@.subrange(start as int, end as int),
            s.buffer_spec() == buffer@,
            s.start_spec() == start,
            s.end_spec() == end,
    {
        TextSlice { buffer, start, end }
    }

    /// A slice covering the entire buffer.
    pub fn from_arc(buffer: Arc<String>) -> (s: TextSlice)
        ensures
            s@ == buffer@,
            s.buffer_spec() == buffer@,
            s.start_spec() == 0,
            s.end_spec() == buffer@.len(),
    {
        let end = buffer.as_str().unicode_len();
        let s = TextSlice { buffer, start: 0, end };
        proof {
            assert(s@ =~= s.buffer@);
        }
        s
    }

    /// The length of the slice in characters.
    pub fn len(&self) -> (n: usize)
        ensures
            n == self@.len(),
    {
        proof {
            use_type_invariant(self);
        }
        self.end - self.start
    }

    /// Whether the slice covers no characters.
    pub fn is_empty(&self) -> (r: bool)
        ensures
            r == (self@.len() == 0),
    {
        proof {
            use_type_invariant(self);
        }
        self.end == self.start
    }

    /// A new handle on the underlying shared buffer.
    pub fn buffer(&self) -> (b: Arc<String>)
        ensures
            b@ == self.buffer_spec(),
    {
        arc_clone(&self.buffer)
    }

    /// The start of the covered range, as a character index into the buffer.
    pub fn start(&self) -> (r: usize)
        ensures
            r == self.start_spec(),
    {
        self.start
    }

    /// The end of the covered range, as a character index into the buffer.
    pub fn end(&self) -> (r: usize)
        ensures
            r == self.end_spec(),
    {
        self.end
    }

    /// The character at index `i` of the slice.
    pub fn get(&self, i: usize) -> (c: char)
        requires
            i < self@.len(),
        ensures
            c == self@[i as int],
    {
        proof {
            use_type_invariant(self);
        }
        self.buffer.as_str().get_char(self.start + i)
    }

    /// The covered text as a borrowed `&str`.
    pub fn as_str(&self) -> (r: &str)
        ensures
            r@ == self@,
    {
        proof {
            use_type_invariant(self);
        }
        self.buffer.as_str().substring_char(self.start, self.end)
    }

    /// The covered text as an owned `String`.
    pub fn to_string(&self) -> (r: String)
        ensures
            r@ == self@,
    {
        let s: &str = self.as_str();
        s.to_owned()
    }

    /// Whether the slice begins with the characters of `prefix`.
    pub fn starts_with(&self, prefix: &str) -> (r: bool)
        ensures
            r == (prefix@.len() <= self@.len() && self@.take(prefix@.len() as int)
                == prefix@),
    {
        proof {
            use_type_invariant(self);
        }
        let n = prefix.unicode_len();
        let m = self.end - self.start;
        if n > m {
            return false;
        }
        let mut i: usize = 0;
        while i < n
            invariant
                0 <= i <= n,
                n == prefix@.len(),
                n <= self@.len(),
                self.type_wf(),
                forall|j: int| 0 <= j < i ==> self@[j] == prefix@[j],
            decreases n - i,
        {
            let a = self.buffer.as_str().get_char(self.start + i);
            let b = prefix.get_char(i);
            if a != b {
                proof {
                    assert(self@[i as int] != prefix@[i as int]);
                    assert(self@.take(n as int)[i as int] == self@[i as int]);
                }
                return false;
            }
            i = i + 1;
        }
        proof {
            assert(self@.take(n as int) =~= prefix@);
        }
        true
    }

    /// Whether the slice's characters equal the characters of `other`.
    pub fn eq_str(&self, other: &str) -> (r: bool)
        ensures
            r == (self@ == other@),
    {
        proof {
            use_type_invariant(self);
        }
        let n = other.unicode_len();
        let m = self.end - self.start;
        if n != m {
            proof {
                assert(self@.len() != other@.len());
            }
            return false;
        }
        let r = self.starts_with(other);
        proof {
            if r {
                assert(self@.take(n as int) =~= self@);
            } else {
                assert(self@.take(n as int) =~= self@);
            }
        }
        r
    }
}

impl Clone for TextSlice {
    /// A clone covers the same characters of the same buffer.
    fn clone(&self) -> (r: TextSlice)
        ensures
            r@ == self@,
            r.buffer_spec() == self.buffer_spec(),
            r.start_spec() == self.start_spec(),
            r.end_spec() == self.end_spec(),
    {
        proof {
            use_type_invariant(self);
        }
        TextSlice { buffer: arc_clone(&self.buffer), start: self.start, end: self.end }
    }
}

impl PartialEq<&str> for TextSlice {
    /// Slices compare to string slices by their characters.
    fn eq(&self, other: &&str) -> (r: bool) {
        self.eq_str(*other)
    }
}

impl vstd::std_specs::cmp::PartialEqSpecImpl<&str> for TextSlice {
    open spec fn obeys_eq_spec() -> bool {
        true
    }

    open spec fn eq_spec(&self, other: &&str) -> bool {
        self@ == other@
    }
}

impl PartialEq for TextSlice {
    /// Two slices are equal when they cover the same characters.
    fn eq(&self, other: &TextSlice) -> (r: bool) {
        let s: &str = other.as_str();
        self.eq_str(s)
    }
}

impl vstd::std_specs::cmp::PartialEqSpecImpl for TextSlice {
    open spec fn obeys_eq_spec() -> bool {
        true
    }

    open spec fn eq_spec(&self, other: &TextSlice) -> bool {
        self@ == other@
    }
}

impl Eq for TextSlice {

}

} // verus!
