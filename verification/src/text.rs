//! Text as a sequence of characters, and the byte offsets that source ranges
//! are measured in.

use vstd::prelude::*;
use vstd::utf8::encode_utf8;

verus! {

/// A contiguous slice of a text: the offset of its first character and the
/// offset after its last one, both counted in characters.
#[derive(Clone, Copy, Debug, PartialEq, Eq, Hash, Structural)]
pub struct Piece {
    pub start: usize,
    pub end: usize,
}

impl Piece {
    /// Whether the slice lies inside `text`.
    pub open spec fn within(self, text: Seq<char>) -> bool {
        self.start <= self.end <= text.len()
    }

    /// The characters of `text` that the slice covers.
    pub open spec fn of(self, text: Seq<char>) -> Seq<char> {
        text.subrange(self.start as int, self.end as int)
    }
}

/// The number of bytes that `s` takes in UTF-8.
pub open spec fn byte_len(s: Seq<char>) -> nat {
    encode_utf8(s).len()
}

/// The byte offset in `s` of the character at offset `at`.
pub open spec fn byte_offset_of(s: Seq<char>, at: int) -> nat {
    byte_len(s.subrange(0, at))
}

/// Byte lengths add up under concatenation.
pub proof fn lemma_byte_len_concat(a: Seq<char>, b: Seq<char>)
    ensures
        byte_len(a + b) == byte_len(a) + byte_len(b),
    decreases a.len(),
{
    if a.len() == 0 {
        assert(a + b =~= b);
    } else {
        assert((a + b).drop_first() =~= a.drop_first() + b);
        lemma_byte_len_concat(a.drop_first(), b);
    }
}

/// Byte offsets grow with character offsets, and end at the text's byte length.
pub proof fn lemma_byte_offset_monotonic(s: Seq<char>, i: int, j: int)
    requires
        0 <= i <= j <= s.len(),
    ensures
        byte_offset_of(s, i) + byte_len(s.subrange(i, j)) == byte_offset_of(s, j),
        byte_offset_of(s, j) <= byte_len(s),
        byte_offset_of(s, s.len() as int) == byte_len(s),
{
    assert(s.subrange(0, i) + s.subrange(i, j) =~= s.subrange(0, j));
    lemma_byte_len_concat(s.subrange(0, i), s.subrange(i, j));
    assert(s.subrange(0, j) + s.subrange(j, s.len() as int) =~= s);
    lemma_byte_len_concat(s.subrange(0, j), s.subrange(j, s.len() as int));
    assert(s.subrange(0, s.len() as int) =~= s);
}

/// The characters of `s`, one by one.
pub fn chars_of(s: &str) -> (v: Vec<char>)
    ensures
        v@ == s@,
{
    let mut v: Vec<char> = Vec::new();
    for c in it: s.chars()
        invariant
            v@ == it.seq().take(it.index() as int),
            it.seq() == s@,
    {
        v.push(c);
    }
    v
}

/// The number of bytes that `s` takes in UTF-8.
pub fn byte_length(s: &str) -> (r: usize)
    ensures
        r == byte_len(s@),
{
    s.as_bytes().len()
}

/// The byte offset in `text` of the character at offset `at`.
pub fn byte_offset(text: &str, at: usize) -> (r: usize)
    requires
        at <= text@.len(),
    ensures
        r == byte_offset_of(text@, at as int),
{
    text.substring_char(0, at).as_bytes().len()
}

} // verus!
