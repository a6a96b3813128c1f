//! Source ranges, and the ranges of slices of a text whose own range is known.

use vstd::prelude::*;
use crate::text::{byte_len, byte_offset, byte_offset_of, lemma_byte_offset_monotonic, Piece};

verus! {

/// A range of the declaration's source text, in byte offsets: from `start` up
/// to, and not including, `end`.
#[derive(Clone, Copy, Debug, PartialEq, Eq, Hash, Structural)]
pub struct Span {
    pub start: usize,
    pub end: usize,
}

impl Span {
    /// The number of bytes in the range; none where `end` lies before `start`.
    pub open spec fn len(self) -> nat {
        if self.start <= self.end {
            (self.end - self.start) as nat
        } else {
            0
        }
    }

    /// The part of the range from its offset `lo` up to its offset `hi`, where
    /// that lies inside the range.
    pub open spec fn sub(self, lo: int, hi: int) -> Option<Span> {
        if 0 <= lo <= hi <= self.len() {
            Some(Span { start: (self.start + lo) as usize, end: (self.start + hi) as usize })
        } else {
            None
        }
    }

    /// The part of the range from its offset `lo` to its end.
    pub open spec fn sub_from(self, lo: int) -> Option<Span> {
        self.sub(lo, self.len() as int)
    }

    /// The number of bytes in the range.
    pub fn length(&self) -> (r: usize)
        ensures
            r == self.len(),
    {
        if self.start <= self.end {
            self.end - self.start
        } else {
            0
        }
    }

    /// The part of the range between the offsets `lo` and `hi`, or `None` where
    /// these do not lie, in this order, inside the range.
    pub fn subspan(&self, lo: usize, hi: usize) -> (r: Option<Span>)
        ensures
            r == self.sub(lo as int, hi as int),
    {
        let len: usize = self.length();
        if lo <= hi && hi <= len {
            Some(Span { start: self.start + lo, end: self.start + hi })
        } else {
            None
        }
    }

    /// The part of the range from the offset `lo` to its end, or `None` where
    /// `lo` lies beyond the end.
    pub fn subspan_from(&self, lo: usize) -> (r: Option<Span>)
        ensures
            r == self.sub_from(lo as int),
    {
        self.subspan(lo, self.length())
    }
}

/// The range of the slice `needle` of a text whose own range is `span`.
pub open spec fn subspan_of(needle: Piece, haystack: Seq<char>, span: Span) -> Option<Span> {
    span.sub(
        byte_offset_of(haystack, needle.start as int) as int,
        byte_offset_of(haystack, needle.end as int) as int,
    )
}

/// The range from the start of the slice `needle` to the end of `span`:
/// the slice and all that follows it.
pub open spec fn trailspan_of(needle: Piece, haystack: Seq<char>, span: Span) -> Option<Span> {
    span.sub_from(byte_offset_of(haystack, needle.start as int) as int)
}

/// The source range of the slice `needle` of `haystack`, whose own range is
/// `span`. It is found from the slice's offsets alone, so text that occurs
/// twice in `haystack` is told apart. `None` where `span` is too short to
/// hold the slice.
pub fn subspan(needle: Piece, haystack: &str, span: Span) -> (r: Option<Span>)
    requires
        needle.within(haystack@),
    ensures
        r == subspan_of(needle, haystack@, span),
{
    let lo = byte_offset(haystack, needle.start);
    let hi = byte_offset(haystack, needle.end);
    span.subspan(lo, hi)
}

/// The source range from the start of the slice `needle` of `haystack` to
/// the end of `span`, the range of `haystack`: the slice and all that follows
/// it. `None` where `span` ends before the slice starts.
pub fn trailspan(needle: Piece, haystack: &str, span: Span) -> (r: Option<Span>)
    requires
        needle.within(haystack@),
    ensures
        r == trailspan_of(needle, haystack@, span),
{
    span.subspan_from(byte_offset(haystack, needle.start))
}

/// A range that holds a text holds every slice of it.
pub proof fn lemma_spans_exist(needle: Piece, haystack: Seq<char>, span: Span)
    requires
        needle.within(haystack),
        byte_len(haystack) <= span.len(),
    ensures
        subspan_of(needle, haystack, span) is Some,
        trailspan_of(needle, haystack, span) is Some,
{
    lemma_byte_offset_monotonic(haystack, needle.start as int, needle.end as int);
    lemma_byte_offset_monotonic(haystack, 0, needle.start as int);
}

} // verus!
