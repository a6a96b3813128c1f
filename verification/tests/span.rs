use route_template::span::{subspan, trailspan, Span};
use route_template::text::{byte_length, byte_offset, chars_of, Piece};

#[test]
fn part_of_a_span() {
    let span = Span { start: 10, end: 20 };
    assert_eq!(span.length(), 10);
    assert_eq!(span.subspan(2, 5), Some(Span { start: 12, end: 15 }));
    assert_eq!(span.subspan(0, 10), Some(span));
    assert_eq!(span.subspan(10, 10), Some(Span { start: 20, end: 20 }));
    assert_eq!(span.subspan(2, 11), None);
    assert_eq!(span.subspan(5, 2), None);
    assert_eq!(span.subspan_from(3), Some(Span { start: 13, end: 20 }));
    assert_eq!(span.subspan_from(10), Some(Span { start: 20, end: 20 }));
    assert_eq!(span.subspan_from(11), None);
}

#[test]
fn a_span_that_ends_before_it_starts_is_empty() {
    let span = Span { start: 7, end: 3 };
    assert_eq!(span.length(), 0);
    assert_eq!(span.subspan(0, 0), Some(Span { start: 7, end: 7 }));
    assert_eq!(span.subspan(0, 1), None);
    assert_eq!(span.subspan_from(0), Some(Span { start: 7, end: 7 }));
}

#[test]
fn span_of_a_slice() {
    let haystack = "a/<b>/<c..>";
    let span = Span { start: 11, end: 22 };
    assert_eq!(subspan(Piece { start: 2, end: 5 }, haystack, span), Some(Span { start: 13, end: 16 }));
    assert_eq!(subspan(Piece { start: 0, end: 11 }, haystack, span), Some(span));
    assert_eq!(subspan(Piece { start: 11, end: 11 }, haystack, span), Some(Span { start: 22, end: 22 }));
}

#[test]
fn text_that_occurs_twice_is_told_apart() {
    let haystack = "a/a";
    let span = Span { start: 5, end: 8 };
    assert_eq!(subspan(Piece { start: 0, end: 1 }, haystack, span), Some(Span { start: 5, end: 6 }));
    assert_eq!(subspan(Piece { start: 2, end: 3 }, haystack, span), Some(Span { start: 7, end: 8 }));
}

#[test]
fn spans_are_measured_in_bytes() {
    let haystack = "\u{e9}/b\u{4e16}";
    let span = Span { start: 0, end: 7 };
    assert_eq!(byte_length(haystack), 7);
    assert_eq!(byte_offset(haystack, 0), 0);
    assert_eq!(byte_offset(haystack, 1), 2);
    assert_eq!(byte_offset(haystack, 2), 3);
    assert_eq!(byte_offset(haystack, 4), 7);
    assert_eq!(subspan(Piece { start: 2, end: 4 }, haystack, span), Some(Span { start: 3, end: 7 }));
    assert_eq!(trailspan(Piece { start: 2, end: 3 }, haystack, span), Some(Span { start: 3, end: 7 }));
    assert_eq!(chars_of(haystack), vec!['\u{e9}', '/', 'b', '\u{4e16}']);
}

#[test]
fn a_span_too_short_holds_no_slice() {
    let haystack = "a/bcd";
    let span = Span { start: 0, end: 3 };
    assert_eq!(subspan(Piece { start: 2, end: 5 }, haystack, span), None);
    assert_eq!(subspan(Piece { start: 2, end: 3 }, haystack, span), Some(Span { start: 2, end: 3 }));
    assert_eq!(trailspan(Piece { start: 5, end: 5 }, haystack, span), None);
}

#[test]
fn trailing_span_runs_from_the_slice_to_the_end() {
    let haystack = "a/<b..>/c/d";
    let span = Span { start: 1, end: 12 };
    assert_eq!(trailspan(Piece { start: 8, end: 9 }, haystack, span), Some(Span { start: 9, end: 12 }));
    assert_eq!(trailspan(Piece { start: 2, end: 7 }, haystack, span), Some(Span { start: 3, end: 12 }));
    assert_eq!(trailspan(Piece { start: 11, end: 11 }, haystack, span), Some(Span { start: 12, end: 12 }));
}

#[test]
fn trailing_span_from_the_start_of_the_text() {
    let haystack = "a/<b..>/c";
    let span = Span { start: 1, end: 10 };
    assert_eq!(trailspan(Piece { start: 0, end: 1 }, haystack, span), Some(span));
}
