use std::collections::hash_map::DefaultHasher;
use std::collections::HashSet;
use std::hash::{Hash, Hasher};

use route_template::diagnostic::{Diagnostic, Level, Note};
use route_template::grammar::{parse_one, Kind, Source};
use route_template::segments::{parse_segment, parse_segments, Segment};
use route_template::span::Span;

fn hash_of(segment: &Segment) -> u64 {
    let mut hasher = DefaultHasher::new();
    segment.hash(&mut hasher);
    hasher.finish()
}

fn placed(start: usize, end: usize, kind: Kind, source: Source, name: &str, index: Option<usize>) -> Segment {
    Segment { span: Span { start, end }, kind, source, name: name.to_string(), index }
}

#[test]
fn segments_are_equal_by_name_alone() {
    let a = placed(1, 4, Kind::Single, Source::Path, "id", Some(0));
    let b = placed(9, 15, Kind::Multi, Source::Query, "id", Some(3));
    let c = placed(1, 4, Kind::Single, Source::Path, "other", Some(0));
    assert!(a == b);
    assert!(b == a);
    assert_eq!(hash_of(&a), hash_of(&b));
    assert!(a != c);
    assert!(!a.identical(&b));
    assert!(a.identical(&a.clone()));
    assert!(!a.identical(&c));
}

#[test]
fn segments_hash_as_their_names_do() {
    let a = placed(1, 4, Kind::Single, Source::Path, "id", Some(0));
    let mut hasher = DefaultHasher::new();
    "id".to_string().hash(&mut hasher);
    assert_eq!(hash_of(&a), hasher.finish());
}

#[test]
fn a_name_used_twice_is_found_in_a_set() {
    let mut seen = HashSet::new();
    assert!(seen.insert(placed(1, 4, Kind::Single, Source::Path, "id", Some(0))));
    assert!(seen.insert(placed(5, 9, Kind::Single, Source::Path, "name", Some(1))));
    assert!(!seen.insert(placed(20, 24, Kind::Single, Source::Data, "id", Some(0))));
    assert_eq!(seen.len(), 2);
}

#[test]
fn every_field_counts_for_identical() {
    let a = placed(1, 4, Kind::Single, Source::Path, "id", Some(0));
    assert!(!a.identical(&placed(2, 4, Kind::Single, Source::Path, "id", Some(0))));
    assert!(!a.identical(&placed(1, 4, Kind::Multi, Source::Path, "id", Some(0))));
    assert!(!a.identical(&placed(1, 4, Kind::Single, Source::Query, "id", Some(0))));
    assert!(!a.identical(&placed(1, 4, Kind::Single, Source::Path, "id", Some(1))));
    assert!(!a.identical(&placed(1, 4, Kind::Single, Source::Path, "id", None)));
    assert!(a.identical(&placed(1, 4, Kind::Single, Source::Path, "id", Some(0))));
}

#[test]
fn a_segment_from_the_grammar_keeps_its_fields() {
    let found = parse_one("<rest..>").unwrap();
    let segment = Segment::from_route(found, Span { start: 3, end: 11 });
    assert!(segment.identical(&placed(3, 11, Kind::Multi, Source::Unknown, "rest", None)));
}

#[test]
fn a_segment_from_an_identifier_is_literal() {
    let segment = Segment::from_ident("name", Span { start: 7, end: 11 });
    assert!(segment.identical(&placed(7, 11, Kind::Static, Source::Unknown, "name", None)));
    let odd = Segment::from_ident("<x>", Span { start: 0, end: 3 });
    assert_eq!(odd.kind, Kind::Static);
    assert_eq!(odd.name, "<x>");
}

#[test]
fn one_piece_at_its_span() {
    let span = Span { start: 1, end: 5 };
    let segment = parse_segment("<id>", span).unwrap();
    assert!(segment.identical(&placed(1, 5, Kind::Single, Source::Unknown, "id", None)));
    let literal = parse_segment("id", Span { start: 1, end: 3 }).unwrap();
    assert!(literal.identical(&placed(1, 3, Kind::Static, Source::Unknown, "id", None)));
}

#[test]
fn one_refused_piece_is_marked_whole() {
    let span = Span { start: 1, end: 4 };
    let diagnostic = parse_segment("<a", Span { start: 1, end: 3 }).unwrap_err();
    assert_eq!(
        diagnostic,
        Diagnostic {
            level: Level::Error,
            span: Span { start: 1, end: 3 },
            message: "parameter is missing a closing bracket".to_string(),
            children: vec![Note {
                level: Level::Help,
                span: None,
                message: "did you mean '<a>'?".to_string(),
            }],
        }
    );
    let diagnostic = parse_segment("<_>", span).unwrap_err();
    assert_eq!(diagnostic.span, span);
    assert_eq!(diagnostic.message, "parameters must be named");
}

#[test]
fn segments_of_a_path_with_their_spans() {
    let segments = parse_segments("a/<b>/<c..>", '/', Source::Path, Span { start: 1, end: 12 }).unwrap();
    assert_eq!(segments.len(), 3);
    assert!(segments[0].identical(&placed(1, 2, Kind::Static, Source::Path, "a", Some(0))));
    assert!(segments[1].identical(&placed(3, 6, Kind::Single, Source::Path, "b", Some(1))));
    assert!(segments[2].identical(&placed(7, 12, Kind::Multi, Source::Path, "c", Some(2))));
}

#[test]
fn spans_of_segments_count_bytes() {
    let segments = parse_segments("/\u{e9}\u{e9}/<b>", '/', Source::Path, Span { start: 10, end: 19 }).unwrap();
    assert_eq!(segments.len(), 2);
    assert!(segments[0].identical(&placed(11, 15, Kind::Static, Source::Path, "\u{e9}\u{e9}", Some(0))));
    assert!(segments[1].identical(&placed(16, 19, Kind::Single, Source::Path, "b", Some(1))));
}

#[test]
fn trailing_text_is_reported_and_ends_the_search() {
    let diagnostics = parse_segments("a/<b..>/c/<>", '/', Source::Path, Span { start: 1, end: 13 }).unwrap_err();
    assert_eq!(diagnostics.len(), 1);
    assert_eq!(diagnostics[0].message, "unexpected trailing text after a '..' param");
    assert_eq!(diagnostics[0].span, Span { start: 9, end: 13 });
    assert_eq!(diagnostics[0].children[1].span, Some(Span { start: 3, end: 8 }));
}

#[test]
fn every_refused_piece_is_reported() {
    let diagnostics = parse_segments("<>/ok/<1a>/x%", '/', Source::Path, Span { start: 0, end: 13 }).unwrap_err();
    let messages: Vec<&str> = diagnostics.iter().map(|d| d.message.as_str()).collect();
    assert_eq!(
        messages,
        vec![
            "parameter names cannot be empty",
            "`1a` is not a valid identifier",
            "component contains invalid URI characters",
        ]
    );
    let spans: Vec<Span> = diagnostics.iter().map(|d| d.span).collect();
    assert_eq!(
        spans,
        vec![Span { start: 0, end: 2 }, Span { start: 6, end: 10 }, Span { start: 11, end: 13 }]
    );
}

#[test]
fn no_piece_gives_no_segment() {
    assert_eq!(parse_segments("/", '/', Source::Path, Span { start: 1, end: 2 }).unwrap().len(), 0);
    assert_eq!(parse_segments("", '&', Source::Query, Span { start: 1, end: 1 }).unwrap().len(), 0);
}
