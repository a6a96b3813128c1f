use route_template::grammar::{Error, Kind, RouteSegment, Source};
use route_template::splitter::{parse_many, Failure, Splitter};
use route_template::text::Piece;

fn segment(string: &str, start: usize, kind: Kind, source: Source, name: &str, index: usize) -> RouteSegment {
    RouteSegment {
        string: string.to_string(),
        at: Piece { start, end: start + string.chars().count() },
        kind,
        source,
        name: name.to_string(),
        index: Some(index),
    }
}

#[test]
fn splits_a_path_into_its_segments() {
    let items = parse_many("a/<b>/<c..>", '/', Source::Path);
    assert_eq!(
        items,
        vec![
            Ok(segment("a", 0, Kind::Static, Source::Path, "a", 0)),
            Ok(segment("<b>", 2, Kind::Single, Source::Path, "b", 1)),
            Ok(segment("<c..>", 6, Kind::Multi, Source::Path, "c", 2)),
        ]
    );
}

#[test]
fn stops_at_what_trails_a_multi_parameter() {
    let items = parse_many("a/<b..>/c", '/', Source::Path);
    assert_eq!(
        items,
        vec![
            Ok(segment("a", 0, Kind::Static, Source::Path, "a", 0)),
            Ok(segment("<b..>", 2, Kind::Multi, Source::Path, "b", 1)),
            Err(Failure {
                string: "c".to_string(),
                piece: Piece { start: 8, end: 9 },
                error: Error::TrailingAfterMulti("b".to_string(), Piece { start: 2, end: 7 }),
            }),
        ]
    );
}

#[test]
fn nothing_comes_after_the_trailing_piece() {
    let items = parse_many("<b..>/c/d/<e>", '/', Source::Path);
    assert_eq!(items.len(), 2);
    assert!(items[0].is_ok());
    assert_eq!(
        items[1],
        Err(Failure {
            string: "c".to_string(),
            piece: Piece { start: 6, end: 7 },
            error: Error::TrailingAfterMulti("b".to_string(), Piece { start: 0, end: 5 }),
        })
    );
}

#[test]
fn a_multi_parameter_may_close_the_text() {
    let items = parse_many("/a/<b..>", '/', Source::Path);
    assert_eq!(
        items,
        vec![
            Ok(segment("a", 1, Kind::Static, Source::Path, "a", 0)),
            Ok(segment("<b..>", 3, Kind::Multi, Source::Path, "b", 1)),
        ]
    );
    let items = parse_many("/a/<b..>/", '/', Source::Path);
    assert_eq!(items.len(), 2);
}

#[test]
fn empty_pieces_are_passed_over() {
    let items = parse_many("/a//b/", '/', Source::Path);
    assert_eq!(
        items,
        vec![
            Ok(segment("a", 1, Kind::Static, Source::Path, "a", 0)),
            Ok(segment("b", 4, Kind::Static, Source::Path, "b", 1)),
        ]
    );
    assert_eq!(parse_many("", '/', Source::Path), vec![]);
    assert_eq!(parse_many("/", '/', Source::Path), vec![]);
    assert_eq!(parse_many("///", '/', Source::Path), vec![]);
}

#[test]
fn a_refused_piece_does_not_end_the_sequence() {
    let items = parse_many("<>&b&<1>&c+", '&', Source::Query);
    assert_eq!(
        items,
        vec![
            Err(Failure {
                string: "<>".to_string(),
                piece: Piece { start: 0, end: 2 },
                error: Error::Empty,
            }),
            Ok(segment("b", 3, Kind::Static, Source::Query, "b", 1)),
            Err(Failure {
                string: "<1>".to_string(),
                piece: Piece { start: 5, end: 8 },
                error: Error::InvalidIdentifier("1".to_string()),
            }),
            Err(Failure {
                string: "c+".to_string(),
                piece: Piece { start: 9, end: 11 },
                error: Error::InvalidCharacters,
            }),
        ]
    );
}

#[test]
fn the_separator_is_the_callers() {
    let items = parse_many("a/b&c", '&', Source::Query);
    assert_eq!(
        items,
        vec![
            Ok(segment("a/b", 0, Kind::Static, Source::Query, "a/b", 0)),
            Ok(segment("c", 4, Kind::Static, Source::Query, "c", 1)),
        ]
    );
}

#[test]
fn offsets_count_characters() {
    let items = parse_many("\u{e9}/<b>", '/', Source::Path);
    assert_eq!(
        items,
        vec![
            Ok(segment("\u{e9}", 0, Kind::Static, Source::Path, "\u{e9}", 0)),
            Ok(segment("<b>", 2, Kind::Single, Source::Path, "b", 1)),
        ]
    );
}

#[test]
fn the_splitter_hands_out_one_item_at_a_time() {
    let mut splitter = Splitter::new("a/<b..>/c/d", '/', Source::Path);
    assert_eq!(splitter.next(), Some(Ok(segment("a", 0, Kind::Static, Source::Path, "a", 0))));
    assert_eq!(
        splitter.next(),
        Some(Ok(segment("<b..>", 2, Kind::Multi, Source::Path, "b", 1)))
    );
    let third = splitter.next();
    assert!(matches!(third, Some(Err(Failure { error: Error::TrailingAfterMulti(_, _), .. }))));
    assert_eq!(splitter.next(), None);
    assert_eq!(splitter.next(), None);
}

#[test]
fn a_splitter_can_be_started_again() {
    let first: Vec<_> = parse_many("x/<y>", '/', Source::Path);
    let mut again = Splitter::new("x/<y>", '/', Source::Path);
    let mut second = Vec::new();
    while let Some(item) = again.next() {
        second.push(item);
    }
    assert_eq!(first, second);
}

fn written(segment: &RouteSegment) -> String {
    match segment.kind {
        Kind::Static => segment.name.clone(),
        Kind::Single => format!("<{}>", segment.name),
        Kind::Multi => format!("<{}..>", segment.name),
    }
}

#[test]
fn segments_write_the_text_back() {
    for text in ["a/<b>/<c..>", "a", "<x>", "users/<id>/posts/<rest..>"] {
        let items = parse_many(text, '/', Source::Path);
        let pieces: Vec<String> = items.iter().map(|item| written(item.as_ref().unwrap())).collect();
        assert_eq!(pieces.join("/"), text);
    }
    let items = parse_many("/a/<b>", '/', Source::Path);
    let pieces: Vec<String> = items.iter().map(|item| written(item.as_ref().unwrap())).collect();
    assert_eq!(format!("/{}", pieces.join("/")), "/a/<b>");
}

#[test]
fn names_of_literal_segments_write_the_text_back() {
    let text = "a&b=c&d";
    let items = parse_many(text, '&', Source::Query);
    let names: Vec<String> = items.iter().map(|item| item.as_ref().unwrap().name.clone()).collect();
    assert_eq!(names.join("&"), text);
}
