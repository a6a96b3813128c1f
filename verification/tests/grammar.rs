use route_template::grammar::{
    ident_continue, ident_continue_given, ident_start, ident_start_given, parse_one, valid_ident,
    Error, Kind, Source,
};
use route_template::text::Piece;

#[test]
fn static_text_is_taken_verbatim() {
    let segment = parse_one("users").unwrap();
    assert_eq!(segment.kind, Kind::Static);
    assert_eq!(segment.name, "users");
    assert_eq!(segment.string, "users");
    assert_eq!(segment.source, Source::Unknown);
    assert_eq!(segment.index, None);
    assert_eq!(segment.at, Piece { start: 0, end: 5 });
}

#[test]
fn single_parameter() {
    let segment = parse_one("<id>").unwrap();
    assert_eq!(segment.kind, Kind::Single);
    assert_eq!(segment.name, "id");
    assert_eq!(segment.string, "<id>");
}

#[test]
fn multi_parameter() {
    let segment = parse_one("<rest..>").unwrap();
    assert_eq!(segment.kind, Kind::Multi);
    assert_eq!(segment.name, "rest");
    assert_eq!(segment.string, "<rest..>");
    assert_eq!(segment.at, Piece { start: 0, end: 8 });
}

#[test]
fn empty_name_is_refused() {
    assert_eq!(parse_one("<>"), Err(Error::Empty));
    assert_eq!(parse_one("<..>"), Err(Error::Empty));
    assert_eq!(parse_one(""), Err(Error::Empty));
}

#[test]
fn ignored_name_is_refused() {
    assert_eq!(parse_one("<_>"), Err(Error::IgnoredName));
    assert_eq!(parse_one("<_..>"), Err(Error::IgnoredName));
    assert_eq!(parse_one("<_a>").unwrap().name, "_a");
}

#[test]
fn invalid_identifier_is_refused() {
    assert_eq!(parse_one("<1abc>"), Err(Error::InvalidIdentifier("1abc".to_string())));
    assert_eq!(parse_one("<a-b>"), Err(Error::InvalidIdentifier("a-b".to_string())));
    assert_eq!(parse_one("<a.>"), Err(Error::InvalidIdentifier("a.".to_string())));
    assert_eq!(parse_one("<a b..>"), Err(Error::InvalidIdentifier("a b".to_string())));
}

#[test]
fn missing_closing_bracket() {
    assert_eq!(parse_one("<a"), Err(Error::MissingClosingBracket));
    assert_eq!(parse_one("<"), Err(Error::MissingClosingBracket));
}

#[test]
fn malformed_brackets() {
    assert_eq!(parse_one("<a<b>"), Err(Error::Malformed));
    assert_eq!(parse_one("<a>b>"), Err(Error::Malformed));
    assert_eq!(parse_one("<a>b"), Err(Error::Malformed));
    assert_eq!(parse_one("a<b>"), Err(Error::Malformed));
    assert_eq!(parse_one("a>"), Err(Error::Malformed));
    assert_eq!(parse_one(">"), Err(Error::Malformed));
    assert_eq!(parse_one("<<..>"), Err(Error::Malformed));
}

#[test]
fn forbidden_characters_in_literal_text() {
    assert_eq!(parse_one("a%20b"), Err(Error::InvalidCharacters));
    assert_eq!(parse_one("a+b"), Err(Error::InvalidCharacters));
    assert_eq!(parse_one("a=b").unwrap().kind, Kind::Static);
}

#[test]
fn identifiers() {
    assert!(valid_ident("a"));
    assert!(valid_ident("_"));
    assert!(valid_ident("_a1"));
    assert!(valid_ident("Abc_9"));
    assert!(!valid_ident(""));
    assert!(!valid_ident("9a"));
    assert!(!valid_ident("a-b"));
    assert!(!valid_ident("a.."));
}

#[test]
fn names_beyond_ascii() {
    let segment = parse_one("<\u{f1}ame>").unwrap();
    assert_eq!(segment.kind, Kind::Single);
    assert_eq!(segment.name, "\u{f1}ame");
    let segment = parse_one("<\u{540d}\u{524d}..>").unwrap();
    assert_eq!(segment.kind, Kind::Multi);
    assert_eq!(segment.name, "\u{540d}\u{524d}");
    assert_eq!(segment.at, Piece { start: 0, end: 6 });
    assert!(valid_ident("a\u{661}"));
    assert!(!valid_ident("\u{661}a"));
    assert_eq!(parse_one("<\u{661}>"), Err(Error::InvalidIdentifier("\u{661}".to_string())));
    assert!(!valid_ident("a\u{2014}b"));
    assert!(!valid_ident("\u{a0}"));
}

#[test]
fn text_beyond_ascii_is_literal() {
    let segment = parse_one("caf\u{e9}").unwrap();
    assert_eq!(segment.kind, Kind::Static);
    assert_eq!(segment.name, "caf\u{e9}");
    assert_eq!(segment.at, Piece { start: 0, end: 4 });
}

#[test]
fn characters_of_names() {
    assert!(ident_start('a'));
    assert!(ident_start('Z'));
    assert!(ident_start('_'));
    assert!(ident_start('\u{e9}'));
    assert!(!ident_start('0'));
    assert!(!ident_start('<'));
    assert!(!ident_start('\u{661}'));
    assert!(ident_continue('0'));
    assert!(ident_continue('z'));
    assert!(ident_continue('_'));
    assert!(ident_continue('\u{661}'));
    assert!(!ident_continue('.'));
    assert!(!ident_continue('>'));
    assert!(!ident_continue('-'));
}

#[test]
fn what_is_alphabetic_counts_beyond_ascii_only() {
    assert!(ident_start_given('a', false));
    assert!(ident_start_given('_', false));
    assert!(!ident_start_given('1', true));
    assert!(!ident_start_given('<', true));
    assert!(ident_start_given('\u{e9}', true));
    assert!(!ident_start_given('\u{e9}', false));
    assert!(ident_continue_given('1', false));
    assert!(!ident_continue_given('.', true));
    assert!(ident_continue_given('\u{661}', true));
    assert!(!ident_continue_given('\u{661}', false));
}
