//! Route paths: the segments of a template's path and query, or everything
//! that is wrong with the template.

use vstd::prelude::*;
use crate::diagnostic::{diagnostics_view, enclose, Diagnostic, DiagnosticView};
use crate::grammar::{Kind, Source};
use crate::segments::{
    all_literal, lemma_segments_round_trip, lemma_segments_round_trip_rooted, parse_segment,
    parse_segment_spec, parse_segments, parse_segments_spec, segment_names, segments_view,
    written_segments, Segment, SegmentView,
};
use crate::splitter::{
    items_from, join, lemma_piece_len_bound, lemma_piece_stops_at_sep, parse_many_spec,
    piece_len, solid_from,
};
use crate::span::Span;
use crate::text::{byte_len, byte_length, chars_of};

verus! {

/// A template in origin form, as the URI parser hands it on: the path, and
/// what stands behind the `?` where there is one.
#[derive(Clone, Debug, PartialEq, Eq)]
pub struct Origin {
    pub path: String,
    pub query: Option<String>,
}

/// An [`Origin`] with its texts as sequences of characters.
pub struct OriginView {
    pub path: Seq<char>,
    pub query: Option<Seq<char>>,
}

impl OriginView {
    /// The template as it is written.
    pub open spec fn text(self) -> Seq<char> {
        match self.query {
            Some(query) => self.path + "?"@ + query,
            None => self.path,
        }
    }

    /// The number of bytes that the template takes when written.
    pub open spec fn len(self) -> nat {
        match self.query {
            Some(query) => byte_len(self.path) + 1 + byte_len(query),
            None => byte_len(self.path),
        }
    }

    /// The range of the path, where `span` is the range of the template's
    /// literal with its quotes.
    pub open spec fn path_span(self, span: Span) -> Span {
        span.sub(1, 1 + byte_len(self.path) as int)->Some_0
    }

    /// The range of `query`, which stands behind the path and the `?`,
    /// where `span` is the range of the template's literal with its quotes.
    pub open spec fn query_span(self, query: Seq<char>, span: Span) -> Span {
        span.sub(
            2 + byte_len(self.path) as int,
            2 + byte_len(self.path) as int + byte_len(query) as int,
        )->Some_0
    }
}

impl View for Origin {
    type V = OriginView;

    open spec fn view(&self) -> OriginView {
        OriginView {
            path: self.path@,
            query: match self.query {
                Some(query) => Some(query@),
                None => None,
            },
        }
    }
}

/// What the URI parser says of a template that is a URI: its parts, and,
/// where it is not normalized, its normalized form.
#[derive(Clone, Debug, PartialEq, Eq)]
pub struct Parsed {
    pub origin: Origin,
    pub normalized: Option<String>,
}

/// What the URI parser says of a template that is no URI: where it gave up,
/// if it knows, and why.
#[derive(Clone, Debug, PartialEq, Eq)]
pub struct UriError {
    pub index: Option<usize>,
    pub message: String,
}

/// The route path of a declaration.
#[derive(Clone, Debug)]
pub struct RoutePath {
    pub origin: Origin,
    /// The segments of the path.
    pub path: Vec<Segment>,
    /// The segments of the query, where the template has one.
    pub query: Option<Vec<Segment>>,
}

/// A [`RoutePath`] with its texts as sequences of characters.
pub struct RoutePathView {
    pub origin: OriginView,
    pub path: Seq<SegmentView>,
    pub query: Option<Seq<SegmentView>>,
}

impl View for RoutePath {
    type V = RoutePathView;

    open spec fn view(&self) -> RoutePathView {
        RoutePathView {
            origin: self.origin@,
            path: segments_view(self.path@),
            query: match self.query {
                Some(query) => Some(segments_view(query@)),
                None => None,
            },
        }
    }
}

/// Whether the query `q` has an empty pair: it opens or closes with `&`, or
/// holds `&&`.
pub open spec fn has_empty_pair(q: Seq<char>) -> bool {
    q.len() > 0 && (q[0] == '&' || q[q.len() - 1] == '&' || exists|i: int|
        0 <= i < q.len() - 1 && q[i] == '&' && #[trigger] q[i + 1] == '&')
}

/// What is made of the query `q`, written at `span`: one diagnostic where it
/// has an empty pair, before any pair is looked at, and else its segments or
/// the diagnostics of its pairs.
pub open spec fn query_spec(q: Seq<char>, span: Span) -> Result<
    Seq<SegmentView>,
    Seq<DiagnosticView>,
> {
    if has_empty_pair(q) {
        Err(seq![DiagnosticView::error(span, "query cannot contain empty segments"@)])
    } else {
        parse_segments_spec(q, '&', Source::Query, span)
    }
}

/// What [`RoutePath::assemble`] makes of `origin`, where `span` is the range
/// of the template's literal with its quotes.
///
/// The path and the query are looked at independently. Where both are
/// wrong, the diagnostics of the path come first and those of the query
/// follow: none is dropped.
pub open spec fn assemble_spec(origin: OriginView, span: Span) -> Result<
    RoutePathView,
    Seq<DiagnosticView>,
> {
    let path = parse_segments_spec(origin.path, '/', Source::Path, origin.path_span(span));
    match origin.query {
        None => match path {
            Ok(path) => Ok(RoutePathView { origin, path, query: None }),
            Err(diagnostics) => Err(diagnostics),
        },
        Some(q) => match (path, query_spec(q, origin.query_span(q, span))) {
            (Ok(path), Ok(query)) => Ok(RoutePathView { origin, path, query: Some(query) }),
            (Err(diagnostics), Ok(_)) => Err(diagnostics),
            (Ok(_), Err(diagnostics)) => Err(diagnostics),
            (Err(of_path), Err(of_query)) => Err(of_path + of_query),
        },
    }
}

/// What [`Origin::validate`] makes of the parser's answer, where `span` is
/// the range of the template's literal.
pub open spec fn validate_spec(
    parsed: Result<Parsed, UriError>,
    span: Span,
) -> Result<OriginView, DiagnosticView> {
    match parsed {
        Err(error) => Err(
            DiagnosticView::error(
                match error.index {
                    Some(index) => span.sub_from(index + 1)->Some_0,
                    None => span,
                },
                "invalid path URI: "@ + error.message@,
            ).help("expected path in origin form: \"/path/<param>\""@),
        ),
        Ok(parsed) => match parsed.normalized {
            Some(normalized) => Err(
                DiagnosticView::error(span, "paths cannot contain empty segments"@).note(
                    "expected '"@ + normalized@ + "', found '"@ + parsed.origin@.text() + "'"@,
                ),
            ),
            None => Ok(parsed.origin@),
        },
    }
}

/// Whether the parser's answer can be placed in `span`: where the parser
/// gave up at a known offset, the character after that offset, which is
/// counted from behind the opening quote, lies in `span`.
pub open spec fn placeable(parsed: Result<Parsed, UriError>, span: Span) -> bool {
    match parsed {
        Err(error) => match error.index {
            Some(index) => index + 1 <= span.len(),
            None => true,
        },
        Ok(parsed) => true,
    }
}

/// Whether a template that the parser accepts as normalized can be placed
/// in `span`: behind the opening quote, `span` holds the template.
pub open spec fn template_fits(parsed: Result<Parsed, UriError>, span: Span) -> bool {
    match parsed {
        Ok(parsed) => parsed.normalized is Some || 1 + parsed.origin@.len() <= span.len(),
        Err(_) => true,
    }
}

/// What [`RoutePath::from_parsed`] makes of the parser's answer.
pub open spec fn from_parsed_spec(parsed: Result<Parsed, UriError>, span: Span) -> Result<
    RoutePathView,
    Seq<DiagnosticView>,
> {
    match validate_spec(parsed, span) {
        Err(diagnostic) => Err(seq![diagnostic]),
        Ok(origin) => assemble_spec(origin, span),
    }
}

/// The outcome of an assembly with its texts as sequences of characters.
pub open spec fn route_result_view(r: Result<RoutePath, Vec<Diagnostic>>) -> Result<
    RoutePathView,
    Seq<DiagnosticView>,
> {
    match r {
        Ok(route) => Ok(route@),
        Err(diagnostics) => Err(diagnostics_view(diagnostics@)),
    }
}

/// Whether the query `q` has an empty pair.
pub fn empty_pair(q: &str) -> (r: bool)
    ensures
        r == has_empty_pair(q@),
{
    let chars = chars_of(q);
    let n: usize = chars.len();
    if n == 0 {
        return false;
    }
    if chars[0] == '&' || chars[n - 1] == '&' {
        return true;
    }
    let mut i: usize = 0;
    while i + 1 < n
        invariant
            0 < n == chars.len(),
            chars@ == q@,
            i < n,
            forall|j: int| 0 <= j < i ==> !(chars[j] == '&' && #[trigger] chars[j + 1] == '&'),
        decreases n - i,
    {
        if chars[i] == '&' && chars[i + 1] == '&' {
            return true;
        }
        i += 1;
    }
    false
}

impl Origin {
    /// The template as it is written: the path and, behind a `?`, the query.
    pub fn text(&self) -> (r: String)
        ensures
            r@ == self@.text(),
    {
        match &self.query {
            Some(query) => enclose(self.path.as_str(), "?", query.as_str()),
            None => self.path.clone(),
        }
    }

    /// Turns the URI parser's answer on a template into the template's
    /// parts, or into the one diagnostic that the template earns: that it is
    /// no URI, marked from where the parser gave up, or that it is not
    /// normalized, with the form that was expected.
    pub fn validate(parsed: Result<Parsed, UriError>, span: Span) -> (r: Result<Origin, Diagnostic>)
        requires
            placeable(parsed, span),
        ensures
            match r {
                Ok(origin) => validate_spec(parsed, span) == Ok::<OriginView, DiagnosticView>(
                    origin@,
                ),
                Err(diagnostic) => validate_spec(parsed, span) == Err::<
                    OriginView,
                    DiagnosticView,
                >(diagnostic@),
            },
    {
        match parsed {
            Err(error) => {
                let at = match error.index {
                    Some(index) => span.subspan_from(index + 1).unwrap(),
                    None => span,
                };
                let mut message = String::from_str("invalid path URI: ");
                message.append(error.message.as_str());
                Err(
                    Diagnostic::error(at, message).help(
                        String::from_str("expected path in origin form: \"/path/<param>\""),
                    ),
                )
            },
            Ok(parsed) => match parsed.normalized {
                Some(normalized) => {
                    let found = parsed.origin.text();
                    let mut note = enclose("expected '", normalized.as_str(), "', found '");
                    note.append(found.as_str());
                    note.append("'");
                    Err(
                        Diagnostic::error(
                            span,
                            String::from_str("paths cannot contain empty segments"),
                        ).note(note),
                    )
                },
                None => Ok(parsed.origin),
            },
        }
    }
}

impl RoutePath {
    /// Turns a template into its route path, where `span` is the range of
    /// the template's literal, quotes included, so that the template stands
    /// one byte into `span`.
    ///
    /// The path is split on `/` and the query on `&`. A query with an empty
    /// pair is refused as a whole. Whatever is wrong in the path and in the
    /// query is reported together.
    pub fn assemble(origin: Origin, span: Span) -> (r: Result<RoutePath, Vec<Diagnostic>>)
        requires
            1 + origin@.len() <= span.len(),
        ensures
            route_result_view(r) == assemble_spec(origin@, span),
    {
        let path_len: usize = byte_length(origin.path.as_str());
        let path_span = span.subspan(1, path_len + 1).unwrap();
        let path = parse_segments(origin.path.as_str(), '/', Source::Path, path_span);
        match &origin.query {
            None => match path {
                Ok(path) => Ok(RoutePath { origin, path, query: None }),
                Err(diagnostics) => Err(diagnostics),
            },
            Some(q) => {
                let len_to_q: usize = path_len + 2;
                let end_of_q: usize = len_to_q + byte_length(q.as_str());
                let query_span = span.subspan(len_to_q, end_of_q).unwrap();
                let query = if empty_pair(q.as_str()) {
                    let mut diagnostics: Vec<Diagnostic> = Vec::new();
                    let diagnostic = Diagnostic::error(
                        query_span,
                        String::from_str("query cannot contain empty segments"),
                    );
                    diagnostics.push(diagnostic);
                    assert(diagnostics_view(diagnostics@) =~= seq![diagnostic@]);
                    Err(diagnostics)
                } else {
                    parse_segments(q.as_str(), '&', Source::Query, query_span)
                };
                match (path, query) {
                    (Ok(path), Ok(query)) => Ok(RoutePath { origin, path, query: Some(query) }),
                    (Err(diagnostics), Ok(_)) => Err(diagnostics),
                    (Ok(_), Err(diagnostics)) => Err(diagnostics),
                    (Err(of_path), Err(of_query)) => {
                        let mut diagnostics = of_path;
                        let mut rest = of_query;
                        diagnostics.append(&mut rest);
                        assert(diagnostics_view(diagnostics@) =~= diagnostics_view(of_path@)
                            + diagnostics_view(of_query@));
                        Err(diagnostics)
                    },
                }
            },
        }
    }

    /// Turns the URI parser's answer on a template into the template's route
    /// path. A template that is no URI, or is not normalized, earns one
    /// diagnostic, and its segments are not looked at.
    pub fn from_parsed(parsed: Result<Parsed, UriError>, span: Span) -> (r: Result<
        RoutePath,
        Vec<Diagnostic>,
    >)
        requires
            placeable(parsed, span),
            template_fits(parsed, span),
        ensures
            route_result_view(r) == from_parsed_spec(parsed, span),
    {
        match Origin::validate(parsed, span) {
            Err(diagnostic) => {
                let mut diagnostics: Vec<Diagnostic> = Vec::new();
                diagnostics.push(diagnostic);
                assert(diagnostics_view(diagnostics@) =~= seq![diagnostic@]);
                Err(diagnostics)
            },
            Ok(origin) => RoutePath::assemble(origin, span),
        }
    }
}

/// What [`Segment::parameter`] makes of `string`, where `span` is the range
/// of the literal that holds it, with its quotes.
pub open spec fn parameter_spec(string: Seq<char>, span: Span) -> Result<
    SegmentView,
    DiagnosticView,
> {
    let inner = span.sub(1, 1 + byte_len(string) as int)->Some_0;
    match parse_segment_spec(string, inner) {
        Err(diagnostic) => Err(diagnostic),
        Ok(segment) => if segment.kind == Kind::Single {
            Ok(segment)
        } else {
            Err(
                DiagnosticView::error(inner, "malformed parameter"@).help(
                    "parameter must be of the form '<param>'"@,
                ),
            )
        },
    }
}

/// A parameter that is bound to the body of a request.
#[derive(Clone, Debug)]
pub struct DataSegment(pub Segment);

impl Segment {
    /// The parameter that the literal `string` names, where `span` is the
    /// range of the literal with its quotes. Only a single parameter
    /// `<name>` will do.
    pub fn parameter(string: &str, span: Span) -> (r: Result<Segment, Diagnostic>)
        requires
            1 + byte_len(string@) <= span.len(),
        ensures
            match r {
                Ok(segment) => parameter_spec(string@, span) == Ok::<SegmentView, DiagnosticView>(
                    segment@,
                ),
                Err(diagnostic) => parameter_spec(string@, span) == Err::<
                    SegmentView,
                    DiagnosticView,
                >(diagnostic@),
            },
    {
        let inner = span.subspan(1, byte_length(string) + 1).unwrap();
        match parse_segment(string, inner) {
            Err(diagnostic) => Err(diagnostic),
            Ok(segment) => {
                if segment.kind == Kind::Single {
                    Ok(segment)
                } else {
                    Err(
                        Diagnostic::error(inner, String::from_str("malformed parameter")).help(
                            String::from_str("parameter must be of the form '<param>'"),
                        ),
                    )
                }
            },
        }
    }
}

impl DataSegment {
    /// The body parameter that the literal `string` names, where `span` is
    /// the range of the literal with its quotes: the single parameter of
    /// [`Segment::parameter`], marked as data and put at position 0.
    pub fn parameter(string: &str, span: Span) -> (r: Result<DataSegment, Diagnostic>)
        requires
            1 + byte_len(string@) <= span.len(),
        ensures
            match r {
                Ok(data) => parameter_spec(string@, span) matches Ok(segment) && data.0@ == (
                SegmentView { source: Source::Data, index: Some(0usize), ..segment }),
                Err(diagnostic) => parameter_spec(string@, span) == Err::<
                    SegmentView,
                    DiagnosticView,
                >(diagnostic@),
            },
    {
        match Segment::parameter(string, span) {
            Err(diagnostic) => Err(diagnostic),
            Ok(segment) => {
                let mut segment = segment;
                segment.source = Source::Data;
                segment.index = Some(0);
                Ok(DataSegment(segment))
            },
        }
    }
}

/// What is wrong in the path and what is wrong in the query are reported
/// together: where both are refused, the diagnostics of the path, and after
/// them the diagnostics of the query, are what the assembly gives, and
/// neither part is empty.
pub proof fn lemma_both_reported(origin: OriginView, span: Span)
    requires
        origin.query is Some,
        parse_segments_spec(origin.path, '/', Source::Path, origin.path_span(span)) is Err,
        query_spec(origin.query->Some_0, origin.query_span(origin.query->Some_0, span)) is Err,
    ensures
        assemble_spec(origin, span) == Err::<RoutePathView, Seq<DiagnosticView>>(
            parse_segments_spec(origin.path, '/', Source::Path, origin.path_span(span))->Err_0
                + query_spec(
                origin.query->Some_0,
                origin.query_span(origin.query->Some_0, span),
            )->Err_0,
        ),
        parse_segments_spec(origin.path, '/', Source::Path, origin.path_span(span))->Err_0.len()
            > 0,
        query_spec(origin.query->Some_0, origin.query_span(origin.query->Some_0, span))->Err_0.len()
            > 0,
{
}

/// Whether `path` is normalized: it opens with `/`, and no piece behind
/// that is empty, unless `path` is `/` alone.
pub open spec fn is_normalized_path(path: Seq<char>) -> bool {
    path.len() > 0 && path[0] == '/' && (path.len() == 1 || solid_from(path, '/', 1))
}

/// A query without an empty pair has, from the start of any pair on, no
/// empty piece.
proof fn lemma_pairs_solid(q: Seq<char>, from: int)
    requires
        !has_empty_pair(q),
        0 <= from < q.len(),
        q[from] != '&',
    ensures
        solid_from(q, '&', from),
    decreases q.len() - from,
{
    lemma_piece_len_bound(q, '&', from);
    let end = from + piece_len(q, '&', from);
    if end < q.len() {
        lemma_piece_stops_at_sep(q, '&', from);
        assert(q[end] == '&');
        assert(end != q.len() - 1);
        assert(q[end + 1] != '&');
        lemma_pairs_solid(q, end + 1);
    }
}

/// A route path writes its template back: where a template with a
/// normalized path is accepted, `/` and then the segments of the path,
/// written out and joined by `/`, give the path, and the segments of the
/// query, written out and joined by `&`, give the query. Where the segments
/// are all literal text, so do their names.
pub proof fn lemma_route_round_trip(origin: OriginView, span: Span)
    requires
        is_normalized_path(origin.path),
        assemble_spec(origin, span) is Ok,
    ensures
        seq!['/'] + join(written_segments(assemble_spec(origin, span)->Ok_0.path), '/')
            == origin.path,
        all_literal(assemble_spec(origin, span)->Ok_0.path) ==> seq!['/'] + join(
            segment_names(assemble_spec(origin, span)->Ok_0.path),
            '/',
        ) == origin.path,
        origin.query is Some ==> assemble_spec(origin, span)->Ok_0.query is Some && join(
            written_segments(assemble_spec(origin, span)->Ok_0.query->Some_0),
            '&',
        ) == origin.query->Some_0,
        origin.query is Some && all_literal(assemble_spec(origin, span)->Ok_0.query->Some_0)
            ==> join(segment_names(assemble_spec(origin, span)->Ok_0.query->Some_0), '&')
            == origin.query->Some_0,
{
    lemma_segments_round_trip_rooted(origin.path, '/', Source::Path, origin.path_span(span));
    if origin.query is Some {
        let q = origin.query->Some_0;
        let at = origin.query_span(q, span);
        assert(query_spec(q, at) is Ok);
        assert(!has_empty_pair(q));
        let segments = parse_segments_spec(q, '&', Source::Query, at)->Ok_0;
        if q.len() == 0 {
            assert(parse_many_spec(q, '&', Source::Query) == items_from(
                q,
                '&',
                Source::Query,
                1,
                0,
                None,
            ));
            assert(parse_many_spec(q, '&', Source::Query) =~= Seq::empty());
            assert(segments =~= Seq::empty());
            assert(written_segments(segments) =~= Seq::empty());
            assert(segment_names(segments) =~= Seq::empty());
            assert(q =~= Seq::empty());
        } else {
            lemma_pairs_solid(q, 0);
            lemma_segments_round_trip(q, '&', Source::Query, at);
        }
    }
}

} // verus!
