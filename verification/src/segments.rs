//! Segments with their place in the declaration, and the diagnostics of the
//! pieces that are no segments.

use std::hash::{Hash, Hasher};
use vstd::prelude::*;
use vstd::std_specs::cmp::{PartialEqSpec, PartialEqSpecImpl};
use crate::diagnostic::{diagnostic_of, diagnostics_view, into_diagnostic, Diagnostic, DiagnosticView};
use crate::grammar::{
    multi, parse_one, parse_one_spec, single, Kind, RouteSegment, RouteSegmentView, Source,
};
use crate::span::{lemma_spans_exist, subspan, subspan_of, Span};
use crate::splitter::{
    all_segments, all_static, item_view, item_within, items_view, join, lemma_round_trip,
    lemma_round_trip_rooted, names_of, parse_many, parse_many_spec, solid_from, written_items,
    ItemView,
};
use crate::text::{byte_len, Piece};

verus! {

/// One unit of a route declaration: literal text or a parameter, with the
/// place where it is written.
///
/// Segments are compared, and hashed, by name alone, so that a name that is
/// used twice is found wherever its uses stand; [`Segment::identical`]
/// compares every field.
#[derive(Clone, Debug)]
pub struct Segment {
    pub span: Span,
    pub kind: Kind,
    pub source: Source,
    pub name: String,
    pub index: Option<usize>,
}

/// A [`Segment`] with its name as a sequence of characters.
pub struct SegmentView {
    pub span: Span,
    pub kind: Kind,
    pub source: Source,
    pub name: Seq<char>,
    pub index: Option<usize>,
}

impl View for Segment {
    type V = SegmentView;

    open spec fn view(&self) -> SegmentView {
        SegmentView {
            span: self.span,
            kind: self.kind,
            source: self.source,
            name: self.name@,
            index: self.index,
        }
    }
}

impl PartialEq for Segment {
    fn eq(&self, other: &Segment) -> (r: bool) {
        self.name == other.name
    }
}

impl Eq for Segment {

}

impl PartialEqSpecImpl for Segment {
    open spec fn obeys_eq_spec() -> bool {
        true
    }

    open spec fn eq_spec(&self, other: &Segment) -> bool {
        self.name@ == other.name@
    }
}

impl Hash for Segment {
    /// Feeds the name, and nothing else, to `state`, as `String`'s own
    /// `hash` does; nothing is claimed of what `state` makes of it.
    #[verifier::external_body]
    fn hash<H: Hasher>(&self, state: &mut H) {
        self.name.hash(state)
    }
}

/// Segments are told apart by name alone: two segments are equal exactly
/// when their names are, wherever they stand and whatever their kinds.
pub proof fn lemma_equal_by_name(a: Segment, b: Segment)
    ensures
        a.name@ == b.name@ ==> PartialEqSpec::eq_spec(&a, &b),
        a.name@ != b.name@ ==> !PartialEqSpec::eq_spec(&a, &b),
        PartialEqSpec::eq_spec(&a, &b) == PartialEqSpec::eq_spec(&b, &a),
{
}

/// The segment that the grammar found, placed at `span`.
pub open spec fn located(segment: RouteSegmentView, span: Span) -> SegmentView {
    SegmentView {
        span,
        kind: segment.kind,
        source: segment.source,
        name: segment.name,
        index: segment.index,
    }
}

/// Segments with their names as sequences of characters.
pub open spec fn segments_view(segments: Seq<Segment>) -> Seq<SegmentView> {
    segments.map_values(|s: Segment| s@)
}

impl Segment {
    /// The segment that the grammar found, placed at `span`.
    pub fn from_route(segment: RouteSegment, span: Span) -> (r: Segment)
        ensures
            r@ == located(segment@, span),
    {
        Segment {
            span,
            kind: segment.kind,
            source: segment.source,
            name: segment.name,
            index: segment.index,
        }
    }

    /// The literal segment that an identifier written at `span` stands for.
    /// The grammar is not asked.
    pub fn from_ident(ident: &str, span: Span) -> (r: Segment)
        ensures
            r@ == (SegmentView {
                span,
                kind: Kind::Static,
                source: Source::Unknown,
                name: ident@,
                index: None,
            }),
    {
        Segment {
            span,
            kind: Kind::Static,
            source: Source::Unknown,
            name: String::from_str(ident),
            index: None,
        }
    }

    /// Whether the two segments agree in every field.
    pub fn identical(&self, other: &Segment) -> (r: bool)
        ensures
            r == (self@ == other@),
    {
        let same_index = match (self.index, other.index) {
            (Some(a), Some(b)) => a == b,
            (None, None) => true,
            _ => false,
        };
        self.span == other.span && self.kind == other.kind && self.source == other.source
            && self.name == other.name && same_index
    }
}

/// The whole of `text` as a slice of itself.
pub open spec fn whole(text: Seq<char>) -> Piece {
    Piece { start: 0, end: text.len() as usize }
}

/// What [`parse_segment`] makes of `segment`, written at `span`.
pub open spec fn parse_segment_spec(segment: Seq<char>, span: Span) -> Result<
    SegmentView,
    DiagnosticView,
> {
    match parse_one_spec(segment) {
        Ok(found) => Ok(located(found, span)),
        Err(error) => Err(diagnostic_of(whole(segment), segment, span, error)),
    }
}

/// Classifies the one piece `segment`, which is written at `span`: the
/// segment at `span`, or the diagnostic that says what is wrong with it.
pub fn parse_segment(segment: &str, span: Span) -> (r: Result<Segment, Diagnostic>)
    requires
        byte_len(segment@) <= span.len(),
    ensures
        match r {
            Ok(found) => parse_segment_spec(segment@, span) == Ok::<SegmentView, DiagnosticView>(
                found@,
            ),
            Err(diagnostic) => parse_segment_spec(segment@, span) == Err::<
                SegmentView,
                DiagnosticView,
            >(diagnostic@),
        },
{
    match parse_one(segment) {
        Ok(found) => Ok(Segment::from_route(found, span)),
        Err(error) => {
            let all = Piece { start: 0, end: segment.unicode_len() };
            Err(into_diagnostic(all, segment, span, &error))
        },
    }
}

/// The segments among `items`, each at its place in `span`, the range of
/// `text`.
pub open spec fn segments_of(items: Seq<ItemView>, text: Seq<char>, span: Span) -> Seq<SegmentView>
    decreases items.len(),
{
    if items.len() == 0 {
        Seq::empty()
    } else {
        let front = segments_of(items.drop_last(), text, span);
        match items.last() {
            Ok(segment) => front.push(located(segment, subspan_of(segment.at, text, span)->Some_0)),
            Err(_) => front,
        }
    }
}

/// The diagnostics of the refused pieces among `items`, in order, where
/// `span` is the range of `text`.
pub open spec fn diagnostics_of(items: Seq<ItemView>, text: Seq<char>, span: Span) -> Seq<
    DiagnosticView,
>
    decreases items.len(),
{
    if items.len() == 0 {
        Seq::empty()
    } else {
        let front = diagnostics_of(items.drop_last(), text, span);
        match items.last() {
            Ok(_) => front,
            Err(failure) => front.push(diagnostic_of(failure.piece, text, span, failure.error)),
        }
    }
}

/// What [`parse_segments`] makes of `text`, written at `span`: the segments
/// where no piece is refused, and else the diagnostics of all the pieces
/// that are.
pub open spec fn parse_segments_spec(text: Seq<char>, sep: char, source: Source, span: Span) -> Result<
    Seq<SegmentView>,
    Seq<DiagnosticView>,
> {
    let items = parse_many_spec(text, sep, source);
    let diagnostics = diagnostics_of(items, text, span);
    if diagnostics.len() == 0 {
        Ok(segments_of(items, text, span))
    } else {
        Err(diagnostics)
    }
}

/// The outcome of [`parse_segments`] with its texts as sequences of
/// characters.
pub open spec fn segments_result_view(r: Result<Vec<Segment>, Vec<Diagnostic>>) -> Result<
    Seq<SegmentView>,
    Seq<DiagnosticView>,
> {
    match r {
        Ok(segments) => Ok(segments_view(segments@)),
        Err(diagnostics) => Err(diagnostics_view(diagnostics@)),
    }
}

/// Splits `string`, which is written at `span`, on `sep`, and classifies
/// its pieces.
///
/// Where every piece is accepted, the segments come back in order, each
/// with its place in `span` and marked with `source`. Otherwise the
/// diagnostics of all the refused pieces come back, in order: one wrong
/// piece does not hide the next. Only what follows a trailing parameter
/// ends the search.
pub fn parse_segments(string: &str, sep: char, source: Source, span: Span) -> (r: Result<
    Vec<Segment>,
    Vec<Diagnostic>,
>)
    requires
        byte_len(string@) <= span.len(),
    ensures
        segments_result_view(r) == parse_segments_spec(string@, sep, source, span),
{
    let items = parse_many(string, sep, source);
    let ghost views = items_view(items@);
    let mut segments: Vec<Segment> = Vec::new();
    let mut diagnostics: Vec<Diagnostic> = Vec::new();
    let mut i: usize = 0;
    while i < items.len()
        invariant
            i <= items.len(),
            views == items_view(items@),
            byte_len(string@) <= span.len(),
            forall|j: int|
                0 <= j < items.len() ==> item_within(
                    #[trigger] item_view(items[j]),
                    string@,
                ),
            segments_view(segments@) == segments_of(views.take(i as int), string@, span),
            diagnostics_view(diagnostics@) == diagnostics_of(views.take(i as int), string@, span),
        decreases items.len() - i,
    {
        let ghost seen_segments = segments@;
        let ghost seen_diagnostics = diagnostics@;
        assert(views.take(i + 1).drop_last() =~= views.take(i as int));
        assert(views.take(i + 1).last() == item_view(items[i as int]));
        assert(item_within(item_view(items[i as int]), string@));
        match &items[i] {
            Ok(segment) => {
                proof {
                    lemma_spans_exist(segment.at, string@, span);
                }
                let seg_span = subspan(segment.at, string, span).unwrap();
                let placed = Segment {
                    span: seg_span,
                    kind: segment.kind,
                    source: segment.source,
                    name: segment.name.clone(),
                    index: segment.index,
                };
                segments.push(placed);
                assert(segments_view(segments@) =~= segments_view(seen_segments).push(placed@));
            },
            Err(failure) => {
                let diagnostic = into_diagnostic(failure.piece, string, span, &failure.error);
                diagnostics.push(diagnostic);
                assert(diagnostics_view(diagnostics@) =~= diagnostics_view(seen_diagnostics).push(
                    diagnostic@,
                ));
            },
        }
        i += 1;
    }
    assert(views.take(items.len() as int) =~= views);
    if diagnostics.len() == 0 {
        Ok(segments)
    } else {
        Err(diagnostics)
    }
}

/// A segment as it is written in a template: literal text by its name, a
/// parameter by its name in brackets.
pub open spec fn written_segment(segment: SegmentView) -> Seq<char> {
    match segment.kind {
        Kind::Static => segment.name,
        Kind::Single => single(segment.name),
        Kind::Multi => multi(segment.name),
    }
}

/// The segments as they are written, in order.
pub open spec fn written_segments(segments: Seq<SegmentView>) -> Seq<Seq<char>> {
    Seq::new(segments.len(), |i: int| written_segment(segments[i]))
}

/// The names of the segments, in order.
pub open spec fn segment_names(segments: Seq<SegmentView>) -> Seq<Seq<char>> {
    Seq::new(segments.len(), |i: int| segments[i].name)
}

/// Whether every segment is literal text.
pub open spec fn all_literal(segments: Seq<SegmentView>) -> bool {
    forall|i: int| 0 <= i < segments.len() ==> (#[trigger] segments[i]).kind == Kind::Static
}

/// Every refused piece has its diagnostic: where there is no diagnostic,
/// every item is a segment.
proof fn lemma_no_diagnostics(items: Seq<ItemView>, text: Seq<char>, span: Span)
    requires
        diagnostics_of(items, text, span).len() == 0,
    ensures
        all_segments(items),
    decreases items.len(),
{
    if items.len() > 0 {
        let front = items.drop_last();
        if items.last() is Ok {
            lemma_no_diagnostics(front, text, span);
            assert forall|i: int| 0 <= i < items.len() implies (#[trigger] items[i]) is Ok by {
                if i < front.len() {
                    assert(items[i] == front[i]);
                }
            }
        }
    }
}

/// Where every item is a segment, the segments are the items, each at its
/// place.
proof fn lemma_segments_are_items(items: Seq<ItemView>, text: Seq<char>, span: Span)
    requires
        all_segments(items),
    ensures
        segments_of(items, text, span).len() == items.len(),
        forall|i: int|
            0 <= i < items.len() ==> #[trigger] segments_of(items, text, span)[i] == located(
                items[i]->Ok_0,
                subspan_of(items[i]->Ok_0.at, text, span)->Some_0,
            ),
    decreases items.len(),
{
    if items.len() > 0 {
        let front = items.drop_last();
        assert(items.last() is Ok);
        assert forall|i: int| 0 <= i < front.len() implies (#[trigger] front[i]) is Ok by {
            assert(items[i] == front[i]);
        }
        lemma_segments_are_items(front, text, span);
        assert forall|i: int| 0 <= i < items.len() implies #[trigger] segments_of(
            items,
            text,
            span,
        )[i] == located(items[i]->Ok_0, subspan_of(items[i]->Ok_0.at, text, span)->Some_0) by {
            if i < front.len() {
                assert(items[i] == front[i]);
            }
        }
    }
}

/// The segments of a text that is accepted are written, and named, as the
/// accepted pieces are.
proof fn lemma_accepted(text: Seq<char>, sep: char, source: Source, span: Span)
    requires
        parse_segments_spec(text, sep, source, span) is Ok,
    ensures
        all_segments(parse_many_spec(text, sep, source)),
        written_segments(parse_segments_spec(text, sep, source, span)->Ok_0) == written_items(
            parse_many_spec(text, sep, source),
        ),
        segment_names(parse_segments_spec(text, sep, source, span)->Ok_0) == names_of(
            parse_many_spec(text, sep, source),
        ),
        all_literal(parse_segments_spec(text, sep, source, span)->Ok_0) ==> all_static(
            parse_many_spec(text, sep, source),
        ),
{
    let items = parse_many_spec(text, sep, source);
    let segments = parse_segments_spec(text, sep, source, span)->Ok_0;
    lemma_no_diagnostics(items, text, span);
    lemma_segments_are_items(items, text, span);
    assert(written_segments(segments) =~= written_items(items));
    assert(segment_names(segments) =~= names_of(items));
    if all_literal(segments) {
        assert forall|i: int| 0 <= i < items.len() implies (#[trigger] items[i]) is Ok
            && items[i]->Ok_0.kind == Kind::Static by {
            assert(segments[i].kind == Kind::Static);
        }
    }
}

/// A template without empty pieces is written back by its segments: where
/// `text` is accepted, its segments, written out and joined by `sep`, give
/// `text`. Where all of them are literal text, so do their names.
pub proof fn lemma_segments_round_trip(text: Seq<char>, sep: char, source: Source, span: Span)
    requires
        solid_from(text, sep, 0),
        parse_segments_spec(text, sep, source, span) is Ok,
    ensures
        join(written_segments(parse_segments_spec(text, sep, source, span)->Ok_0), sep) == text,
        all_literal(parse_segments_spec(text, sep, source, span)->Ok_0) ==> join(
            segment_names(parse_segments_spec(text, sep, source, span)->Ok_0),
            sep,
        ) == text,
{
    lemma_accepted(text, sep, source, span);
    lemma_round_trip(text, sep, source);
}

/// A template that opens with the separator, and has no empty piece after
/// it, is written back by its segments: where `text` is accepted, `sep` and
/// then its segments, written out and joined by `sep`, give `text`. Where
/// all of them are literal text, so do their names.
pub proof fn lemma_segments_round_trip_rooted(
    text: Seq<char>,
    sep: char,
    source: Source,
    span: Span,
)
    requires
        text.len() > 0,
        text[0] == sep,
        text.len() == 1 || solid_from(text, sep, 1),
        parse_segments_spec(text, sep, source, span) is Ok,
    ensures
        seq![sep] + join(
            written_segments(parse_segments_spec(text, sep, source, span)->Ok_0),
            sep,
        ) == text,
        all_literal(parse_segments_spec(text, sep, source, span)->Ok_0) ==> seq![sep] + join(
            segment_names(parse_segments_spec(text, sep, source, span)->Ok_0),
            sep,
        ) == text,
{
    lemma_accepted(text, sep, source, span);
    lemma_round_trip_rooted(text, sep, source);
}

} // verus!
