//! Diagnostics, and the wording of each error of a template.

use vstd::prelude::*;
use crate::grammar::{Error, ErrorView};
use crate::span::{lemma_spans_exist, subspan, subspan_of, trailspan, trailspan_of, Span};
use crate::text::{byte_len, Piece};

verus! {

/// How grave a message is.
#[derive(Clone, Copy, Debug, PartialEq, Eq, Hash, Structural)]
pub enum Level {
    Error,
    Warning,
    Note,
    Help,
}

/// A message under a diagnostic, with a place of its own or without one.
#[derive(Clone, Debug, PartialEq, Eq)]
pub struct Note {
    pub level: Level,
    pub span: Option<Span>,
    pub message: String,
}

/// A [`Note`] with its message as a sequence of characters.
pub struct NoteView {
    pub level: Level,
    pub span: Option<Span>,
    pub message: Seq<char>,
}

impl View for Note {
    type V = NoteView;

    open spec fn view(&self) -> NoteView {
        NoteView { level: self.level, span: self.span, message: self.message@ }
    }
}

/// A message about a place in the declaration's text, with the notes that
/// explain it.
#[derive(Clone, Debug, PartialEq, Eq)]
pub struct Diagnostic {
    pub level: Level,
    pub span: Span,
    pub message: String,
    pub children: Vec<Note>,
}

/// A [`Diagnostic`] with its messages as sequences of characters.
pub struct DiagnosticView {
    pub level: Level,
    pub span: Span,
    pub message: Seq<char>,
    pub children: Seq<NoteView>,
}

impl DiagnosticView {
    /// An error at `span`, with no notes.
    pub open spec fn error(span: Span, message: Seq<char>) -> DiagnosticView {
        DiagnosticView { level: Level::Error, span, message, children: Seq::empty() }
    }

    /// A warning at `span`, with no notes.
    pub open spec fn warning(span: Span, message: Seq<char>) -> DiagnosticView {
        DiagnosticView { level: Level::Warning, span, message, children: Seq::empty() }
    }

    /// The diagnostic with one more note, of the given level, place and
    /// message, after those it has.
    pub open spec fn with(self, level: Level, span: Option<Span>, message: Seq<char>) -> DiagnosticView {
        DiagnosticView {
            children: self.children.push(NoteView { level, span, message }),
            ..self
        }
    }

    /// The diagnostic with one more piece of advice.
    pub open spec fn help(self, message: Seq<char>) -> DiagnosticView {
        self.with(Level::Help, None, message)
    }

    /// The diagnostic with one more remark.
    pub open spec fn note(self, message: Seq<char>) -> DiagnosticView {
        self.with(Level::Note, None, message)
    }

    /// The diagnostic with one more remark, which points at `span`.
    pub open spec fn span_note(self, span: Span, message: Seq<char>) -> DiagnosticView {
        self.with(Level::Note, Some(span), message)
    }
}

impl View for Diagnostic {
    type V = DiagnosticView;

    open spec fn view(&self) -> DiagnosticView {
        DiagnosticView {
            level: self.level,
            span: self.span,
            message: self.message@,
            children: self.children@.map_values(|note: Note| note@),
        }
    }
}

/// Diagnostics with their messages as sequences of characters.
pub open spec fn diagnostics_view(diagnostics: Seq<Diagnostic>) -> Seq<DiagnosticView> {
    diagnostics.map_values(|d: Diagnostic| d@)
}

impl Diagnostic {
    /// An error at `span`.
    pub fn error(span: Span, message: String) -> (d: Diagnostic)
        ensures
            d@ == DiagnosticView::error(span, message@),
    {
        let d = Diagnostic { level: Level::Error, span, message, children: Vec::new() };
        assert(d@.children =~= Seq::empty());
        d
    }

    /// A warning at `span`.
    pub fn warning(span: Span, message: String) -> (d: Diagnostic)
        ensures
            d@ == DiagnosticView::warning(span, message@),
    {
        let d = Diagnostic { level: Level::Warning, span, message, children: Vec::new() };
        assert(d@.children =~= Seq::empty());
        d
    }

    /// Adds a note of the given level, place and message after the notes
    /// that the diagnostic has.
    pub fn with(self, level: Level, span: Option<Span>, message: String) -> (d: Diagnostic)
        ensures
            d@ == self@.with(level, span, message@),
    {
        let mut d = self;
        let note = Note { level, span, message };
        d.children.push(note);
        assert(d@.children =~= self@.children.push(note@));
        d
    }

    /// Adds a piece of advice.
    pub fn help(self, message: String) -> (d: Diagnostic)
        ensures
            d@ == self@.help(message@),
    {
        self.with(Level::Help, None, message)
    }

    /// Adds a remark.
    pub fn note(self, message: String) -> (d: Diagnostic)
        ensures
            d@ == self@.note(message@),
    {
        self.with(Level::Note, None, message)
    }

    /// Adds a remark that points at `span`.
    pub fn span_note(self, span: Span, message: String) -> (d: Diagnostic)
        ensures
            d@ == self@.span_note(span, message@),
    {
        self.with(Level::Note, Some(span), message)
    }
}

/// `text` between `before` and `after`.
pub fn enclose(before: &str, text: &str, after: &str) -> (r: String)
    ensures
        r@ == before@ + text@ + after@,
{
    let mut r = String::from_str(before);
    r.append(text);
    r.append(after);
    r
}

/// What is said of the piece `piece` of `source` that was refused with
/// `error`, where `span` is the range of `source`.
///
/// The message stands at the range of the piece. A piece that follows a
/// trailing parameter is marked together with all that comes after it, and
/// a remark points back at the parameter.
pub open spec fn diagnostic_of(piece: Piece, source: Seq<char>, span: Span, error: ErrorView) -> DiagnosticView {
    let at = subspan_of(piece, source, span)->Some_0;
    match error {
        ErrorView::Empty => DiagnosticView::error(at, "parameter names cannot be empty"@),
        ErrorView::InvalidIdentifier(name) => DiagnosticView::error(
            at,
            "`"@ + name + "` is not a valid identifier"@,
        ).help("parameter names must be valid identifiers"@),
        ErrorView::IgnoredName => DiagnosticView::error(at, "parameters must be named"@).help(
            "use a name such as `_guard` or `_param`"@,
        ),
        ErrorView::MissingClosingBracket => DiagnosticView::error(
            at,
            "parameter is missing a closing bracket"@,
        ).help("did you mean '"@ + piece.of(source) + ">'?"@),
        ErrorView::Malformed => DiagnosticView::error(
            at,
            "malformed parameter or identifier"@,
        ).help("parameters must be of the form '<param>'"@).help(
            "identifiers cannot contain '<' or '>'"@,
        ),
        ErrorView::InvalidCharacters => DiagnosticView::error(
            at,
            "component contains invalid URI characters"@,
        ).note("components cannot contain '%' and '+' characters"@),
        ErrorView::TrailingAfterMulti(_, place) => DiagnosticView::error(
            trailspan_of(piece, source, span)->Some_0,
            "unexpected trailing text after a '..' param"@,
        ).help("a multi-segment param must be the final component"@).span_note(
            subspan_of(place, source, span)->Some_0,
            "multi-segment param is here"@,
        ),
    }
}

/// Words the diagnostic for the piece `segment` of `source` that was
/// refused with `error`. `span` is the range of `source` in the
/// declaration, so it holds `source`, and `segment` lies in `source`, as
/// does the parameter that a trailing piece follows.
pub fn into_diagnostic(segment: Piece, source: &str, span: Span, error: &Error) -> (d: Diagnostic)
    requires
        segment.within(source@),
        error@.within(source@),
        byte_len(source@) <= span.len(),
    ensures
        d@ == diagnostic_of(segment, source@, span, error@),
{
    proof {
        lemma_spans_exist(segment, source@, span);
    }
    let seg_span = subspan(segment, source, span).unwrap();
    match error {
        Error::Empty => Diagnostic::error(
            seg_span,
            String::from_str("parameter names cannot be empty"),
        ),
        Error::InvalidIdentifier(name) => Diagnostic::error(
            seg_span,
            enclose("`", name.as_str(), "` is not a valid identifier"),
        ).help(String::from_str("parameter names must be valid identifiers")),
        Error::IgnoredName => Diagnostic::error(
            seg_span,
            String::from_str("parameters must be named"),
        ).help(String::from_str("use a name such as `_guard` or `_param`")),
        Error::MissingClosingBracket => Diagnostic::error(
            seg_span,
            String::from_str("parameter is missing a closing bracket"),
        ).help(
            enclose("did you mean '", source.substring_char(segment.start, segment.end), ">'?"),
        ),
        Error::Malformed => Diagnostic::error(
            seg_span,
            String::from_str("malformed parameter or identifier"),
        ).help(String::from_str("parameters must be of the form '<param>'")).help(
            String::from_str("identifiers cannot contain '<' or '>'"),
        ),
        Error::InvalidCharacters => Diagnostic::error(
            seg_span,
            String::from_str("component contains invalid URI characters"),
        ).note(String::from_str("components cannot contain '%' and '+' characters")),
        Error::TrailingAfterMulti(_, place) => {
            proof {
                lemma_spans_exist(*place, source@, span);
            }
            let multi_span = subspan(*place, source, span).unwrap();
            Diagnostic::error(
                trailspan(segment, source, span).unwrap(),
                String::from_str("unexpected trailing text after a '..' param"),
            ).help(String::from_str("a multi-segment param must be the final component")).span_note(
                multi_span,
                String::from_str("multi-segment param is here"),
            )
        },
    }
}

} // verus!
