//! The grammar of one piece of a template: literal text, a parameter `<name>`
//! or a trailing parameter `<name..>`.

use vstd::prelude::*;
use crate::text::{chars_of, Piece};

verus! {

/// What a segment is.
#[derive(Clone, Copy, Debug, PartialEq, Eq, Hash, Structural)]
pub enum Kind {
    /// Literal text.
    Static,
    /// A parameter `<name>`, which stands for one component.
    Single,
    /// A parameter `<name..>`, which stands for all that remains.
    Multi,
}

/// The part of a route declaration that a segment was written in.
#[derive(Clone, Copy, Debug, PartialEq, Eq, Hash, Structural)]
pub enum Source {
    Unknown,
    Path,
    Query,
    Data,
}

/// The ways in which a piece of a template can be wrong.
#[derive(Clone, Debug, PartialEq, Eq)]
pub enum Error {
    /// The piece, or the name of the parameter, is empty.
    Empty,
    /// The parameter's name, held here, is no identifier.
    InvalidIdentifier(String),
    /// The parameter is named `_`, which binds nothing.
    IgnoredName,
    /// The piece opens with `<` and holds no `>`.
    MissingClosingBracket,
    /// The piece holds `<` or `>` where none may stand.
    Malformed,
    /// Literal text holds `%` or `+`.
    InvalidCharacters,
    /// The piece follows a trailing parameter: the parameter's name, and
    /// where the parameter stands in the text.
    TrailingAfterMulti(String, Piece),
}

/// An [`Error`] with its text as a sequence of characters.
pub enum ErrorView {
    Empty,
    InvalidIdentifier(Seq<char>),
    IgnoredName,
    MissingClosingBracket,
    Malformed,
    InvalidCharacters,
    TrailingAfterMulti(Seq<char>, Piece),
}

impl ErrorView {
    /// Whether the error speaks of places inside `text` only.
    pub open spec fn within(self, text: Seq<char>) -> bool {
        match self {
            ErrorView::TrailingAfterMulti(_, place) => place.within(text),
            _ => true,
        }
    }
}

impl View for Error {
    type V = ErrorView;

    open spec fn view(&self) -> ErrorView {
        match *self {
            Error::Empty => ErrorView::Empty,
            Error::InvalidIdentifier(name) => ErrorView::InvalidIdentifier(name@),
            Error::IgnoredName => ErrorView::IgnoredName,
            Error::MissingClosingBracket => ErrorView::MissingClosingBracket,
            Error::Malformed => ErrorView::Malformed,
            Error::InvalidCharacters => ErrorView::InvalidCharacters,
            Error::TrailingAfterMulti(name, at) => ErrorView::TrailingAfterMulti(name@, at),
        }
    }
}

/// One classified piece of a template.
#[derive(Clone, Debug, PartialEq, Eq)]
pub struct RouteSegment {
    /// The piece as it was written.
    pub string: String,
    /// Where the piece stands in the text it was taken from.
    pub at: Piece,
    pub kind: Kind,
    pub source: Source,
    /// The literal text, or the parameter's name.
    pub name: String,
    /// The segment's position among the pieces of its text.
    pub index: Option<usize>,
}

/// A [`RouteSegment`] with its texts as sequences of characters.
pub struct RouteSegmentView {
    pub string: Seq<char>,
    pub at: Piece,
    pub kind: Kind,
    pub source: Source,
    pub name: Seq<char>,
    pub index: Option<usize>,
}

impl View for RouteSegment {
    type V = RouteSegmentView;

    open spec fn view(&self) -> RouteSegmentView {
        RouteSegmentView {
            string: self.string@,
            at: self.at,
            kind: self.kind,
            source: self.source,
            name: self.name@,
            index: self.index,
        }
    }
}

/// Whether `c` is alphabetic, as `char::is_alphabetic` of std tells.
pub uninterp spec fn alphabetic(c: char) -> bool;

/// Whether `c` is alphabetic or numeric, as `char::is_alphanumeric` of std
/// tells.
pub uninterp spec fn alphanumeric(c: char) -> bool;

/// Whether `c` is an ASCII letter.
pub open spec fn is_ascii_letter(c: char) -> bool {
    ('a' <= c && c <= 'z') || ('A' <= c && c <= 'Z')
}

/// Whether `c` may open a name, where `alphabetic` tells whether `c` is
/// alphabetic: an ASCII letter or `_` may, and beyond ASCII what is
/// alphabetic.
pub open spec fn opens_name(c: char, alphabetic: bool) -> bool {
    is_ascii_letter(c) || c == '_' || (c > '\x7f' && alphabetic)
}

/// Whether `c` may stand inside a name, where `alphanumeric` tells whether
/// `c` is alphabetic or numeric: an ASCII letter, an ASCII digit or `_` may,
/// and beyond ASCII what is alphabetic or numeric.
pub open spec fn continues_name(c: char, alphanumeric: bool) -> bool {
    is_ascii_letter(c) || ('0' <= c && c <= '9') || c == '_' || (c > '\x7f' && alphanumeric)
}

/// Whether `c` may open a name: a letter or `_`.
pub open spec fn is_ident_start(c: char) -> bool {
    opens_name(c, alphabetic(c))
}

/// Whether `c` may stand inside a name: a letter, a digit or `_`.
pub open spec fn is_ident_continue(c: char) -> bool {
    continues_name(c, alphanumeric(c))
}

/// Whether `s` is an identifier: not empty, opened by a letter or `_`, and
/// made of letters, digits and `_` after that.
pub open spec fn is_valid_ident(s: Seq<char>) -> bool {
    &&& s.len() > 0
    &&& is_ident_start(s[0])
    &&& forall|i: int| 0 < i < s.len() ==> is_ident_continue(#[trigger] s[i])
}

/// Whether `s` holds `<` or `>`.
pub open spec fn has_bracket(s: Seq<char>) -> bool {
    s.contains('<') || s.contains('>')
}

/// Whether `s` holds a character that literal text may not hold: `%` or `+`.
pub open spec fn has_forbidden(s: Seq<char>) -> bool {
    s.contains('%') || s.contains('+')
}

/// Whether `s` opens with `<` and closes with `>`.
pub open spec fn is_bracketed(s: Seq<char>) -> bool {
    s.len() >= 2 && s[0] == '<' && s[s.len() - 1] == '>'
}

/// Whether `s` ends in `..`.
pub open spec fn ends_with_dots(s: Seq<char>) -> bool {
    s.len() >= 2 && s[s.len() - 2] == '.' && s[s.len() - 1] == '.'
}

/// The kind of the parameter that is written `<content>`.
pub open spec fn param_kind(content: Seq<char>) -> Kind {
    if ends_with_dots(content) {
        Kind::Multi
    } else {
        Kind::Single
    }
}

/// The name of the parameter that is written `<content>`: the content
/// without a closing `..`.
pub open spec fn param_name(content: Seq<char>) -> Seq<char> {
    if ends_with_dots(content) {
        content.subrange(0, content.len() - 2)
    } else {
        content
    }
}

/// The kind and the name of the segment that `piece` spells, or what is
/// wrong with it.
pub open spec fn classify(piece: Seq<char>) -> Result<(Kind, Seq<char>), ErrorView> {
    if piece.len() == 0 {
        Err(ErrorView::Empty)
    } else if is_bracketed(piece) {
        let content = piece.subrange(1, piece.len() - 1);
        let name = param_name(content);
        if name.len() == 0 {
            Err(ErrorView::Empty)
        } else if has_bracket(name) {
            Err(ErrorView::Malformed)
        } else if !is_valid_ident(name) {
            Err(ErrorView::InvalidIdentifier(name))
        } else if name =~= seq!['_'] {
            Err(ErrorView::IgnoredName)
        } else {
            Ok((param_kind(content), name))
        }
    } else if piece[0] == '<' && !piece.contains('>') {
        Err(ErrorView::MissingClosingBracket)
    } else if has_bracket(piece) {
        Err(ErrorView::Malformed)
    } else if has_forbidden(piece) {
        Err(ErrorView::InvalidCharacters)
    } else {
        Ok((Kind::Static, piece))
    }
}

/// The segment of the given kind and name that the whole of `piece` spells,
/// before anything is known of where `piece` came from.
pub open spec fn lone_segment(piece: Seq<char>, kind: Kind, name: Seq<char>) -> RouteSegmentView {
    RouteSegmentView {
        string: piece,
        at: Piece { start: 0, end: piece.len() as usize },
        kind,
        source: Source::Unknown,
        name,
        index: None,
    }
}

/// What [`parse_one`] makes of `piece`.
pub open spec fn parse_one_spec(piece: Seq<char>) -> Result<RouteSegmentView, ErrorView> {
    match classify(piece) {
        Ok((kind, name)) => Ok(lone_segment(piece, kind, name)),
        Err(e) => Err(e),
    }
}

/// An outcome of the grammar with its texts as sequences of characters.
pub open spec fn outcome_view(r: Result<RouteSegment, Error>) -> Result<
    RouteSegmentView,
    ErrorView,
> {
    match r {
        Ok(segment) => Ok(segment@),
        Err(e) => Err(e@),
    }
}

/// The parameter `<n>` as it is written.
pub open spec fn single(n: Seq<char>) -> Seq<char> {
    seq!['<'] + n + seq!['>']
}

/// The trailing parameter `<n..>` as it is written.
pub open spec fn multi(n: Seq<char>) -> Seq<char> {
    seq!['<'] + n + seq!['.', '.', '>']
}

/// `char::is_alphabetic` of std, which tells whether `c` has the Unicode
/// property Alphabetic. All that is claimed is that the answer depends on
/// `c` alone.
#[verifier::external_body]
fn is_alphabetic(c: char) -> (r: bool)
    ensures
        r == alphabetic(c),
{
    c.is_alphabetic()
}

/// `char::is_alphanumeric` of std, which tells whether `c` is alphabetic or
/// numeric in the sense of Unicode. All that is claimed is that the answer
/// depends on `c` alone.
#[verifier::external_body]
fn is_alphanumeric(c: char) -> (r: bool)
    ensures
        r == alphanumeric(c),
{
    c.is_alphanumeric()
}

/// Whether `c` is an ASCII letter.
fn ascii_letter(c: char) -> (r: bool)
    ensures
        r == is_ascii_letter(c),
{
    (c >= 'a' && c <= 'z') || (c >= 'A' && c <= 'Z')
}

/// Whether `c` may open a name, where `alphabetic` tells whether `c` is
/// alphabetic.
pub fn ident_start_given(c: char, alphabetic: bool) -> (r: bool)
    ensures
        r == opens_name(c, alphabetic),
{
    ascii_letter(c) || c == '_' || (c > '\x7f' && alphabetic)
}

/// Whether `c` may stand inside a name, where `alphanumeric` tells whether
/// `c` is alphabetic or numeric.
pub fn ident_continue_given(c: char, alphanumeric: bool) -> (r: bool)
    ensures
        r == continues_name(c, alphanumeric),
{
    ascii_letter(c) || (c >= '0' && c <= '9') || c == '_' || (c > '\x7f' && alphanumeric)
}

/// Whether `c` may open a name.
pub fn ident_start(c: char) -> (r: bool)
    ensures
        r == is_ident_start(c),
{
    ident_start_given(c, is_alphabetic(c))
}

/// Whether `c` may stand inside a name.
pub fn ident_continue(c: char) -> (r: bool)
    ensures
        r == is_ident_continue(c),
{
    ident_continue_given(c, is_alphanumeric(c))
}

/// Whether `c` occurs in `chars` between the offsets `from` and `to`.
fn occurs(chars: &Vec<char>, from: usize, to: usize, c: char) -> (r: bool)
    requires
        from <= to <= chars.len(),
    ensures
        r == chars@.subrange(from as int, to as int).contains(c),
{
    let ghost s = chars@.subrange(from as int, to as int);
    let mut i: usize = from;
    while i < to
        invariant
            from <= i <= to <= chars.len(),
            s == chars@.subrange(from as int, to as int),
            forall|j: int| 0 <= j < i - from ==> s[j] != c,
        decreases to - i,
    {
        if chars[i] == c {
            assert(s[i - from] == c);
            return true;
        }
        i += 1;
    }
    false
}

/// Whether the characters of `chars` between the offsets `from` and `to`
/// make an identifier.
fn ident_between(chars: &Vec<char>, from: usize, to: usize) -> (r: bool)
    requires
        from <= to <= chars.len(),
    ensures
        r == is_valid_ident(chars@.subrange(from as int, to as int)),
{
    let ghost s = chars@.subrange(from as int, to as int);
    if from == to || !ident_start(chars[from]) {
        return false;
    }
    let mut i: usize = from + 1;
    while i < to
        invariant
            from < i <= to <= chars.len(),
            s == chars@.subrange(from as int, to as int),
            forall|j: int| 0 < j < i - from ==> is_ident_continue(#[trigger] s[j]),
        decreases to - i,
    {
        if !ident_continue(chars[i]) {
            assert(!is_ident_continue(s[i - from]));
            return false;
        }
        i += 1;
    }
    true
}

/// Whether `name` is an identifier.
pub fn valid_ident(name: &str) -> (r: bool)
    ensures
        r == is_valid_ident(name@),
{
    let chars = chars_of(name);
    assert(chars@.subrange(0, chars@.len() as int) =~= chars@);
    ident_between(&chars, 0, chars.len())
}

/// Classifies one piece of a template.
///
/// A piece `<name>` is a parameter and a piece `<name..>` a trailing
/// parameter, where `name` is an identifier other than `_`; a piece without
/// `<`, `>`, `%` and `+` is literal text, named by itself. Every other piece
/// is refused, with the reason.
pub fn parse_one(piece: &str) -> (r: Result<RouteSegment, Error>)
    ensures
        outcome_view(r) == parse_one_spec(piece@),
{
    let chars = chars_of(piece);
    let n: usize = chars.len();
    let ghost p = piece@;
    assert(p.subrange(0, n as int) =~= p);
    if n == 0 {
        return Err(Error::Empty);
    }
    if n >= 2 && chars[0] == '<' && chars[n - 1] == '>' {
        let ghost content = p.subrange(1, n - 1);
        let dots = n >= 4 && chars[n - 3] == '.' && chars[n - 2] == '.';
        let end: usize = if dots { n - 3 } else { n - 1 };
        assert(dots == ends_with_dots(content));
        assert(p.subrange(1, end as int) =~= param_name(content));
        if end == 1 {
            Err(Error::Empty)
        } else if occurs(&chars, 1, end, '<') || occurs(&chars, 1, end, '>') {
            Err(Error::Malformed)
        } else if !ident_between(&chars, 1, end) {
            Err(Error::InvalidIdentifier(String::from_str(piece.substring_char(1, end))))
        } else if end == 2 && chars[1] == '_' {
            assert(p.subrange(1, end as int) =~= seq!['_']);
            Err(Error::IgnoredName)
        } else {
            assert(!(p.subrange(1, end as int) =~= seq!['_'])) by {
                if p.subrange(1, end as int) =~= seq!['_'] {
                    assert(p.subrange(1, end as int).len() == 1);
                    assert(p.subrange(1, end as int)[0] == '_');
                }
            }
            Ok(
                RouteSegment {
                    string: String::from_str(piece),
                    at: Piece { start: 0, end: n },
                    kind: if dots { Kind::Multi } else { Kind::Single },
                    source: Source::Unknown,
                    name: String::from_str(piece.substring_char(1, end)),
                    index: None,
                },
            )
        }
    } else if chars[0] == '<' && !occurs(&chars, 0, n, '>') {
        Err(Error::MissingClosingBracket)
    } else if occurs(&chars, 0, n, '<') || occurs(&chars, 0, n, '>') {
        Err(Error::Malformed)
    } else if occurs(&chars, 0, n, '%') || occurs(&chars, 0, n, '+') {
        Err(Error::InvalidCharacters)
    } else {
        Ok(
            RouteSegment {
                string: String::from_str(piece),
                at: Piece { start: 0, end: n },
                kind: Kind::Static,
                source: Source::Unknown,
                name: String::from_str(piece),
                index: None,
            },
        )
    }
}

/// Literal text is taken as it stands: a piece that is not empty and holds
/// none of `<`, `>`, `%` and `+` is a static segment whose name is the piece.
pub proof fn lemma_static_text(piece: Seq<char>)
    requires
        piece.len() > 0,
        !has_bracket(piece),
        !has_forbidden(piece),
    ensures
        parse_one_spec(piece) == Ok::<RouteSegmentView, ErrorView>(
            lone_segment(piece, Kind::Static, piece),
        ),
{
    assert(piece[0] != '<');
}

/// No identifier holds a bracket or a dot.
pub proof fn lemma_ident_chars(n: Seq<char>)
    requires
        is_valid_ident(n),
    ensures
        !has_bracket(n),
        !n.contains('.'),
        !ends_with_dots(n),
{
    assert forall|i: int| 0 <= i < n.len() implies (#[trigger] n[i]) != '<' && n[i] != '>'
        && n[i] != '.' by {
        if i > 0 {
            assert(is_ident_continue(n[i]));
        }
    }
}

/// Every identifier `n` other than `_` names a parameter: `<n>` is a single
/// parameter called `n`, and `<n..>` a trailing parameter called `n`.
pub proof fn lemma_parameters(n: Seq<char>)
    requires
        is_valid_ident(n),
        n != seq!['_'],
    ensures
        parse_one_spec(single(n)) == Ok::<RouteSegmentView, ErrorView>(
            lone_segment(single(n), Kind::Single, n),
        ),
        parse_one_spec(multi(n)) == Ok::<RouteSegmentView, ErrorView>(
            lone_segment(multi(n), Kind::Multi, n),
        ),
{
    lemma_ident_chars(n);
    let s = single(n);
    let m = multi(n);
    let sc = s.subrange(1, s.len() - 1);
    let mc = m.subrange(1, m.len() - 1);
    assert(sc =~= n);
    assert(mc =~= n + seq!['.', '.']);
    assert(ends_with_dots(mc));
    assert(param_name(mc) =~= n);
    assert(param_name(sc) =~= n);
}

} // verus!
