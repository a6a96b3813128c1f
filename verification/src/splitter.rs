//! Splits a template on a separator and classifies the pieces in turn.

use vstd::prelude::*;
use crate::grammar::{
    classify, multi, param_kind, param_name, parse_one, single, Error, ErrorView, Kind,
    RouteSegment, RouteSegmentView, Source,
};
use crate::text::{chars_of, Piece};

verus! {

/// A piece of a template that was refused.
#[derive(Clone, Debug, PartialEq, Eq)]
pub struct Failure {
    /// The piece as it was written.
    pub string: String,
    /// Where the piece stands in the template.
    pub piece: Piece,
    pub error: Error,
}

/// A [`Failure`] with its texts as sequences of characters.
pub struct FailureView {
    pub string: Seq<char>,
    pub piece: Piece,
    pub error: ErrorView,
}

impl View for Failure {
    type V = FailureView;

    open spec fn view(&self) -> FailureView {
        FailureView { string: self.string@, piece: self.piece, error: self.error@ }
    }
}

/// What the splitter makes of one piece, with its texts as sequences of
/// characters.
pub type ItemView = Result<RouteSegmentView, FailureView>;

/// One item of the splitter with its texts as sequences of characters.
pub open spec fn item_view(item: Result<RouteSegment, Failure>) -> ItemView {
    match item {
        Ok(segment) => Ok(segment@),
        Err(failure) => Err(failure@),
    }
}

/// Items of the splitter with their texts as sequences of characters.
pub open spec fn items_view(items: Seq<Result<RouteSegment, Failure>>) -> Seq<ItemView> {
    items.map_values(|item: Result<RouteSegment, Failure>| item_view(item))
}

/// The trailing parameter that the splitter has met, if any: its name and
/// its place, the name as a sequence of characters.
pub open spec fn multi_view(multi: Option<(String, Piece)>) -> Option<(Seq<char>, Piece)> {
    match multi {
        Some((name, place)) => Some((name@, place)),
        None => None,
    }
}

/// The number of characters from offset `from` of `text` up to the next
/// `sep`, or up to the end of `text` where no `sep` follows.
pub open spec fn piece_len(text: Seq<char>, sep: char, from: int) -> nat
    decreases text.len() - from,
{
    if from < 0 || from >= text.len() || text[from] == sep {
        0
    } else {
        1 + piece_len(text, sep, from + 1)
    }
}

/// A piece ends no later than its text.
pub proof fn lemma_piece_len_bound(text: Seq<char>, sep: char, from: int)
    requires
        0 <= from <= text.len(),
    ensures
        from + piece_len(text, sep, from) <= text.len(),
    decreases text.len() - from,
{
    if from < text.len() && text[from] != sep {
        lemma_piece_len_bound(text, sep, from + 1);
    }
}

/// The items that the pieces of `text` from offset `from` on give.
///
/// `index` counts the pieces met so far that are not empty, and `multi` is
/// the trailing parameter met so far. Empty pieces are passed over. A piece
/// that follows a trailing parameter is refused, and nothing comes after it.
pub open spec fn items_from(
    text: Seq<char>,
    sep: char,
    source: Source,
    from: int,
    index: int,
    multi: Option<(Seq<char>, Piece)>,
) -> Seq<ItemView>
    decreases text.len() + 1 - from,
{
    if from < 0 || from > text.len() {
        Seq::empty()
    } else {
        proof {
            lemma_piece_len_bound(text, sep, from);
        }
        let end = from + piece_len(text, sep, from);
        let at = Piece { start: from as usize, end: end as usize };
        let raw = text.subrange(from, end);
        if raw.len() == 0 {
            items_from(text, sep, source, end + 1, index, multi)
        } else {
            match multi {
                Some((name, place)) => seq![
                    Err(
                        FailureView {
                            string: raw,
                            piece: at,
                            error: ErrorView::TrailingAfterMulti(name, place),
                        },
                    ),
                ],
                None => match classify(raw) {
                    Err(error) => seq![Err(FailureView { string: raw, piece: at, error })]
                        + items_from(text, sep, source, end + 1, index + 1, None),
                    Ok((kind, name)) => seq![
                        Ok(
                            RouteSegmentView {
                                string: raw,
                                at,
                                kind,
                                source,
                                name,
                                index: Some(index as usize),
                            },
                        ),
                    ] + items_from(
                        text,
                        sep,
                        source,
                        end + 1,
                        index + 1,
                        if kind == Kind::Multi {
                            Some((name, at))
                        } else {
                            None
                        },
                    ),
                },
            }
        }
    }
}

/// Whether `item` speaks of places inside `text` only, and holds the text
/// of its piece.
pub open spec fn item_within(item: ItemView, text: Seq<char>) -> bool {
    match item {
        Ok(segment) => segment.at.within(text) && segment.string == segment.at.of(text),
        Err(failure) => {
            &&& failure.piece.within(text)
            &&& failure.string == failure.piece.of(text)
            &&& failure.error.within(text)
        },
    }
}

/// Every item speaks of places inside the text, and holds the text of its
/// piece.
proof fn lemma_items_within(
    text: Seq<char>,
    sep: char,
    source: Source,
    from: int,
    index: int,
    multi: Option<(Seq<char>, Piece)>,
)
    requires
        text.len() <= usize::MAX,
        multi is Some ==> multi->Some_0.1.within(text),
    ensures
        forall|i: int|
            0 <= i < items_from(text, sep, source, from, index, multi).len() ==> item_within(
                #[trigger] items_from(text, sep, source, from, index, multi)[i],
                text,
            ),
    decreases text.len() + 1 - from,
{
    let items = items_from(text, sep, source, from, index, multi);
    if 0 <= from <= text.len() {
        lemma_piece_len_bound(text, sep, from);
        let end = from + piece_len(text, sep, from);
        let at = Piece { start: from as usize, end: end as usize };
        let raw = text.subrange(from, end);
        if raw.len() == 0 {
            lemma_items_within(text, sep, source, end + 1, index, multi);
            assert(items == items_from(text, sep, source, end + 1, index, multi));
        } else if multi is None {
            let next = match classify(raw) {
                Err(_) => None,
                Ok((kind, name)) => if kind == Kind::Multi {
                    Some((name, at))
                } else {
                    None
                },
            };
            let rest = items_from(text, sep, source, end + 1, index + 1, next);
            lemma_items_within(text, sep, source, end + 1, index + 1, next);
            assert(items =~= seq![items[0]] + rest);
            assert(item_within(items[0], text));
            assert forall|i: int| 0 <= i < items.len() implies item_within(
                #[trigger] items[i],
                text,
            ) by {
                if i > 0 {
                    assert(items[i] == rest[i - 1]);
                }
            }
        } else {
            assert(items.len() == 1);
            assert(item_within(items[0], text));
        }
    } else {
        assert(items.len() == 0);
    }
}

/// What [`parse_many`] makes of `text`.
pub open spec fn parse_many_spec(text: Seq<char>, sep: char, source: Source) -> Seq<ItemView> {
    items_from(text, sep, source, 0, 0, None)
}

/// The offset of the first `sep` in `chars` at or after `from`, or the length
/// of `chars` where there is none.
fn piece_end(chars: &Vec<char>, sep: char, from: usize) -> (end: usize)
    requires
        from <= chars.len(),
    ensures
        end == from + piece_len(chars@, sep, from as int),
        from <= end <= chars.len(),
{
    let mut end: usize = from;
    while end < chars.len() && chars[end] != sep
        invariant
            from <= end <= chars.len(),
            piece_len(chars@, sep, from as int) == (end - from) + piece_len(
                chars@,
                sep,
                end as int,
            ),
        decreases chars.len() - end,
    {
        end += 1;
    }
    end
}

/// The pieces of a template, classified one at a time as they are asked for.
pub struct Splitter<'a> {
    text: &'a str,
    chars: Vec<char>,
    sep: char,
    source: Source,
    from: usize,
    index: usize,
    multi: Option<(String, Piece)>,
    done: bool,
}

impl<'a> Splitter<'a> {
    /// Whether the splitter's state is sound.
    pub closed spec fn wf(&self) -> bool {
        &&& self.chars@ == self.text@
        &&& self.from <= self.chars.len()
        &&& (self.done || self.index <= self.from)
    }

    /// The items still to come.
    pub closed spec fn remaining(&self) -> Seq<ItemView> {
        if self.done {
            Seq::empty()
        } else {
            items_from(
                self.chars@,
                self.sep,
                self.source,
                self.from as int,
                self.index as int,
                multi_view(self.multi),
            )
        }
    }

    /// A splitter at the start of `text`.
    pub fn new(text: &'a str, sep: char, source: Source) -> (splitter: Self)
        ensures
            splitter.wf(),
            splitter.remaining() == parse_many_spec(text@, sep, source),
            text@.len() <= usize::MAX,
    {
        let chars = chars_of(text);
        assert(chars.len() == text@.len());
        Splitter {
            text,
            chars,
            sep,
            source,
            from: 0,
            index: 0,
            multi: None,
            done: false,
        }
    }

    /// The next item, or `None` when no piece is left.
    pub fn next(&mut self) -> (r: Option<Result<RouteSegment, Failure>>)
        requires
            old(self).wf(),
        ensures
            final(self).wf(),
            match r {
                Some(item) => old(self).remaining() == seq![item_view(item)]
                    + final(self).remaining(),
                None => old(self).remaining().len() == 0 && final(self).remaining().len() == 0,
            },
    {
        let ghost before = self.remaining();
        let text: &'a str = self.text;
        let n: usize = self.chars.len();
        while !self.done
            invariant
                self.wf(),
                self.remaining() == before,
                before == old(self).remaining(),
                self.text == text,
                n == self.chars.len(),
            decreases
                    (if self.done {
                        0
                    } else {
                        n + 1 - self.from
                    }),
        {
            let from: usize = self.from;
            let end: usize = piece_end(&self.chars, self.sep, from);
            let index: usize = self.index;
            let ghost multi = multi_view(self.multi);
            assert(before == items_from(
                self.chars@,
                self.sep,
                self.source,
                from as int,
                index as int,
                multi,
            ));
            if end == n {
                self.done = true;
            } else {
                self.from = end + 1;
            }
            if end > from {
                let raw = text.substring_char(from, end);
                let at = Piece { start: from, end };
                assert(raw@ == self.chars@.subrange(from as int, end as int));
                self.index = index + 1;
                match self.multi.take() {
                    Some((name, place)) => {
                        self.done = true;
                        let item: Result<RouteSegment, Failure> = Err(
                            Failure {
                                string: String::from_str(raw),
                                piece: at,
                                error: Error::TrailingAfterMulti(name, place),
                            },
                        );
                        assert(before =~= seq![item_view(item)] + self.remaining());
                        return Some(item);
                    },
                    None => {},
                }
                let ghost rest = items_from(
                    self.chars@,
                    self.sep,
                    self.source,
                    end + 1,
                    index + 1,
                    None,
                );
                match parse_one(raw) {
                    Err(error) => {
                        let item: Result<RouteSegment, Failure> = Err(
                            Failure { string: String::from_str(raw), piece: at, error },
                        );
                        assert(self.remaining() == rest);
                        assert(before =~= seq![item_view(item)] + rest);
                        return Some(item);
                    },
                    Ok(segment) => {
                        let ghost kind = segment.kind;
                        let ghost name = segment.name@;
                        assert(classify(raw@) == Ok::<(Kind, Seq<char>), ErrorView>((kind, name)));
                        if segment.kind == Kind::Multi {
                            self.multi = Some((segment.name.clone(), at));
                        }
                        let ghost rest = items_from(
                            self.chars@,
                            self.sep,
                            self.source,
                            end + 1,
                            index + 1,
                            multi_view(self.multi),
                        );
                        let item: Result<RouteSegment, Failure> = Ok(
                            RouteSegment {
                                string: segment.string,
                                at,
                                kind: segment.kind,
                                source: self.source,
                                name: segment.name,
                                index: Some(index),
                            },
                        );
                        assert(self.remaining() == rest);
                        assert(before =~= seq![item_view(item)] + rest);
                        return Some(item);
                    },
                }
            }
            assert(self.remaining() == items_from(
                self.chars@,
                self.sep,
                self.source,
                end + 1,
                index as int,
                multi,
            ));
        }
        None
    }
}

/// Splits `text` on `sep` and classifies every piece that is not empty, in
/// order, marking each segment with `source` and with its position among
/// those pieces. The first piece after a trailing parameter is refused, and
/// ends the sequence.
pub fn parse_many(text: &str, sep: char, source: Source) -> (items: Vec<
    Result<RouteSegment, Failure>,
>)
    ensures
        items_view(items@) == parse_many_spec(text@, sep, source),
        forall|i: int| 0 <= i < items.len() ==> item_within(#[trigger] item_view(items[i]), text@),
{
    let mut splitter = Splitter::new(text, sep, source);
    proof {
        lemma_items_within(text@, sep, source, 0, 0, None);
    }
    let mut items: Vec<Result<RouteSegment, Failure>> = Vec::new();
    loop
        invariant
            splitter.wf(),
            items_view(items@) + splitter.remaining() == parse_many_spec(text@, sep, source),
        ensures
            items_view(items@) == parse_many_spec(text@, sep, source),
        decreases splitter.remaining().len(),
    {
        let ghost seen = items@;
        let ghost rest = splitter.remaining();
        match splitter.next() {
            Some(item) => {
                items.push(item);
                assert(items_view(items@) =~= items_view(seen) + seq![item_view(item)]);
                assert(items_view(items@) + splitter.remaining() =~= items_view(seen) + rest);
            },
            None => {
                assert(items_view(items@) + splitter.remaining() =~= items_view(items@));
                break ;
            },
        }
    }
    assert forall|i: int| 0 <= i < items.len() implies item_within(
        #[trigger] item_view(items[i]),
        text@,
    ) by {
        assert(items_view(items@)[i] == item_view(items[i]));
    }
    items
}

/// A piece that stops before the end of its text stops at a separator.
pub proof fn lemma_piece_stops_at_sep(text: Seq<char>, sep: char, from: int)
    requires
        0 <= from <= text.len(),
        from + piece_len(text, sep, from) < text.len(),
    ensures
        text[from + piece_len(text, sep, from)] == sep,
    decreases text.len() - from,
{
    if from < text.len() && text[from] != sep {
        lemma_piece_stops_at_sep(text, sep, from + 1);
    }
}

/// `pieces` in a row, with `sep` between neighbours.
pub open spec fn join(pieces: Seq<Seq<char>>, sep: char) -> Seq<char>
    decreases pieces.len(),
{
    if pieces.len() == 0 {
        Seq::empty()
    } else if pieces.len() == 1 {
        pieces[0]
    } else {
        pieces[0] + seq![sep] + join(pieces.drop_first(), sep)
    }
}

/// A segment as it is written in a template: literal text by its name, a
/// parameter by its name in brackets.
pub open spec fn written(segment: RouteSegmentView) -> Seq<char> {
    match segment.kind {
        Kind::Static => segment.name,
        Kind::Single => single(segment.name),
        Kind::Multi => multi(segment.name),
    }
}

/// Whether every item is a segment.
pub open spec fn all_segments(items: Seq<ItemView>) -> bool {
    forall|i: int| 0 <= i < items.len() ==> (#[trigger] items[i]) is Ok
}

/// Whether every item is a segment of literal text.
pub open spec fn all_static(items: Seq<ItemView>) -> bool {
    forall|i: int|
        0 <= i < items.len() ==> (#[trigger] items[i]) is Ok && items[i]->Ok_0.kind
            == Kind::Static
}

/// The segments among `items` as they are written, in order. It is meant
/// for items that are all segments.
pub open spec fn written_items(items: Seq<ItemView>) -> Seq<Seq<char>> {
    Seq::new(items.len(), |i: int| written(items[i]->Ok_0))
}

/// The names of the segments among `items`, in order. It is meant for items
/// that are all segments.
pub open spec fn names_of(items: Seq<ItemView>) -> Seq<Seq<char>> {
    Seq::new(items.len(), |i: int| items[i]->Ok_0.name)
}

/// Whether `text` from offset `from` on is made of pieces none of which is
/// empty.
pub open spec fn solid_from(text: Seq<char>, sep: char, from: int) -> bool
    decreases text.len() + 1 - from,
{
    if from < 0 || from >= text.len() {
        false
    } else {
        proof {
            lemma_piece_len_bound(text, sep, from);
        }
        let end = from + piece_len(text, sep, from);
        end > from && (end == text.len() || solid_from(text, sep, end + 1))
    }
}

/// A piece that the grammar accepts is written as its segment is.
pub proof fn lemma_written(raw: Seq<char>)
    requires
        classify(raw) is Ok,
    ensures
        written(
            RouteSegmentView {
                string: raw,
                at: arbitrary(),
                kind: classify(raw)->Ok_0.0,
                source: arbitrary(),
                name: classify(raw)->Ok_0.1,
                index: arbitrary(),
            },
        ) == raw,
{
    let (kind, name) = classify(raw)->Ok_0;
    if kind != Kind::Static {
        let content = raw.subrange(1, raw.len() - 1);
        assert(name == param_name(content));
        assert(kind == param_kind(content));
        if kind == Kind::Multi {
            assert(content =~= name + seq!['.', '.']);
            assert(raw =~= multi(name));
        } else {
            assert(raw =~= single(name));
        }
    }
}

/// From a place where no piece is empty on, the accepted pieces, written
/// out and joined, give back the text.
proof fn lemma_join_items(text: Seq<char>, sep: char, source: Source, from: int, index: int)
    requires
        0 <= from <= text.len(),
        solid_from(text, sep, from),
        all_segments(items_from(text, sep, source, from, index, None)),
    ensures
        items_from(text, sep, source, from, index, None).len() > 0,
        join(written_items(items_from(text, sep, source, from, index, None)), sep)
            == text.subrange(from, text.len() as int),
    decreases text.len() - from,
{
    lemma_piece_len_bound(text, sep, from);
    let len = text.len() as int;
    let end = from + piece_len(text, sep, from);
    let raw = text.subrange(from, end);
    let at = Piece { start: from as usize, end: end as usize };
    let items = items_from(text, sep, source, from, index, None);
    assert(items[0] is Ok);
    let (kind, name) = classify(raw)->Ok_0;
    lemma_written(raw);
    let next = if kind == Kind::Multi {
        Some((name, at))
    } else {
        None
    };
    let rest = items_from(text, sep, source, end + 1, index + 1, next);
    assert(items =~= seq![items[0]] + rest);
    assert(written_items(items)[0] == raw);
    if end == len {
        assert(rest =~= Seq::<ItemView>::empty());
        assert(written_items(items) =~= seq![raw]);
        assert(raw =~= text.subrange(from, len));
    } else {
        lemma_piece_stops_at_sep(text, sep, from);
        lemma_piece_len_bound(text, sep, end + 1);
        assert(solid_from(text, sep, end + 1));
        if kind == Kind::Multi {
            assert(rest[0] is Err);
            assert(items[1] == rest[0]);
            assert(false);
        }
        assert forall|i: int| 0 <= i < rest.len() implies (#[trigger] rest[i]) is Ok by {
            assert(items[i + 1] == rest[i]);
        }
        lemma_join_items(text, sep, source, end + 1, index + 1);
        assert(written_items(items).drop_first() =~= written_items(rest)) by {
            assert forall|i: int| 0 <= i < rest.len() implies written_items(items).drop_first()[i]
                == written_items(rest)[i] by {
                assert(items[i + 1] == rest[i]);
            }
        }
        assert(raw + seq![sep] + text.subrange(end + 1, len) =~= text.subrange(from, len));
    }
}

/// A template without empty pieces is written back by its segments: where
/// every piece of `text` is accepted, the segments, written out and joined
/// by `sep`, give `text`. Where all of them are literal text, so do their
/// names.
pub proof fn lemma_round_trip(text: Seq<char>, sep: char, source: Source)
    requires
        solid_from(text, sep, 0),
        all_segments(parse_many_spec(text, sep, source)),
    ensures
        join(written_items(parse_many_spec(text, sep, source)), sep) == text,
        all_static(parse_many_spec(text, sep, source)) ==> join(
            names_of(parse_many_spec(text, sep, source)),
            sep,
        ) == text,
{
    let items = parse_many_spec(text, sep, source);
    lemma_join_items(text, sep, source, 0, 0);
    assert(text.subrange(0, text.len() as int) =~= text);
    if all_static(items) {
        assert(names_of(items) =~= written_items(items));
    }
}

/// A template that opens with the separator, and has no empty piece after
/// it, is written back by its segments: where every piece of `text` is
/// accepted, `sep` and then the segments, written out and joined by `sep`,
/// give `text`. Where all of them are literal text, so do their names.
pub proof fn lemma_round_trip_rooted(text: Seq<char>, sep: char, source: Source)
    requires
        text.len() > 0,
        text[0] == sep,
        text.len() == 1 || solid_from(text, sep, 1),
        all_segments(parse_many_spec(text, sep, source)),
    ensures
        seq![sep] + join(written_items(parse_many_spec(text, sep, source)), sep) == text,
        all_static(parse_many_spec(text, sep, source)) ==> seq![sep] + join(
            names_of(parse_many_spec(text, sep, source)),
            sep,
        ) == text,
{
    let items = parse_many_spec(text, sep, source);
    let len = text.len() as int;
    assert(items == items_from(text, sep, source, 1, 0, None));
    if len == 1 {
        assert(items == items_from(text, sep, source, 2, 0, None));
        assert(items =~= Seq::<ItemView>::empty());
        assert(written_items(items) =~= Seq::<Seq<char>>::empty());
        assert(seq![sep] + join(written_items(items), sep) =~= text);
    } else {
        lemma_join_items(text, sep, source, 1, 0);
        assert(seq![sep] + text.subrange(1, len) =~= text);
    }
    if all_static(items) {
        assert(names_of(items) =~= written_items(items));
    }
}

} // verus!
