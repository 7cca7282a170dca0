//! The parser of field lists: the body of a record declaration.

use crate::error::{
    collected, error_at, lemma_collected_error_stays, result_view, shifted, ErrorKind, ParseError,
    Piece, Place,
};
use crate::shape::{
    Fields, FieldsView, NamedField, NamedFieldView, PositionalField, PositionalFieldView,
    RecordKind, Visibility, VisibilityView,
};
use crate::split::{
    angle_depth, is_separator, lemma_last_segment_depth, lemma_segments_inside, open_angles,
    segments, split, SegmentView,
};
use crate::token::{render, rendered, Delimiter, Token, TokenView};
use vstd::prelude::*;

verus! {

/// The error of a field list that is malformed at token `at`.
pub open spec fn malformed_record(at: int) -> ParseError {
    error_at(ErrorKind::MalformedRecord, Place::Fields, at)
}

/// Whether an annotation stands at `i`: a `#` and a bracket group.
pub open spec fn is_attr_at(tokens: Seq<TokenView>, i: int) -> bool {
    0 <= i && i + 1 < tokens.len() && tokens[i].is_punct('#') && tokens[i + 1].is_group(
        Delimiter::Bracket,
    )
}

/// The index behind the annotations that start at `i`.
pub open spec fn attrs_end(tokens: Seq<TokenView>, i: int) -> int
    decreases tokens.len() - i,
{
    if is_attr_at(tokens, i) {
        attrs_end(tokens, i + 2)
    } else {
        i
    }
}

/// The annotations that start at `i`, each as the text between its brackets.
pub open spec fn attrs_from(tokens: Seq<TokenView>, i: int) -> Seq<Seq<char>>
    decreases tokens.len() - i,
{
    if is_attr_at(tokens, i) {
        seq![tokens[i + 1].inner()] + attrs_from(tokens, i + 2)
    } else {
        Seq::empty()
    }
}

/// The index behind the visibility qualifier at `i`: `pub` and the
/// parenthesized group after it, if there is one.
pub open spec fn visibility_end(tokens: Seq<TokenView>, i: int) -> int {
    if 0 <= i < tokens.len() && tokens[i].is_ident("pub"@) {
        if i + 1 < tokens.len() && tokens[i + 1].is_group(Delimiter::Parenthesis) {
            i + 2
        } else {
            i + 1
        }
    } else {
        i
    }
}

/// The visibility qualifier at `i`.
pub open spec fn visibility_at(tokens: Seq<TokenView>, i: int) -> VisibilityView {
    if 0 <= i < tokens.len() && tokens[i].is_ident("pub"@) {
        if i + 1 < tokens.len() && tokens[i + 1].is_group(Delimiter::Parenthesis) {
            VisibilityView::Restricted(tokens[i + 1].inner())
        } else {
            VisibilityView::Public
        }
    } else {
        VisibilityView::Inherited
    }
}

/// Whether a colon stands at `i` that is not the first half of a path
/// separator `::`.
pub open spec fn is_colon_at(tokens: Seq<TokenView>, i: int) -> bool {
    0 <= i < tokens.len() && tokens[i].is_punct(':') && !(tokens[i].is_joint() && i + 1
        < tokens.len() && tokens[i + 1].is_punct(':'))
}

/// Whether an identifier or keyword stands at `i`.
pub open spec fn is_name_at(tokens: Seq<TokenView>, i: int) -> bool {
    0 <= i < tokens.len() && tokens[i].is_name()
}

/// The named field that `tokens` spell: annotations, visibility, name,
/// colon, and a type of at least one token whose angle brackets match.
pub open spec fn named_field(tokens: Seq<TokenView>) -> Result<NamedFieldView, ParseError> {
    let name_at = visibility_end(tokens, attrs_end(tokens, 0));
    if angle_depth(tokens) != 0 {
        Err(malformed_record(0))
    } else if !is_name_at(tokens, name_at) {
        Err(malformed_record(name_at))
    } else if !is_colon_at(tokens, name_at + 1) {
        Err(malformed_record(name_at + 1))
    } else if name_at + 2 >= tokens.len() {
        Err(malformed_record(tokens.len() as int))
    } else {
        Ok(
            NamedFieldView {
                attrs: attrs_from(tokens, 0),
                visibility: visibility_at(tokens, attrs_end(tokens, 0)),
                name: tokens[name_at].name(),
                ty: rendered(tokens.subrange(name_at + 2, tokens.len() as int)),
            },
        )
    }
}

/// The positional field that `tokens` spell: annotations, and a type of
/// at least one token whose angle brackets match.
pub open spec fn positional_field(tokens: Seq<TokenView>) -> Result<
    PositionalFieldView,
    ParseError,
> {
    let type_at = attrs_end(tokens, 0);
    if angle_depth(tokens) != 0 {
        Err(malformed_record(0))
    } else if type_at >= tokens.len() {
        Err(malformed_record(tokens.len() as int))
    } else {
        Ok(
            PositionalFieldView {
                attrs: attrs_from(tokens, 0),
                ty: rendered(tokens.subrange(type_at, tokens.len() as int)),
            },
        )
    }
}

/// The outcome of a piece of a list whose empty pieces count for nothing:
/// `item` says what a piece that holds tokens spells; its error is
/// reported at its place in the whole list.
pub open spec fn lenient_piece<T>(
    piece: SegmentView,
    item: spec_fn(Seq<TokenView>) -> Result<T, ParseError>,
) -> Piece<T> {
    if piece.tokens.len() == 0 {
        None
    } else {
        match item(piece.tokens) {
            Ok(value) => Some(Ok(value)),
            Err(e) => Some(Err(shifted(e, piece.start))),
        }
    }
}

/// The outcomes of all pieces of `tokens`, empty pieces counting for nothing.
pub open spec fn lenient_pieces<T>(
    tokens: Seq<TokenView>,
    item: spec_fn(Seq<TokenView>) -> Result<T, ParseError>,
) -> Seq<Piece<T>> {
    Seq::new(segments(tokens).len(), |k: int| lenient_piece(segments(tokens)[k], item))
}

/// The named fields that `tokens` list.
pub open spec fn named_fields(tokens: Seq<TokenView>) -> Result<Seq<NamedFieldView>, ParseError> {
    collected(lenient_pieces(tokens, |piece: Seq<TokenView>| named_field(piece)))
}

/// The positional fields that `tokens` list.
pub open spec fn positional_fields(tokens: Seq<TokenView>) -> Result<
    Seq<PositionalFieldView>,
    ParseError,
> {
    collected(lenient_pieces(tokens, |piece: Seq<TokenView>| positional_field(piece)))
}

/// The fields of a record of the given kind whose body is `tokens`.
pub open spec fn fields_of(tokens: Seq<TokenView>, kind: RecordKind) -> Result<
    FieldsView,
    ParseError,
> {
    match kind {
        RecordKind::Named => match named_fields(tokens) {
            Ok(fields) => Ok(FieldsView::Named(fields)),
            Err(e) => Err(e),
        },
        RecordKind::Positional => match positional_fields(tokens) {
            Ok(fields) => Ok(FieldsView::Positional(fields)),
            Err(e) => Err(e),
        },
    }
}

/// Reads the annotations that start at `from`; returns them with the
/// index behind them.
pub fn parse_attrs(tokens: &Vec<Token>, from: usize) -> (found: (Vec<String>, usize))
    requires
        from <= tokens.len(),
    ensures
        found.0.deep_view() == attrs_from(tokens.deep_view(), from as int),
        found.1 == attrs_end(tokens.deep_view(), from as int),
        from <= found.1 <= tokens.len(),
{
    let ghost all = tokens.deep_view();
    let mut attrs: Vec<String> = Vec::new();
    let mut i: usize = from;
    assert(attrs.deep_view() =~= Seq::<Seq<char>>::empty());
    while i < tokens.len() && tokens.len() - i >= 2 && tokens[i].is_punct('#') && tokens[i
        + 1].is_group(Delimiter::Bracket)
        invariant
            from <= i <= tokens.len(),
            all == tokens.deep_view(),
            attrs_from(all, from as int) == attrs.deep_view() + attrs_from(all, i as int),
            attrs_end(all, from as int) == attrs_end(all, i as int),
        decreases tokens.len() - i,
    {
        let ghost before = attrs.deep_view();
        let inner = tokens[i + 1].inner();
        attrs.push(inner);
        assert(attrs.deep_view() =~= before.push(all[i + 1].inner()));
        assert(attrs.deep_view() + attrs_from(all, i + 2) =~= before + attrs_from(all, i as int));
        i = i + 2;
    }
    assert(!is_attr_at(all, i as int));
    assert(attrs.deep_view() + attrs_from(all, i as int) =~= attrs.deep_view());
    (attrs, i)
}

/// Reads the visibility qualifier at `from`; returns it with the index
/// behind it.
pub fn parse_visibility(tokens: &Vec<Token>, from: usize) -> (found: (Visibility, usize))
    requires
        from <= tokens.len(),
    ensures
        found.0@ == visibility_at(tokens.deep_view(), from as int),
        found.1 == visibility_end(tokens.deep_view(), from as int),
        from <= found.1 <= tokens.len(),
{
    if from < tokens.len() && tokens[from].is_ident("pub") {
        if tokens.len() - from >= 2 && tokens[from + 1].is_group(Delimiter::Parenthesis) {
            (Visibility::Restricted(tokens[from + 1].inner()), from + 2)
        } else {
            (Visibility::Public, from + 1)
        }
    } else {
        (Visibility::Inherited, from)
    }
}

/// Whether a colon stands at `i` that is not the first half of a path
/// separator `::`.
pub fn colon_at(tokens: &Vec<Token>, i: usize) -> (yes: bool)
    ensures
        yes == is_colon_at(tokens.deep_view(), i as int),
{
    i < tokens.len() && tokens[i].is_punct(':') && !(tokens[i].is_joint() && tokens.len() - i > 1
        && tokens[i + 1].is_punct(':'))
}

/// Whether an identifier or keyword stands at `i`.
pub fn name_at(tokens: &Vec<Token>, i: usize) -> (yes: bool)
    ensures
        yes == is_name_at(tokens.deep_view(), i as int),
{
    i < tokens.len() && tokens[i].is_name()
}

/// Reads one named field.
pub fn parse_named_field(tokens: &Vec<Token>) -> (field: Result<NamedField, ParseError>)
    ensures
        result_view(field) == named_field(tokens.deep_view()),
        field matches Err(e) ==> e.at <= tokens.len(),
{
    if open_angles(tokens) != 0 {
        return Err(ParseError { kind: ErrorKind::MalformedRecord, place: Place::Fields, at: 0 });
    }
    let (attrs, attrs_end) = parse_attrs(tokens, 0);
    let (visibility, at) = parse_visibility(tokens, attrs_end);
    if !name_at(tokens, at) {
        return Err(ParseError { kind: ErrorKind::MalformedRecord, place: Place::Fields, at });
    }
    if !colon_at(tokens, at + 1) {
        return Err(ParseError { kind: ErrorKind::MalformedRecord, place: Place::Fields, at: at + 1 });
    }
    if tokens.len() - at <= 2 {
        return Err(ParseError { kind: ErrorKind::MalformedRecord, place: Place::Fields, at: tokens.len() });
    }
    let name = tokens[at].name();
    let ty = render(tokens, at + 2, tokens.len());
    Ok(NamedField { attrs, visibility, name, ty })
}

/// Reads one positional field.
pub fn parse_positional_field(tokens: &Vec<Token>) -> (field: Result<PositionalField, ParseError>)
    ensures
        result_view(field) == positional_field(tokens.deep_view()),
        field matches Err(e) ==> e.at <= tokens.len(),
{
    if open_angles(tokens) != 0 {
        return Err(ParseError { kind: ErrorKind::MalformedRecord, place: Place::Fields, at: 0 });
    }
    let (attrs, at) = parse_attrs(tokens, 0);
    if at >= tokens.len() {
        return Err(ParseError { kind: ErrorKind::MalformedRecord, place: Place::Fields, at: tokens.len() });
    }
    let ty = render(tokens, at, tokens.len());
    Ok(PositionalField { attrs, ty })
}

/// Reads the named fields that `tokens` list.
pub fn parse_named_fields(tokens: &Vec<Token>) -> (fields: Result<Vec<NamedField>, ParseError>)
    ensures
        match fields {
            Ok(found) => named_fields(tokens.deep_view()) == Ok::<_, ParseError>(found.deep_view()),
            Err(e) => named_fields(tokens.deep_view()) == Err::<Seq<NamedFieldView>, _>(e),
        },
{
    let ghost all = tokens.deep_view();
    let ghost outcomes = lenient_pieces(all, |piece: Seq<TokenView>| named_field(piece));
    let pieces = split(tokens);
    proof {
        lemma_segments_inside(all);
    }
    let mut fields: Vec<NamedField> = Vec::new();
    let mut k: usize = 0;
    assert(outcomes.take(0) =~= Seq::empty());
    assert(fields.deep_view() =~= Seq::<NamedFieldView>::empty());
    while k < pieces.len()
        invariant
            k <= pieces.len(),
            all == tokens.deep_view(),
            pieces.deep_view() == segments(all),
            outcomes == lenient_pieces(all, |piece: Seq<TokenView>| named_field(piece)),
            collected(outcomes.take(k as int)) == Ok::<_, ParseError>(fields.deep_view()),
            forall|j: int|
                0 <= j < segments(all).len() ==> 0 <= (#[trigger] segments(all)[j]).start
                    && segments(all)[j].start + segments(all)[j].tokens.len() <= all.len(),
        decreases pieces.len() - k,
    {
        let piece = &pieces[k];
        assert(segments(all)[k as int] == piece@);
        assert(piece.start + piece.tokens.len() <= tokens.len());
        assert(outcomes.take(k + 1).drop_last() =~= outcomes.take(k as int));
        assert(outcomes.take(k + 1).last() == lenient_piece(
            segments(all)[k as int],
            |piece: Seq<TokenView>| named_field(piece),
        ));
        if piece.tokens.len() > 0 {
            match parse_named_field(&piece.tokens) {
                Ok(field) => {
                    let ghost before = fields.deep_view();
                    fields.push(field);
                    assert(fields.deep_view() =~= before.push(field@));
                },
                Err(e) => {
                    proof {
                        lemma_collected_error_stays(outcomes, k + 1);
                    }
                    return Err(e.shift(piece.start));
                },
            }
        }
        k = k + 1;
    }
    assert(outcomes.take(k as int) =~= outcomes);
    Ok(fields)
}

/// Reads the positional fields that `tokens` list.
pub fn parse_positional_fields(tokens: &Vec<Token>) -> (fields: Result<
    Vec<PositionalField>,
    ParseError,
>)
    ensures
        match fields {
            Ok(found) => positional_fields(tokens.deep_view()) == Ok::<_, ParseError>(
                found.deep_view(),
            ),
            Err(e) => positional_fields(tokens.deep_view()) == Err::<Seq<PositionalFieldView>, _>(
                e,
            ),
        },
{
    let ghost all = tokens.deep_view();
    let ghost outcomes = lenient_pieces(all, |piece: Seq<TokenView>| positional_field(piece));
    let pieces = split(tokens);
    proof {
        lemma_segments_inside(all);
    }
    let mut fields: Vec<PositionalField> = Vec::new();
    let mut k: usize = 0;
    assert(outcomes.take(0) =~= Seq::empty());
    assert(fields.deep_view() =~= Seq::<PositionalFieldView>::empty());
    while k < pieces.len()
        invariant
            k <= pieces.len(),
            all == tokens.deep_view(),
            pieces.deep_view() == segments(all),
            outcomes == lenient_pieces(all, |piece: Seq<TokenView>| positional_field(piece)),
            collected(outcomes.take(k as int)) == Ok::<_, ParseError>(fields.deep_view()),
            forall|j: int|
                0 <= j < segments(all).len() ==> 0 <= (#[trigger] segments(all)[j]).start
                    && segments(all)[j].start + segments(all)[j].tokens.len() <= all.len(),
        decreases pieces.len() - k,
    {
        let piece = &pieces[k];
        assert(segments(all)[k as int] == piece@);
        assert(piece.start + piece.tokens.len() <= tokens.len());
        assert(outcomes.take(k + 1).drop_last() =~= outcomes.take(k as int));
        assert(outcomes.take(k + 1).last() == lenient_piece(
            segments(all)[k as int],
            |piece: Seq<TokenView>| positional_field(piece),
        ));
        if piece.tokens.len() > 0 {
            match parse_positional_field(&piece.tokens) {
                Ok(field) => {
                    let ghost before = fields.deep_view();
                    fields.push(field);
                    assert(fields.deep_view() =~= before.push(field@));
                },
                Err(e) => {
                    proof {
                        lemma_collected_error_stays(outcomes, k + 1);
                    }
                    return Err(e.shift(piece.start));
                },
            }
        }
        k = k + 1;
    }
    assert(outcomes.take(k as int) =~= outcomes);
    Ok(fields)
}

/// Reads the fields of a record of the given kind from the tokens of its body.
pub fn parse_fields(tokens: &Vec<Token>, kind: RecordKind) -> (fields: Result<Fields, ParseError>)
    ensures
        result_view(fields) == fields_of(tokens.deep_view(), kind),
{
    match kind {
        RecordKind::Named => match parse_named_fields(tokens) {
            Ok(fields) => Ok(Fields::Named(fields)),
            Err(e) => Err(e),
        },
        RecordKind::Positional => match parse_positional_fields(tokens) {
            Ok(fields) => Ok(Fields::Positional(fields)),
            Err(e) => Err(e),
        },
    }
}

/// A comma behind a list changes nothing of what the list holds,
/// whatever its pieces spell, as long as a piece with unmatched angle
/// brackets is an error that does not depend on what the piece holds.
pub proof fn lemma_trailing_separator<T>(
    tokens: Seq<TokenView>,
    comma: TokenView,
    item: spec_fn(Seq<TokenView>) -> Result<T, ParseError>,
    unbalanced: ParseError,
)
    requires
        comma.is_punct(','),
        forall|piece: Seq<TokenView>|
            angle_depth(piece) != 0 ==> #[trigger] item(piece) == Err::<T, _>(unbalanced),
    ensures
        collected(lenient_pieces(tokens.push(comma), item)) == collected(
            lenient_pieces(tokens, item),
        ),
{
    let longer = tokens.push(comma);
    let pieces = segments(tokens);
    let outcomes = lenient_pieces(tokens, item);
    let longer_outcomes = lenient_pieces(longer, item);
    assert(longer.drop_last() =~= tokens);
    assert(longer.take(longer.len() - 1) =~= tokens);
    lemma_segments_inside(tokens);
    lemma_last_segment_depth(tokens);
    lemma_last_segment_depth(longer);
    if angle_depth(tokens) == 0 {
        assert(is_separator(longer, longer.len() - 1));
        assert(longer_outcomes =~= outcomes.push(None));
        assert(longer_outcomes.drop_last() =~= outcomes);
    } else {
        assert(!is_separator(longer, longer.len() - 1));
        let last = pieces.last();
        let grown = SegmentView { start: last.start, tokens: last.tokens.push(comma) };
        assert(segments(longer) == pieces.drop_last().push(grown));
        assert(angle_depth(grown.tokens) != 0);
        assert(angle_depth(last.tokens) != 0);
        assert(item(grown.tokens) == Err::<T, _>(unbalanced));
        assert(item(last.tokens) == Err::<T, _>(unbalanced));
        assert(longer_outcomes =~= outcomes);
    }
}

/// The named fields of a list are the same with and without a comma
/// behind the last field.
pub proof fn lemma_named_fields_trailing_comma(tokens: Seq<TokenView>, comma: TokenView)
    requires
        comma.is_punct(','),
    ensures
        named_fields(tokens.push(comma)) == named_fields(tokens),
{
    lemma_trailing_separator(
        tokens,
        comma,
        |piece: Seq<TokenView>| named_field(piece),
        malformed_record(0),
    );
}

/// The positional fields of a list are the same with and without a
/// comma behind the last field.
pub proof fn lemma_positional_fields_trailing_comma(tokens: Seq<TokenView>, comma: TokenView)
    requires
        comma.is_punct(','),
    ensures
        positional_fields(tokens.push(comma)) == positional_fields(tokens),
{
    lemma_trailing_separator(
        tokens,
        comma,
        |piece: Seq<TokenView>| positional_field(piece),
        malformed_record(0),
    );
}

/// The fields of a record body are the same with and without a comma
/// behind the last field.
pub proof fn lemma_fields_trailing_comma(tokens: Seq<TokenView>, comma: TokenView, kind: RecordKind)
    requires
        comma.is_punct(','),
    ensures
        fields_of(tokens.push(comma), kind) == fields_of(tokens, kind),
{
    lemma_named_fields_trailing_comma(tokens, comma);
    lemma_positional_fields_trailing_comma(tokens, comma);
}

} // verus!
