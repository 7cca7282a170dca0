//! Shadow specifications and the generator of shadow records.

use crate::error::{
    collected, error_at, lemma_collected_error_stays, result_view, ErrorKind, ParseError, Place,
};
use crate::field::{
    attrs_end, attrs_from, colon_at, is_colon_at, is_name_at, lemma_trailing_separator,
    lenient_piece, lenient_pieces, name_at, parse_attrs, parse_visibility, visibility_at,
    visibility_end,
};
use crate::shape::{
    copy_texts, Fields, FieldsView, NamedField, NamedFieldView, PositionalField,
    PositionalFieldView, RecordShape, RecordShapeView, Visibility, VisibilityView,
};
use crate::split::{angle_depth, lemma_segments_inside, open_angles, segments, split};
use crate::token::{render, rendered, Token, TokenView};
use vstd::prelude::*;

verus! {

/// A request for one shadow record: its annotations, visibility and
/// name, and the type that each of its fields gets.
#[derive(Clone, Debug, PartialEq, Eq)]
pub struct ShadowSpec {
    pub attrs: Vec<String>,
    pub visibility: Visibility,
    pub name: String,
    pub value_type: String,
}

/// The mathematical value of a [`ShadowSpec`].
pub struct ShadowSpecView {
    pub attrs: Seq<Seq<char>>,
    pub visibility: VisibilityView,
    pub name: Seq<char>,
    pub value_type: Seq<char>,
}

impl View for ShadowSpec {
    type V = ShadowSpecView;

    open spec fn view(&self) -> ShadowSpecView {
        ShadowSpecView {
            attrs: self.attrs.deep_view(),
            visibility: self.visibility@,
            name: self.name@,
            value_type: self.value_type@,
        }
    }
}

impl DeepView for ShadowSpec {
    type V = ShadowSpecView;

    open spec fn deep_view(&self) -> ShadowSpecView {
        self@
    }
}

/// The error of a shadow specification that is malformed at token `at`.
pub open spec fn malformed_shadow_spec(at: int) -> ParseError {
    error_at(ErrorKind::MalformedShadowSpec, Place::Specs, at)
}

/// The index of the name in a shadow specification: behind the
/// annotations, the visibility and the keyword `struct`, which may be
/// left out.
pub open spec fn spec_name_index(tokens: Seq<TokenView>) -> int {
    let at = visibility_end(tokens, attrs_end(tokens, 0));
    if 0 <= at < tokens.len() && tokens[at].is_ident("struct"@) {
        at + 1
    } else {
        at
    }
}

/// The shadow specification that `tokens` spell: annotations,
/// visibility, `struct`, a name, a colon, and a type of at least one
/// token whose angle brackets match.
pub open spec fn shadow_spec(tokens: Seq<TokenView>) -> Result<ShadowSpecView, ParseError> {
    let name_at = spec_name_index(tokens);
    if angle_depth(tokens) != 0 {
        Err(malformed_shadow_spec(0))
    } else if !is_name_at(tokens, name_at) {
        Err(malformed_shadow_spec(name_at))
    } else if !is_colon_at(tokens, name_at + 1) {
        Err(malformed_shadow_spec(name_at + 1))
    } else if name_at + 2 >= tokens.len() {
        Err(malformed_shadow_spec(tokens.len() as int))
    } else {
        Ok(
            ShadowSpecView {
                attrs: attrs_from(tokens, 0),
                visibility: visibility_at(tokens, attrs_end(tokens, 0)),
                name: tokens[name_at].name(),
                value_type: rendered(tokens.subrange(name_at + 2, tokens.len() as int)),
            },
        )
    }
}

/// The shadow specifications that `tokens` list: at least one. A list
/// that holds none is malformed at its start.
pub open spec fn shadow_specs(tokens: Seq<TokenView>) -> Result<Seq<ShadowSpecView>, ParseError> {
    match collected(lenient_pieces(tokens, |piece: Seq<TokenView>| shadow_spec(piece))) {
        Err(e) => Err(e),
        Ok(specs) => if specs.len() == 0 {
            Err(malformed_shadow_spec(0))
        } else {
            Ok(specs)
        },
    }
}

/// A named field of the primary with its type replaced by `ty`.
pub open spec fn shadow_named_field(field: NamedFieldView, ty: Seq<char>) -> NamedFieldView {
    NamedFieldView { attrs: field.attrs, visibility: field.visibility, name: field.name, ty }
}

/// A positional field of the primary with its type replaced by `ty`.
pub open spec fn shadow_positional_field(
    field: PositionalFieldView,
    ty: Seq<char>,
) -> PositionalFieldView {
    PositionalFieldView { attrs: field.attrs, ty }
}

/// The fields of the primary, each with its type replaced by `ty`.
pub open spec fn shadow_fields(fields: FieldsView, ty: Seq<char>) -> FieldsView {
    match fields {
        FieldsView::Named(fields) => FieldsView::Named(
            Seq::new(fields.len(), |i: int| shadow_named_field(fields[i], ty)),
        ),
        FieldsView::Positional(fields) => FieldsView::Positional(
            Seq::new(fields.len(), |i: int| shadow_positional_field(fields[i], ty)),
        ),
    }
}

/// The shadow record that `spec` asks for of `primary`: the
/// specification's annotations, visibility and name, the primary's
/// generic parameters and fields, every field with the specification's
/// type.
pub open spec fn generated(primary: RecordShapeView, spec: ShadowSpecView) -> RecordShapeView {
    RecordShapeView {
        attrs: spec.attrs,
        visibility: spec.visibility,
        name: spec.name,
        generics: primary.generics,
        fields: shadow_fields(primary.fields, spec.value_type),
    }
}

/// The primary, followed by one shadow record for each specification.
pub open spec fn expanded(primary: RecordShapeView, specs: Seq<ShadowSpecView>) -> Seq<
    RecordShapeView,
> {
    seq![primary] + Seq::new(specs.len(), |i: int| generated(primary, specs[i]))
}

/// Reads one shadow specification.
pub fn parse_shadow_spec(tokens: &Vec<Token>) -> (spec: Result<ShadowSpec, ParseError>)
    ensures
        result_view(spec) == shadow_spec(tokens.deep_view()),
        spec matches Err(e) ==> e.at <= tokens.len(),
{
    if open_angles(tokens) != 0 {
        return Err(ParseError { kind: ErrorKind::MalformedShadowSpec, place: Place::Specs, at: 0 });
    }
    let (attrs, attrs_end) = parse_attrs(tokens, 0);
    let (visibility, keyword) = parse_visibility(tokens, attrs_end);
    let at = if keyword < tokens.len() && tokens[keyword].is_ident("struct") {
        keyword + 1
    } else {
        keyword
    };
    if !name_at(tokens, at) {
        return Err(ParseError { kind: ErrorKind::MalformedShadowSpec, place: Place::Specs, at });
    }
    if !colon_at(tokens, at + 1) {
        return Err(ParseError { kind: ErrorKind::MalformedShadowSpec, place: Place::Specs, at: at + 1 });
    }
    if tokens.len() - at <= 2 {
        return Err(ParseError { kind: ErrorKind::MalformedShadowSpec, place: Place::Specs, at: tokens.len() });
    }
    let name = tokens[at].name();
    let value_type = render(tokens, at + 2, tokens.len());
    Ok(ShadowSpec { attrs, visibility, name, value_type })
}

/// Reads the shadow specifications that `tokens` list.
pub fn parse_shadow_specs(tokens: &Vec<Token>) -> (specs: Result<Vec<ShadowSpec>, ParseError>)
    ensures
        match specs {
            Ok(found) => shadow_specs(tokens.deep_view()) == Ok::<_, ParseError>(
                found.deep_view(),
            ),
            Err(e) => shadow_specs(tokens.deep_view()) == Err::<Seq<ShadowSpecView>, _>(e),
        },
        specs matches Err(e) ==> e.at <= tokens.len(),
{
    let ghost all = tokens.deep_view();
    let ghost outcomes = lenient_pieces(all, |piece: Seq<TokenView>| shadow_spec(piece));
    let pieces = split(tokens);
    proof {
        lemma_segments_inside(all);
    }
    let mut specs: Vec<ShadowSpec> = Vec::new();
    let mut k: usize = 0;
    assert(outcomes.take(0) =~= Seq::empty());
    assert(specs.deep_view() =~= Seq::<ShadowSpecView>::empty());
    while k < pieces.len()
        invariant
            k <= pieces.len(),
            all == tokens.deep_view(),
            pieces.deep_view() == segments(all),
            outcomes == lenient_pieces(all, |piece: Seq<TokenView>| shadow_spec(piece)),
            collected(outcomes.take(k as int)) == Ok::<_, ParseError>(specs.deep_view()),
            forall|j: int|
                0 <= j < segments(all).len() ==> 0 <= (#[trigger] segments(all)[j]).start
                    && segments(all)[j].start + segments(all)[j].tokens.len() <= all.len(),
        decreases pieces.len() - k,
    {
        let piece = &pieces[k];
        assert(segments(all)[k as int] == piece@);
        assert(piece.start + piece.tokens.len() <= tokens.len());
        assert(outcomes.take(k + 1).drop_last() =~= outcomes.take(k as int));
        assert(outcomes.take(k + 1).last() == lenient_piece(
            segments(all)[k as int],
            |piece: Seq<TokenView>| shadow_spec(piece),
        ));
        if piece.tokens.len() > 0 {
            match parse_shadow_spec(&piece.tokens) {
                Ok(spec) => {
                    let ghost before = specs.deep_view();
                    specs.push(spec);
                    assert(specs.deep_view() =~= before.push(spec@));
                },
                Err(e) => {
                    proof {
                        lemma_collected_error_stays(outcomes, k + 1);
                    }
                    return Err(e.shift(piece.start));
                },
            }
        }
        k = k + 1;
    }
    assert(outcomes.take(k as int) =~= outcomes);
    if specs.len() == 0 {
        return Err(ParseError { kind: ErrorKind::MalformedShadowSpec, place: Place::Specs, at: 0 });
    }
    Ok(specs)
}

/// Gives every field of `fields` the type `ty`.
pub fn substitute(fields: &Fields, ty: &String) -> (shadow: Fields)
    ensures
        shadow@ == shadow_fields(fields@, ty@),
{
    match fields {
        Fields::Named(fields) => {
            let mut shadow: Vec<NamedField> = Vec::new();
            let mut i: usize = 0;
            while i < fields.len()
                invariant
                    i <= fields.len(),
                    shadow.deep_view() == Seq::new(
                        i as nat,
                        |k: int| shadow_named_field(fields.deep_view()[k], ty@),
                    ),
                decreases fields.len() - i,
            {
                let ghost before = shadow.deep_view();
                let field = &fields[i];
                let copy = NamedField {
                    attrs: copy_texts(&field.attrs),
                    visibility: field.visibility.duplicate(),
                    name: field.name.clone(),
                    ty: ty.clone(),
                };
                shadow.push(copy);
                assert(shadow.deep_view() =~= before.push(copy@));
                i = i + 1;
                assert(shadow.deep_view() =~= Seq::new(
                    i as nat,
                    |k: int| shadow_named_field(fields.deep_view()[k], ty@),
                ));
            }
            Fields::Named(shadow)
        },
        Fields::Positional(fields) => {
            let mut shadow: Vec<PositionalField> = Vec::new();
            let mut i: usize = 0;
            while i < fields.len()
                invariant
                    i <= fields.len(),
                    shadow.deep_view() == Seq::new(
                        i as nat,
                        |k: int| shadow_positional_field(fields.deep_view()[k], ty@),
                    ),
                decreases fields.len() - i,
            {
                let ghost before = shadow.deep_view();
                let field = &fields[i];
                let copy = PositionalField { attrs: copy_texts(&field.attrs), ty: ty.clone() };
                shadow.push(copy);
                assert(shadow.deep_view() =~= before.push(copy@));
                i = i + 1;
                assert(shadow.deep_view() =~= Seq::new(
                    i as nat,
                    |k: int| shadow_positional_field(fields.deep_view()[k], ty@),
                ));
            }
            Fields::Positional(shadow)
        },
    }
}

/// Generates the shadow record that `spec` asks for of `primary`. It has
/// as many fields as the primary, in the same order and of the same
/// kind, each with the primary field's annotations (and, in a named
/// record, name and visibility) and with the type of the specification,
/// whatever the primary field's type.
pub fn generate(primary: &RecordShape, spec: &ShadowSpec) -> (shadow: RecordShape)
    ensures
        shadow@ == generated(primary@, spec@),
        shadow@.fields.kind() == primary@.fields.kind(),
        shadow@.fields.len() == primary@.fields.len(),
        forall|i: int|
            0 <= i < primary@.fields.len() ==> {
                &&& #[trigger] shadow@.fields.ty(i) == spec@.value_type
                &&& shadow@.fields.name(i) == primary@.fields.name(i)
                &&& shadow@.fields.visibility(i) == primary@.fields.visibility(i)
                &&& shadow@.fields.attrs(i) == primary@.fields.attrs(i)
            },
{
    RecordShape {
        attrs: copy_texts(&spec.attrs),
        visibility: spec.visibility.duplicate(),
        name: spec.name.clone(),
        generics: copy_texts(&primary.generics),
        fields: substitute(&primary.fields, &spec.value_type),
    }
}

/// The primary, followed by the shadow record of each specification, in
/// the order of the specifications.
pub fn expand(primary: RecordShape, specs: &Vec<ShadowSpec>) -> (records: Vec<RecordShape>)
    ensures
        records.deep_view() == expanded(primary@, specs.deep_view()),
        records.len() == specs.len() + 1,
        records[0]@ == primary@,
        forall|i: int|
            0 <= i < specs.len() ==> (#[trigger] records[i + 1])@ == generated(
                primary@,
                specs[i]@,
            ),
{
    let mut shadows: Vec<RecordShape> = Vec::new();
    let mut i: usize = 0;
    while i < specs.len()
        invariant
            i <= specs.len(),
            shadows.deep_view() == Seq::new(
                i as nat,
                |k: int| generated(primary@, specs.deep_view()[k]),
            ),
        decreases specs.len() - i,
    {
        let ghost before = shadows.deep_view();
        let shadow = generate(&primary, &specs[i]);
        shadows.push(shadow);
        assert(shadows.deep_view() =~= before.push(shadow@));
        i = i + 1;
        assert(shadows.deep_view() =~= Seq::new(
            i as nat,
            |k: int| generated(primary@, specs.deep_view()[k]),
        ));
    }
    let mut records: Vec<RecordShape> = Vec::new();
    records.push(primary);
    let ghost first = records.deep_view();
    let ghost rest = shadows.deep_view();
    records.append(&mut shadows);
    assert(records.deep_view() =~= first + rest);
    assert(first =~= seq![primary@]);
    assert forall|i: int| 0 <= i < specs.len() implies (#[trigger] records[i + 1])@ == generated(
        primary@,
        specs[i]@,
    ) by {
        assert(records.deep_view()[i + 1] == rest[i]);
    }
    records
}

/// The shadow specifications of a list are the same with and without a
/// comma behind the last specification.
pub proof fn lemma_shadow_specs_trailing_comma(tokens: Seq<TokenView>, comma: TokenView)
    requires
        comma.is_punct(','),
    ensures
        shadow_specs(tokens.push(comma)) == shadow_specs(tokens),
{
    lemma_trailing_separator(
        tokens,
        comma,
        |piece: Seq<TokenView>| shadow_spec(piece),
        malformed_shadow_spec(0),
    );
}

/// Each shadow record of an expansion is the one that its specification
/// gives alone: no specification bears on the record of another.
pub proof fn lemma_specs_are_independent(
    primary: RecordShapeView,
    specs: Seq<ShadowSpecView>,
    i: int,
)
    requires
        0 <= i < specs.len(),
    ensures
        expanded(primary, specs)[i + 1] == generated(primary, specs[i]),
        expanded(primary, specs)[i + 1] == expanded(primary, seq![specs[i]])[1],
{
}

/// The first record of an expansion is the primary as it was given.
pub proof fn lemma_primary_is_kept(primary: RecordShapeView, specs: Seq<ShadowSpecView>)
    ensures
        expanded(primary, specs).len() == specs.len() + 1,
        expanded(primary, specs)[0] == primary,
{
}

/// A shadow record has the fields of its primary: as many, of the same
/// kind, with the same names, visibilities and annotations in the same
/// order, and each of the type of the specification.
pub proof fn lemma_generated_fields(primary: RecordShapeView, spec: ShadowSpecView, i: int)
    requires
        0 <= i < primary.fields.len(),
    ensures
        generated(primary, spec).fields.len() == primary.fields.len(),
        generated(primary, spec).fields.kind() == primary.fields.kind(),
        generated(primary, spec).fields.ty(i) == spec.value_type,
        generated(primary, spec).fields.name(i) == primary.fields.name(i),
        generated(primary, spec).fields.visibility(i) == primary.fields.visibility(i),
        generated(primary, spec).fields.attrs(i) == primary.fields.attrs(i),
{
}

} // verus!
