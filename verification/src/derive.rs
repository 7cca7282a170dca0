//! The entry that takes its shadow specifications from annotations on
//! the primary record.

use crate::attr::struct_level::{
    all_annotations, outcome_views, proc_all_attributes, MetadataStruct, MetadataStructView,
    PrefixView, StructLevelAttributeArgPrefix,
};
use crate::emit::{
    attrs_text, declaration_text, declarations_text, emit, emit_all, visibility_text, write_attrs,
    write_visibility,
};
use crate::error::{error_at, message_text, result_view, ErrorKind, ParseError, Place};
use crate::record::{parse_record, record_of};
use crate::shadow::{expand, expanded, generated, ShadowSpec, ShadowSpecView};
use crate::shape::{RecordShape, RecordShapeView, Visibility, VisibilityView};
use crate::token::{group_text, lex, lexed, render, rendered, write_group, Delimiter, Token, TokenView};
use vstd::prelude::*;

verus! {

/// Whether the tokens between the brackets of an attribute start with
/// the single name `metadata`.
pub open spec fn is_metadata_attr(attr: Seq<TokenView>) -> bool {
    0 < attr.len() && attr[0].is_ident("metadata"@) && !(1 < attr.len() && attr[1].is_punct(':'))
}

/// Whether the attribute with the text `attr` is one of this library's.
pub open spec fn is_own_attr(attr: Seq<char>) -> bool {
    lexed(attr) matches Some(tokens) && is_metadata_attr(tokens)
}

/// The tokens of those attributes that are this library's, in order.
pub open spec fn own_attrs(attrs: Seq<Seq<char>>) -> Seq<Seq<TokenView>>
    decreases attrs.len(),
{
    if attrs.len() == 0 {
        Seq::empty()
    } else if is_own_attr(attrs.last()) {
        own_attrs(attrs.drop_last()).push(lexed(attrs.last())->Some_0)
    } else {
        own_attrs(attrs.drop_last())
    }
}

/// The attributes that are not this library's, in order.
pub open spec fn other_attrs(attrs: Seq<Seq<char>>) -> Seq<Seq<char>>
    decreases attrs.len(),
{
    if attrs.len() == 0 {
        Seq::empty()
    } else if is_own_attr(attrs.last()) {
        other_attrs(attrs.drop_last())
    } else {
        other_attrs(attrs.drop_last()).push(attrs.last())
    }
}

/// The error of the annotation at `at`, counted over all annotations of
/// the record, that gives its shadow record no field type.
pub open spec fn missing_field_type(at: int) -> ParseError {
    error_at(ErrorKind::MissingFieldType, Place::Annotations, at)
}

/// The outcome of an annotation once a field type is asked of it.
pub open spec fn typed_outcome(outcome: Result<MetadataStructView, ParseError>, at: int) -> Result<
    MetadataStructView,
    ParseError,
> {
    match outcome {
        Ok(annotation) => if annotation.metadata_type is None {
            Err(missing_field_type(at))
        } else {
            Ok(annotation)
        },
        Err(e) => Err(e),
    }
}

/// The outcomes once a field type is asked of every annotation.
pub open spec fn typed_outcomes(outcomes: Seq<Result<MetadataStructView, ParseError>>) -> Seq<
    Result<MetadataStructView, ParseError>,
> {
    Seq::new(outcomes.len(), |k: int| typed_outcome(outcomes[k], k))
}

/// The values among the outcomes, in order.
pub open spec fn successes<T>(outcomes: Seq<Result<T, ParseError>>) -> Seq<T>
    decreases outcomes.len(),
{
    if outcomes.len() == 0 {
        Seq::empty()
    } else {
        match outcomes.last() {
            Ok(value) => successes(outcomes.drop_last()).push(value),
            Err(_) => successes(outcomes.drop_last()),
        }
    }
}

/// The errors among the outcomes, in order.
pub open spec fn failures<T>(outcomes: Seq<Result<T, ParseError>>) -> Seq<ParseError>
    decreases outcomes.len(),
{
    if outcomes.len() == 0 {
        Seq::empty()
    } else {
        match outcomes.last() {
            Ok(_) => failures(outcomes.drop_last()),
            Err(e) => failures(outcomes.drop_last()).push(e),
        }
    }
}

/// The shadow specification that an annotation stands for: its
/// visibility and name, and its type as it is written. The alias has no
/// part in it; an annotation without a type gives an empty one.
pub open spec fn shadow_spec_of(annotation: MetadataStructView) -> ShadowSpecView {
    ShadowSpecView {
        attrs: Seq::empty(),
        visibility: match annotation.prefix {
            PrefixView::Visibility(visibility) => visibility,
            _ => VisibilityView::Inherited,
        },
        name: annotation.name,
        value_type: match annotation.metadata_type {
            Some(ty) => rendered(ty.metadata_type),
            None => Seq::empty(),
        },
    }
}

/// The shadow specifications that the annotations stand for, in order.
pub open spec fn shadow_specs_of(annotations: Seq<MetadataStructView>) -> Seq<ShadowSpecView> {
    Seq::new(annotations.len(), |i: int| shadow_spec_of(annotations[i]))
}

/// A call of the primary entry: a primary record and the shadow
/// specifications for it.
#[derive(Clone, Debug, PartialEq, Eq)]
pub struct Call {
    pub primary: RecordShape,
    pub specs: Vec<ShadowSpec>,
}

/// The mathematical value of a [`Call`].
pub struct CallView {
    pub primary: RecordShapeView,
    pub specs: Seq<ShadowSpecView>,
}

impl View for Call {
    type V = CallView;

    open spec fn view(&self) -> CallView {
        CallView { primary: self.primary@, specs: self.specs.deep_view() }
    }
}

/// The call that stands for a record and its annotations.
pub open spec fn wrapped(
    main_struct: RecordShapeView,
    annotations: Seq<MetadataStructView>,
) -> CallView {
    CallView { primary: main_struct, specs: shadow_specs_of(annotations) }
}

/// A shadow specification as a call writes it: annotations, visibility,
/// the keyword `struct`, the name, a colon and the type.
pub open spec fn spec_text(spec: ShadowSpecView) -> Seq<char> {
    attrs_text(spec.attrs) + visibility_text(spec.visibility) + "struct "@ + spec.name + ": "@
        + spec.value_type
}

/// The shadow specifications as a call writes them, a comma before each.
pub open spec fn specs_text(specs: Seq<ShadowSpecView>) -> Seq<char>
    decreases specs.len(),
{
    if specs.len() == 0 {
        Seq::empty()
    } else {
        specs_text(specs.drop_last()) + ", "@ + spec_text(specs.last())
    }
}

/// The text of a call: the declaration of the primary between braces,
/// then the shadow specifications.
pub open spec fn call_text(call: CallView) -> Seq<char> {
    group_text(Delimiter::Brace, declaration_text(call.primary)) + specs_text(call.specs)
}

/// The record without the attributes that are this library's.
pub open spec fn stripped(shape: RecordShapeView) -> RecordShapeView {
    RecordShapeView {
        attrs: other_attrs(shape.attrs),
        visibility: shape.visibility,
        name: shape.name,
        generics: shape.generics,
        fields: shape.fields,
    }
}

/// The outcomes of the annotations of a record.
pub open spec fn annotation_outcomes(shape: RecordShapeView) -> Seq<
    Result<MetadataStructView, ParseError>,
> {
    typed_outcomes(all_annotations(own_attrs(shape.attrs)))
}

/// The records that an annotated record stands for: every error among
/// its annotations if there is one; else the record without its
/// annotations and one shadow record for each of them, in their order.
pub open spec fn derived_records(shape: RecordShapeView) -> Result<
    Seq<RecordShapeView>,
    Seq<ParseError>,
> {
    let outcomes = annotation_outcomes(shape);
    if failures(outcomes).len() > 0 {
        Err(failures(outcomes))
    } else {
        let call = wrapped(stripped(shape), successes(outcomes));
        Ok(expanded(call.primary, call.specs))
    }
}

/// The declarations that an annotated record stands for.
pub open spec fn derived_from(shape: RecordShapeView) -> Result<Seq<char>, Seq<ParseError>> {
    match derived_records(shape) {
        Ok(records) => Ok(declarations_text(records)),
        Err(errors) => Err(errors),
    }
}

/// The declarations that the annotated record `text` stands for.
pub open spec fn derived(text: Seq<char>) -> Result<Seq<char>, Seq<ParseError>> {
    match record_of(text) {
        Err(e) => Err(seq![e]),
        Ok(shape) => derived_from(shape),
    }
}

/// The text that reports one error to the compiler.
pub open spec fn compile_error_text(e: ParseError) -> Seq<char> {
    "::core::compile_error! { \""@ + message_text(e) + "\" }\n"@
}

/// The text that reports the errors to the compiler, one after the other.
pub open spec fn compile_errors_text(errors: Seq<ParseError>) -> Seq<char>
    decreases errors.len(),
{
    if errors.len() == 0 {
        Seq::empty()
    } else {
        compile_errors_text(errors.drop_last()) + compile_error_text(errors.last())
    }
}

/// What the annotated record `text` is replaced by: its declarations, or
/// the report of its errors.
pub open spec fn derive_output(text: Seq<char>) -> Seq<char> {
    match derived(text) {
        Ok(declarations) => declarations,
        Err(errors) => compile_errors_text(errors),
    }
}

/// The mathematical value of the outcome of the annotation-driven entry.
pub open spec fn derived_view(outcome: Result<String, Vec<ParseError>>) -> Result<
    Seq<char>,
    Seq<ParseError>,
> {
    match outcome {
        Ok(text) => Ok(text@),
        Err(errors) => Err(errors@),
    }
}

/// The mathematical value of records or errors.
pub open spec fn derived_records_view(outcome: Result<Vec<RecordShape>, Vec<ParseError>>) -> Result<
    Seq<RecordShapeView>,
    Seq<ParseError>,
> {
    match outcome {
        Ok(records) => Ok(records.deep_view()),
        Err(errors) => Err(errors@),
    }
}

/// Whether an attribute, given as the tokens between its brackets, is
/// one of this library's.
pub fn filter_attr(attr: &Vec<Token>) -> (own: bool)
    ensures
        own == is_metadata_attr(attr.deep_view()),
{
    0 < attr.len() && attr[0].is_ident("metadata") && !(1 < attr.len() && attr[1].is_punct(':'))
}

/// Parts the attributes of a record: the tokens of those that are this
/// library's, and the texts of the others.
pub fn sort_attrs(attrs: &Vec<String>) -> (sorted: (Vec<Vec<Token>>, Vec<String>))
    ensures
        sorted.0.deep_view() == own_attrs(attrs.deep_view()),
        sorted.1.deep_view() == other_attrs(attrs.deep_view()),
{
    let ghost all = attrs.deep_view();
    let mut own: Vec<Vec<Token>> = Vec::new();
    let mut others: Vec<String> = Vec::new();
    let mut i: usize = 0;
    assert(all.take(0).len() == 0);
    assert(own.deep_view() =~= Seq::<Seq<TokenView>>::empty());
    assert(others.deep_view() =~= Seq::<Seq<char>>::empty());
    while i < attrs.len()
        invariant
            i <= attrs.len(),
            all == attrs.deep_view(),
            own.deep_view() == own_attrs(all.take(i as int)),
            others.deep_view() == other_attrs(all.take(i as int)),
        decreases attrs.len() - i,
    {
        assert(all.take(i + 1).drop_last() =~= all.take(i as int));
        assert(all.take(i + 1).last() == attrs[i as int]@);
        let ghost own_before = own.deep_view();
        let ghost others_before = others.deep_view();
        let kept = match lex(attrs[i].as_str()) {
            Some(tokens) => {
                if filter_attr(&tokens) {
                    own.push(tokens);
                    assert(own.deep_view() =~= own_before.push(tokens.deep_view()));
                    false
                } else {
                    true
                }
            },
            None => true,
        };
        if kept {
            others.push(attrs[i].clone());
            assert(others.deep_view() =~= others_before.push(attrs[i as int]@));
        }
        i = i + 1;
    }
    assert(all.take(i as int) =~= all);
    (own, others)
}

/// Asks a field type of every annotation: one without is an error at
/// its place among the outcomes.
pub fn require_types(outcomes: &Vec<Result<MetadataStruct, ParseError>>) -> (typed: Vec<
    Result<MetadataStruct, ParseError>,
>)
    ensures
        outcome_views(typed@) == typed_outcomes(outcome_views(outcomes@)),
{
    let ghost all = outcome_views(outcomes@);
    let mut typed: Vec<Result<MetadataStruct, ParseError>> = Vec::new();
    let mut k: usize = 0;
    assert(outcome_views(typed@) =~= typed_outcomes(all).take(0));
    while k < outcomes.len()
        invariant
            k <= outcomes.len(),
            all == outcome_views(outcomes@),
            outcome_views(typed@) == typed_outcomes(all).take(k as int),
        decreases outcomes.len() - k,
    {
        let ghost before = outcome_views(typed@);
        let outcome = match &outcomes[k] {
            Ok(annotation) => {
                if annotation.metadata_type.is_none() {
                    Err(
                        ParseError {
                            kind: ErrorKind::MissingFieldType,
                            place: Place::Annotations,
                            at: k,
                        },
                    )
                } else {
                    Ok(annotation.duplicate())
                }
            },
            Err(e) => Err(*e),
        };
        assert(result_view(outcome) == typed_outcome(all[k as int], k as int));
        typed.push(outcome);
        assert(outcome_views(typed@) =~= before.push(result_view(outcome)));
        k = k + 1;
        assert(outcome_views(typed@) =~= typed_outcomes(all).take(k as int));
    }
    assert(typed_outcomes(all).take(k as int) =~= typed_outcomes(all));
    typed
}

/// Parts the outcomes: the annotations that were read in one list, the
/// errors in another, each in their order.
pub fn part_outcomes(outcomes: &Vec<Result<MetadataStruct, ParseError>>) -> (parts: (
    Vec<MetadataStruct>,
    Vec<ParseError>,
))
    ensures
        parts.0.deep_view() == successes(outcome_views(outcomes@)),
        parts.1@ == failures(outcome_views(outcomes@)),
{
    let ghost all = outcome_views(outcomes@);
    let mut annotations: Vec<MetadataStruct> = Vec::new();
    let mut errors: Vec<ParseError> = Vec::new();
    let mut k: usize = 0;
    assert(all.take(0).len() == 0);
    assert(annotations.deep_view() =~= Seq::<MetadataStructView>::empty());
    while k < outcomes.len()
        invariant
            k <= outcomes.len(),
            all == outcome_views(outcomes@),
            annotations.deep_view() == successes(all.take(k as int)),
            errors@ == failures(all.take(k as int)),
        decreases outcomes.len() - k,
    {
        assert(all.take(k + 1).drop_last() =~= all.take(k as int));
        assert(all.take(k + 1).last() == result_view(outcomes[k as int]));
        let ghost before = annotations.deep_view();
        match &outcomes[k] {
            Ok(annotation) => {
                let copy = annotation.duplicate();
                annotations.push(copy);
                assert(annotations.deep_view() =~= before.push(annotation@));
            },
            Err(e) => {
                errors.push(*e);
            },
        }
        k = k + 1;
    }
    assert(all.take(k as int) =~= all);
    (annotations, errors)
}

impl MetadataStruct {
    /// The shadow specification that the annotation stands for.
    pub fn shadow_spec(&self) -> (spec: ShadowSpec)
        ensures
            spec@ == shadow_spec_of(self@),
    {
        let visibility = match &self.prefix {
            StructLevelAttributeArgPrefix::Visibility(visibility) => visibility.duplicate(),
            _ => Visibility::Inherited,
        };
        let value_type = match &self.metadata_type {
            Some(ty) => {
                assert(ty.metadata_type.deep_view().subrange(0, ty.metadata_type.len() as int)
                    =~= ty.metadata_type.deep_view());
                render(&ty.metadata_type, 0, ty.metadata_type.len())
            },
            None => String::new(),
        };
        let attrs: Vec<String> = Vec::new();
        assert(attrs.deep_view() =~= Seq::<Seq<char>>::empty());
        ShadowSpec { attrs, visibility, name: self.name.clone(), value_type }
    }
}

/// Wraps a record and its annotations into a call of the primary entry:
/// the record is its primary, and each annotation gives one shadow
/// specification. The records that the call stands for are the record
/// itself and, for each annotation, a shadow record with the fields of
/// the record, each of the type of the annotation.
pub fn wrap_in_macro(main_struct: RecordShape, metadata_structs: &Vec<MetadataStruct>) -> (call:
    Call)
    ensures
        call@ == wrapped(main_struct@, metadata_structs.deep_view()),
        call@.primary == main_struct@,
        call@.specs.len() == metadata_structs.len(),
        expanded(call@.primary, call@.specs).len() == metadata_structs.len() + 1,
        expanded(call@.primary, call@.specs)[0] == main_struct@,
        forall|i: int|
            0 <= i < metadata_structs.len() ==> #[trigger] expanded(
                call@.primary,
                call@.specs,
            )[i + 1] == generated(main_struct@, shadow_spec_of(metadata_structs[i]@)),
{
    let ghost all = metadata_structs.deep_view();
    let mut specs: Vec<ShadowSpec> = Vec::new();
    let mut i: usize = 0;
    while i < metadata_structs.len()
        invariant
            i <= metadata_structs.len(),
            all == metadata_structs.deep_view(),
            specs.deep_view() == Seq::new(i as nat, |k: int| shadow_spec_of(all[k])),
        decreases metadata_structs.len() - i,
    {
        let ghost before = specs.deep_view();
        let spec = metadata_structs[i].shadow_spec();
        specs.push(spec);
        assert(specs.deep_view() =~= before.push(spec@));
        i = i + 1;
        assert(specs.deep_view() =~= Seq::new(i as nat, |k: int| shadow_spec_of(all[k])));
    }
    Call { primary: main_struct, specs }
}

/// Writes one shadow specification as a call holds it.
pub fn write_spec(spec: &ShadowSpec) -> (text: String)
    ensures
        text@ == spec_text(spec@),
{
    let mut text = write_attrs(&spec.attrs);
    let visibility = write_visibility(&spec.visibility);
    text.append(visibility.as_str());
    text.append("struct ");
    text.append(spec.name.as_str());
    text.append(": ");
    text.append(spec.value_type.as_str());
    text
}

impl Call {
    /// The records that the call stands for: its primary, then one
    /// shadow record for each specification.
    pub fn expand(self) -> (records: Vec<RecordShape>)
        ensures
            records.deep_view() == expanded(self@.primary, self@.specs),
    {
        expand(self.primary, &self.specs)
    }

    /// The text of the call: the declaration of the primary between
    /// braces, then each specification behind a comma.
    pub fn text(&self) -> (text: String)
        ensures
            text@ == call_text(self@),
    {
        let ghost all = self.specs.deep_view();
        let declaration = emit(&self.primary);
        let mut text = write_group(Delimiter::Brace, declaration.as_str());
        let ghost head = text@;
        let mut i: usize = 0;
        assert(all.take(0).len() == 0);
        assert(text@ =~= head + specs_text(all.take(0)));
        while i < self.specs.len()
            invariant
                i <= self.specs.len(),
                all == self.specs.deep_view(),
                text@ == head + specs_text(all.take(i as int)),
            decreases self.specs.len() - i,
        {
            assert(all.take(i + 1).drop_last() =~= all.take(i as int));
            assert(all.take(i + 1).last() == self.specs[i as int]@);
            let spec = write_spec(&self.specs[i]);
            text.append(", ");
            text.append(spec.as_str());
            assert(text@ =~= head + (specs_text(all.take(i as int)) + ", "@ + spec@));
            i = i + 1;
        }
        assert(all.take(i as int) =~= all);
        text
    }
}

/// The records that an annotated record stands for: the record without
/// its annotations, then one shadow record for each annotation; or all
/// errors among the annotations, and no record.
pub fn derive_records(shape: RecordShape) -> (output: Result<Vec<RecordShape>, Vec<ParseError>>)
    ensures
        derived_records_view(output) == derived_records(shape@),
{
    let (own, others) = sort_attrs(&shape.attrs);
    let outcomes = require_types(&proc_all_attributes(&own));
    let (annotations, errors) = part_outcomes(&outcomes);
    if errors.len() > 0 {
        return Err(errors);
    }
    let main_struct = RecordShape {
        attrs: others,
        visibility: shape.visibility,
        name: shape.name,
        generics: shape.generics,
        fields: shape.fields,
    };
    Ok(wrap_in_macro(main_struct, &annotations).expand())
}

/// The declarations that an annotated record stands for.
pub fn derive_record(shape: RecordShape) -> (output: Result<String, Vec<ParseError>>)
    ensures
        derived_view(output) == derived_from(shape@),
{
    match derive_records(shape) {
        Ok(records) => Ok(emit_all(&records)),
        Err(errors) => Err(errors),
    }
}

/// Reads the annotated record `item` and writes the declarations that
/// it stands for: the record without its annotations and one shadow
/// record for each of them. All errors among the annotations are
/// returned together, each with its place.
pub fn proc(item: &str) -> (output: Result<String, Vec<ParseError>>)
    ensures
        derived_view(output) == derived(item@),
{
    match parse_record(item) {
        Ok(shape) => derive_record(shape),
        Err(e) => {
            let mut errors: Vec<ParseError> = Vec::new();
            errors.push(e);
            assert(errors@ =~= seq![e]);
            Err(errors)
        },
    }
}

/// Writes the text that reports the errors to the compiler.
pub fn into_compile_error(errors: &Vec<ParseError>) -> (text: String)
    ensures
        text@ == compile_errors_text(errors@),
{
    let mut text = String::new();
    let mut i: usize = 0;
    assert(errors@.take(0).len() == 0);
    while i < errors.len()
        invariant
            i <= errors.len(),
            text@ == compile_errors_text(errors@.take(i as int)),
        decreases errors.len() - i,
    {
        assert(errors@.take(i + 1).drop_last() =~= errors@.take(i as int));
        let ghost before = text@;
        let message = errors[i].message();
        text.append("::core::compile_error! { \"");
        text.append(message.as_str());
        text.append("\" }\n");
        assert(text@ =~= before + compile_error_text(errors@[i as int]));
        i = i + 1;
    }
    assert(errors@.take(i as int) =~= errors@);
    text
}

/// What the annotated record `item` is replaced by: the declarations
/// that it stands for, or, where anything is malformed, the report of
/// every error and no declaration.
pub fn metadata_derive(item: &str) -> (output: String)
    ensures
        output@ == derive_output(item@),
{
    match proc(item) {
        Ok(text) => text,
        Err(errors) => into_compile_error(&errors),
    }
}

/// The records of an annotated record follow its primary alone: where
/// no annotation fails, the first record is the record without its
/// annotations, and the record at `i + 1` is the shadow record of the
/// annotation at `i`, whatever the other annotations are. It has the
/// fields of the primary, as many, of the same kind and names, each of
/// the type of its annotation.
pub proof fn lemma_derived_records(shape: RecordShapeView, i: int, j: int)
    requires
        derived_records(shape) is Ok,
        0 <= i < successes(annotation_outcomes(shape)).len(),
        0 <= j < shape.fields.len(),
    ensures
        derived_records(shape)->Ok_0.len() == successes(annotation_outcomes(shape)).len() + 1,
        derived_records(shape)->Ok_0[0] == stripped(shape),
        derived_records(shape)->Ok_0[i + 1] == generated(
            stripped(shape),
            shadow_spec_of(successes(annotation_outcomes(shape))[i]),
        ),
        derived_records(shape)->Ok_0[i + 1].fields.len() == shape.fields.len(),
        derived_records(shape)->Ok_0[i + 1].fields.kind() == shape.fields.kind(),
        derived_records(shape)->Ok_0[i + 1].fields.name(j) == shape.fields.name(j),
        derived_records(shape)->Ok_0[i + 1].fields.ty(j) == shadow_spec_of(
            successes(annotation_outcomes(shape))[i],
        ).value_type,
{
}

} // verus!
