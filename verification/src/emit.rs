//! The text of record declarations.

use crate::shape::{
    Fields, FieldsView, NamedField, NamedFieldView, PositionalField, PositionalFieldView,
    RecordShape, RecordShapeView, Visibility, VisibilityView,
};
use crate::token::{group_text, write_group, Delimiter};
use vstd::prelude::*;

verus! {

/// The parts in order, with `separator` between each two of them.
pub open spec fn joined(parts: Seq<Seq<char>>, separator: Seq<char>) -> Seq<char>
    decreases parts.len(),
{
    if parts.len() == 0 {
        Seq::empty()
    } else if parts.len() == 1 {
        parts[0]
    } else {
        joined(parts.drop_last(), separator) + separator + parts.last()
    }
}

/// The annotations as they are written, each followed by a space.
pub open spec fn attrs_text(attrs: Seq<Seq<char>>) -> Seq<char>
    decreases attrs.len(),
{
    if attrs.len() == 0 {
        Seq::empty()
    } else {
        attrs_text(attrs.drop_last()) + seq!['#'] + group_text(Delimiter::Bracket, attrs.last())
            + seq![' ']
    }
}

/// The visibility qualifier as it is written, followed by a space if it
/// is not empty.
pub open spec fn visibility_text(visibility: VisibilityView) -> Seq<char> {
    match visibility {
        VisibilityView::Inherited => Seq::empty(),
        VisibilityView::Public => "pub "@,
        VisibilityView::Restricted(path) => "pub"@ + group_text(Delimiter::Parenthesis, path)
            + seq![' '],
    }
}

/// The generic parameters between angle brackets; nothing if there are none.
pub open spec fn generics_text(generics: Seq<Seq<char>>) -> Seq<char> {
    if generics.len() == 0 {
        Seq::empty()
    } else {
        seq!['<'] + joined(generics, ", "@) + seq!['>']
    }
}

/// A named field as it is written.
pub open spec fn named_field_text(field: NamedFieldView) -> Seq<char> {
    attrs_text(field.attrs) + visibility_text(field.visibility) + field.name + ": "@ + field.ty
}

/// A positional field as it is written.
pub open spec fn positional_field_text(field: PositionalFieldView) -> Seq<char> {
    attrs_text(field.attrs) + field.ty
}

/// The fields as they are written, one text for each.
pub open spec fn field_texts(fields: FieldsView) -> Seq<Seq<char>> {
    match fields {
        FieldsView::Named(fields) => Seq::new(fields.len(), |i: int| named_field_text(fields[i])),
        FieldsView::Positional(fields) => Seq::new(
            fields.len(),
            |i: int| positional_field_text(fields[i]),
        ),
    }
}

/// What follows the name and the generic parameters: the fields between
/// braces, or between parentheses and followed by a semicolon.
pub open spec fn body_text(fields: FieldsView) -> Seq<char> {
    match fields {
        FieldsView::Named(_) => seq![' '] + group_text(
            Delimiter::Brace,
            joined(field_texts(fields), ", "@),
        ),
        FieldsView::Positional(_) => group_text(
            Delimiter::Parenthesis,
            joined(field_texts(fields), ", "@),
        ) + seq![';'],
    }
}

/// The declaration of a record.
pub open spec fn declaration_text(shape: RecordShapeView) -> Seq<char> {
    attrs_text(shape.attrs) + visibility_text(shape.visibility) + "struct "@ + shape.name
        + generics_text(shape.generics) + body_text(shape.fields)
}

/// The declarations of the records, each on a line of its own.
pub open spec fn declarations_text(records: Seq<RecordShapeView>) -> Seq<char>
    decreases records.len(),
{
    if records.len() == 0 {
        Seq::empty()
    } else {
        declarations_text(records.drop_last()) + declaration_text(records.last()) + seq!['\n']
    }
}

/// Joins the parts with `separator` between each two of them.
pub fn join(parts: &Vec<String>, separator: &str) -> (text: String)
    ensures
        text@ == joined(parts.deep_view(), separator@),
{
    let ghost all = parts.deep_view();
    let mut text = String::new();
    let mut i: usize = 0;
    assert(all.take(0).len() == 0);
    while i < parts.len()
        invariant
            i <= parts.len(),
            all == parts.deep_view(),
            text@ == joined(all.take(i as int), separator@),
        decreases parts.len() - i,
    {
        assert(all.take(i + 1).drop_last() =~= all.take(i as int));
        assert(all.take(i + 1).last() == parts[i as int]@);
        if i > 0 {
            text.append(separator);
        }
        text.append(parts[i].as_str());
        assert(i == 0 ==> all.take(1)[0] == parts[0]@ && text@ =~= parts[0]@);
        i = i + 1;
    }
    assert(all.take(i as int) =~= all);
    text
}

/// Writes the annotations, each followed by a space.
pub fn write_attrs(attrs: &Vec<String>) -> (text: String)
    ensures
        text@ == attrs_text(attrs.deep_view()),
{
    let ghost all = attrs.deep_view();
    let mut text = String::new();
    let mut i: usize = 0;
    assert(all.take(0).len() == 0);
    while i < attrs.len()
        invariant
            i <= attrs.len(),
            all == attrs.deep_view(),
            text@ == attrs_text(all.take(i as int)),
        decreases attrs.len() - i,
    {
        assert(all.take(i + 1).drop_last() =~= all.take(i as int));
        assert(all.take(i + 1).last() == attrs[i as int]@);
        let ghost before = text@;
        let group = write_group(Delimiter::Bracket, attrs[i].as_str());
        text.push('#');
        text.append(group.as_str());
        text.push(' ');
        assert(text@ =~= before + seq!['#'] + group@ + seq![' ']);
        i = i + 1;
    }
    assert(all.take(i as int) =~= all);
    text
}

/// Writes the visibility qualifier, followed by a space if it is not empty.
pub fn write_visibility(visibility: &Visibility) -> (text: String)
    ensures
        text@ == visibility_text(visibility@),
{
    let mut text = String::new();
    match visibility {
        Visibility::Inherited => {},
        Visibility::Public => {
            text.append("pub ");
            assert(text@ =~= "pub "@);
        },
        Visibility::Restricted(path) => {
            let group = write_group(Delimiter::Parenthesis, path.as_str());
            text.append("pub");
            text.append(group.as_str());
            text.push(' ');
            assert(text@ =~= "pub"@ + group@ + seq![' ']);
        },
    }
    text
}

/// Writes the generic parameters between angle brackets.
pub fn write_generics(generics: &Vec<String>) -> (text: String)
    ensures
        text@ == generics_text(generics.deep_view()),
{
    let mut text = String::new();
    if generics.len() > 0 {
        let list = join(generics, ", ");
        text.push('<');
        text.append(list.as_str());
        text.push('>');
        assert(text@ =~= seq!['<'] + list@ + seq!['>']);
    }
    text
}

/// Writes a named field.
pub fn write_named_field(field: &NamedField) -> (text: String)
    ensures
        text@ == named_field_text(field@),
{
    let mut text = write_attrs(&field.attrs);
    let visibility = write_visibility(&field.visibility);
    text.append(visibility.as_str());
    text.append(field.name.as_str());
    text.append(": ");
    text.append(field.ty.as_str());
    text
}

/// Writes a positional field.
pub fn write_positional_field(field: &PositionalField) -> (text: String)
    ensures
        text@ == positional_field_text(field@),
{
    let mut text = write_attrs(&field.attrs);
    text.append(field.ty.as_str());
    text
}

/// Writes the fields, one text for each.
pub fn write_fields(fields: &Fields) -> (texts: Vec<String>)
    ensures
        texts.deep_view() == field_texts(fields@),
{
    let mut texts: Vec<String> = Vec::new();
    let mut i: usize = 0;
    match fields {
        Fields::Named(fields) => {
            while i < fields.len()
                invariant
                    i <= fields.len(),
                    texts.deep_view() == Seq::new(
                        i as nat,
                        |k: int| named_field_text(fields.deep_view()[k]),
                    ),
                decreases fields.len() - i,
            {
                let ghost before = texts.deep_view();
                let text = write_named_field(&fields[i]);
                texts.push(text);
                assert(texts.deep_view() =~= before.push(text@));
                i = i + 1;
                assert(texts.deep_view() =~= Seq::new(
                    i as nat,
                    |k: int| named_field_text(fields.deep_view()[k]),
                ));
            }
        },
        Fields::Positional(fields) => {
            while i < fields.len()
                invariant
                    i <= fields.len(),
                    texts.deep_view() == Seq::new(
                        i as nat,
                        |k: int| positional_field_text(fields.deep_view()[k]),
                    ),
                decreases fields.len() - i,
            {
                let ghost before = texts.deep_view();
                let text = write_positional_field(&fields[i]);
                texts.push(text);
                assert(texts.deep_view() =~= before.push(text@));
                i = i + 1;
                assert(texts.deep_view() =~= Seq::new(
                    i as nat,
                    |k: int| positional_field_text(fields.deep_view()[k]),
                ));
            }
        },
    }
    texts
}

/// Writes the declaration of a record.
pub fn emit(shape: &RecordShape) -> (text: String)
    ensures
        text@ == declaration_text(shape@),
{
    let mut text = write_attrs(&shape.attrs);
    let visibility = write_visibility(&shape.visibility);
    let generics = write_generics(&shape.generics);
    let fields = write_fields(&shape.fields);
    let list = join(&fields, ", ");
    text.append(visibility.as_str());
    text.append("struct ");
    text.append(shape.name.as_str());
    text.append(generics.as_str());
    let ghost head = text@;
    match &shape.fields {
        Fields::Named(_) => {
            let group = write_group(Delimiter::Brace, list.as_str());
            text.push(' ');
            text.append(group.as_str());
            assert(text@ =~= head + (seq![' '] + group@));
        },
        Fields::Positional(_) => {
            let group = write_group(Delimiter::Parenthesis, list.as_str());
            text.append(group.as_str());
            text.push(';');
            assert(text@ =~= head + (group@ + seq![';']));
        },
    }
    text
}

/// Writes the declarations of the records, each on a line of its own.
pub fn emit_all(records: &Vec<RecordShape>) -> (text: String)
    ensures
        text@ == declarations_text(records.deep_view()),
{
    let ghost all = records.deep_view();
    let mut text = String::new();
    let mut i: usize = 0;
    assert(all.take(0).len() == 0);
    while i < records.len()
        invariant
            i <= records.len(),
            all == records.deep_view(),
            text@ == declarations_text(all.take(i as int)),
        decreases records.len() - i,
    {
        assert(all.take(i + 1).drop_last() =~= all.take(i as int));
        assert(all.take(i + 1).last() == records[i as int]@);
        let declaration = emit(&records[i]);
        text.append(declaration.as_str());
        text.push('\n');
        i = i + 1;
    }
    assert(all.take(i as int) =~= all);
    text
}

} // verus!
