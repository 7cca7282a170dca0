//! Record shapes: what a declaration says, apart from how it is written.

use vstd::prelude::*;

verus! {

/// Who may name a record or a field.
#[derive(Clone, Debug, PartialEq, Eq)]
pub enum Visibility {
    /// No qualifier.
    Inherited,
    /// `pub`.
    Public,
    /// `pub(..)`, with the text between the parentheses.
    Restricted(String),
}

/// The mathematical value of a [`Visibility`].
pub enum VisibilityView {
    Inherited,
    Public,
    Restricted(Seq<char>),
}

impl View for Visibility {
    type V = VisibilityView;

    open spec fn view(&self) -> VisibilityView {
        match self {
            Visibility::Inherited => VisibilityView::Inherited,
            Visibility::Public => VisibilityView::Public,
            Visibility::Restricted(path) => VisibilityView::Restricted(path@),
        }
    }
}

impl DeepView for Visibility {
    type V = VisibilityView;

    open spec fn deep_view(&self) -> VisibilityView {
        self@
    }
}

/// A field of a named record. Annotations are kept as the text between
/// their brackets, the type as its text.
#[derive(Clone, Debug, PartialEq, Eq)]
pub struct NamedField {
    pub attrs: Vec<String>,
    pub visibility: Visibility,
    pub name: String,
    pub ty: String,
}

/// The mathematical value of a [`NamedField`].
pub struct NamedFieldView {
    pub attrs: Seq<Seq<char>>,
    pub visibility: VisibilityView,
    pub name: Seq<char>,
    pub ty: Seq<char>,
}

impl View for NamedField {
    type V = NamedFieldView;

    open spec fn view(&self) -> NamedFieldView {
        NamedFieldView {
            attrs: self.attrs.deep_view(),
            visibility: self.visibility@,
            name: self.name@,
            ty: self.ty@,
        }
    }
}

impl DeepView for NamedField {
    type V = NamedFieldView;

    open spec fn deep_view(&self) -> NamedFieldView {
        self@
    }
}

/// A field of a positional record: it has no name and no visibility.
#[derive(Clone, Debug, PartialEq, Eq)]
pub struct PositionalField {
    pub attrs: Vec<String>,
    pub ty: String,
}

/// The mathematical value of a [`PositionalField`].
pub struct PositionalFieldView {
    pub attrs: Seq<Seq<char>>,
    pub ty: Seq<char>,
}

impl View for PositionalField {
    type V = PositionalFieldView;

    open spec fn view(&self) -> PositionalFieldView {
        PositionalFieldView { attrs: self.attrs.deep_view(), ty: self.ty@ }
    }
}

impl DeepView for PositionalField {
    type V = PositionalFieldView;

    open spec fn deep_view(&self) -> PositionalFieldView {
        self@
    }
}

/// The two kinds of record.
#[derive(Clone, Copy, Debug, PartialEq, Eq, Structural)]
pub enum RecordKind {
    Named,
    Positional,
}

/// The fields of a record, in their declared order.
#[derive(Clone, Debug, PartialEq, Eq)]
pub enum Fields {
    Named(Vec<NamedField>),
    Positional(Vec<PositionalField>),
}

/// The mathematical value of [`Fields`].
pub enum FieldsView {
    Named(Seq<NamedFieldView>),
    Positional(Seq<PositionalFieldView>),
}

impl View for Fields {
    type V = FieldsView;

    open spec fn view(&self) -> FieldsView {
        match self {
            Fields::Named(fields) => FieldsView::Named(fields.deep_view()),
            Fields::Positional(fields) => FieldsView::Positional(fields.deep_view()),
        }
    }
}

impl FieldsView {
    /// Named or positional.
    pub open spec fn kind(self) -> RecordKind {
        match self {
            FieldsView::Named(_) => RecordKind::Named,
            FieldsView::Positional(_) => RecordKind::Positional,
        }
    }

    /// The number of fields.
    pub open spec fn len(self) -> nat {
        match self {
            FieldsView::Named(fields) => fields.len(),
            FieldsView::Positional(fields) => fields.len(),
        }
    }

    /// The type of the field at `i`.
    pub open spec fn ty(self, i: int) -> Seq<char> {
        match self {
            FieldsView::Named(fields) => fields[i].ty,
            FieldsView::Positional(fields) => fields[i].ty,
        }
    }

    /// The annotations of the field at `i`.
    pub open spec fn attrs(self, i: int) -> Seq<Seq<char>> {
        match self {
            FieldsView::Named(fields) => fields[i].attrs,
            FieldsView::Positional(fields) => fields[i].attrs,
        }
    }

    /// The name of the field at `i`, where the record is named.
    pub open spec fn name(self, i: int) -> Option<Seq<char>> {
        match self {
            FieldsView::Named(fields) => Some(fields[i].name),
            FieldsView::Positional(_) => None,
        }
    }

    /// The visibility of the field at `i`, where the record is named.
    pub open spec fn visibility(self, i: int) -> Option<VisibilityView> {
        match self {
            FieldsView::Named(fields) => Some(fields[i].visibility),
            FieldsView::Positional(_) => None,
        }
    }
}

/// A record declaration: its annotations, visibility, name, generic
/// parameters and fields. Generic parameters are kept as their text.
#[derive(Clone, Debug, PartialEq, Eq)]
pub struct RecordShape {
    pub attrs: Vec<String>,
    pub visibility: Visibility,
    pub name: String,
    pub generics: Vec<String>,
    pub fields: Fields,
}

/// The mathematical value of a [`RecordShape`].
pub struct RecordShapeView {
    pub attrs: Seq<Seq<char>>,
    pub visibility: VisibilityView,
    pub name: Seq<char>,
    pub generics: Seq<Seq<char>>,
    pub fields: FieldsView,
}

impl View for RecordShape {
    type V = RecordShapeView;

    open spec fn view(&self) -> RecordShapeView {
        RecordShapeView {
            attrs: self.attrs.deep_view(),
            visibility: self.visibility@,
            name: self.name@,
            generics: self.generics.deep_view(),
            fields: self.fields@,
        }
    }
}

impl DeepView for RecordShape {
    type V = RecordShapeView;

    open spec fn deep_view(&self) -> RecordShapeView {
        self@
    }
}

impl RecordShapeView {
    /// Named or positional.
    pub open spec fn kind(self) -> RecordKind {
        self.fields.kind()
    }
}

impl Fields {
    /// Named or positional.
    pub fn kind(&self) -> (kind: RecordKind)
        ensures
            kind == self@.kind(),
    {
        match self {
            Fields::Named(_) => RecordKind::Named,
            Fields::Positional(_) => RecordKind::Positional,
        }
    }

    /// The number of fields.
    pub fn len(&self) -> (len: usize)
        ensures
            len == self@.len(),
    {
        match self {
            Fields::Named(fields) => fields.len(),
            Fields::Positional(fields) => fields.len(),
        }
    }
}

impl RecordShape {
    /// Named or positional.
    pub fn kind(&self) -> (kind: RecordKind)
        ensures
            kind == self@.kind(),
    {
        self.fields.kind()
    }
}

/// A copy of the texts.
pub fn copy_texts(texts: &Vec<String>) -> (copy: Vec<String>)
    ensures
        copy.deep_view() == texts.deep_view(),
{
    let mut copy: Vec<String> = Vec::new();
    let mut i: usize = 0;
    while i < texts.len()
        invariant
            i <= texts.len(),
            copy.deep_view() == texts.deep_view().take(i as int),
        decreases texts.len() - i,
    {
        let ghost before = copy.deep_view();
        copy.push(texts[i].clone());
        assert(copy.deep_view() =~= before.push(texts[i as int]@));
        i = i + 1;
        assert(copy.deep_view() =~= texts.deep_view().take(i as int));
    }
    assert(texts.deep_view().take(i as int) =~= texts.deep_view());
    copy
}

impl Visibility {
    /// A copy of the qualifier.
    pub fn duplicate(&self) -> (copy: Visibility)
        ensures
            copy@ == self@,
    {
        match self {
            Visibility::Inherited => Visibility::Inherited,
            Visibility::Public => Visibility::Public,
            Visibility::Restricted(path) => Visibility::Restricted(path.clone()),
        }
    }
}

} // verus!
