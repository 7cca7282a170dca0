//! The annotation for the record level: it names the shadow records,
//! the type of their fields and their aliases.
//!
//! An annotation is read from a position in a token sequence and ends
//! where it ends: what follows it is left to whoever reads the list. Its
//! type is the longest run of tokens behind the colon that `syn` reads
//! as one type.

use crate::error::{attributed, error_at, result_view, ErrorKind, ParseError, Place};
use crate::field::{
    colon_at, is_colon_at, is_name_at, name_at, parse_visibility, visibility_at, visibility_end,
};
use crate::shape::{Visibility, VisibilityView};
use crate::token::{copy_range, lex, lexed, render, rendered, Delimiter, Token, TokenView};
use itertools::Itertools;
use vstd::prelude::*;

verus! {

/// What stands before the name in an annotation.
#[derive(Clone, Debug, PartialEq, Eq)]
pub enum StructLevelAttributeArgPrefix {
    /// Nothing.
    NoPrefix,
    /// The keyword `struct`.
    StructKeyword,
    /// A visibility qualifier and the keyword `struct`.
    Visibility(Visibility),
}

/// The mathematical value of a [`StructLevelAttributeArgPrefix`].
pub enum PrefixView {
    NoPrefix,
    StructKeyword,
    Visibility(VisibilityView),
}

impl View for StructLevelAttributeArgPrefix {
    type V = PrefixView;

    open spec fn view(&self) -> PrefixView {
        match self {
            StructLevelAttributeArgPrefix::NoPrefix => PrefixView::NoPrefix,
            StructLevelAttributeArgPrefix::StructKeyword => PrefixView::StructKeyword,
            StructLevelAttributeArgPrefix::Visibility(visibility) => PrefixView::Visibility(
                visibility@,
            ),
        }
    }
}

/// The type of the fields of a shadow record: the colon and the tokens
/// of the type behind it.
#[derive(Clone, Debug, PartialEq, Eq)]
pub struct MetadataType {
    pub colon: Token,
    pub metadata_type: Vec<Token>,
}

/// The mathematical value of a [`MetadataType`].
pub struct MetadataTypeView {
    pub colon: TokenView,
    pub metadata_type: Seq<TokenView>,
}

/// The alias of a shadow record: the equals sign and the name behind it.
#[derive(Clone, Debug, PartialEq, Eq)]
pub struct MetadataAlias {
    pub eq: Token,
    pub alias: String,
}

/// The mathematical value of a [`MetadataAlias`].
pub struct MetadataAliasView {
    pub eq: TokenView,
    pub alias: Seq<char>,
}

/// One shadow record as an annotation asks for it.
#[derive(Clone, Debug, PartialEq, Eq)]
pub struct MetadataStruct {
    pub prefix: StructLevelAttributeArgPrefix,
    pub name: String,
    pub metadata_type: Option<MetadataType>,
    pub alias: Option<MetadataAlias>,
}

/// The mathematical value of a [`MetadataStruct`].
pub struct MetadataStructView {
    pub prefix: PrefixView,
    pub name: Seq<char>,
    pub metadata_type: Option<MetadataTypeView>,
    pub alias: Option<MetadataAliasView>,
}

impl View for MetadataType {
    type V = MetadataTypeView;

    open spec fn view(&self) -> MetadataTypeView {
        MetadataTypeView { colon: self.colon@, metadata_type: self.metadata_type.deep_view() }
    }
}

impl View for MetadataAlias {
    type V = MetadataAliasView;

    open spec fn view(&self) -> MetadataAliasView {
        MetadataAliasView { eq: self.eq@, alias: self.alias@ }
    }
}

impl View for MetadataStruct {
    type V = MetadataStructView;

    open spec fn view(&self) -> MetadataStructView {
        MetadataStructView {
            prefix: self.prefix@,
            name: self.name@,
            metadata_type: match self.metadata_type {
                Some(ty) => Some(ty@),
                None => None,
            },
            alias: match self.alias {
                Some(alias) => Some(alias@),
                None => None,
            },
        }
    }
}

impl DeepView for MetadataStruct {
    type V = MetadataStructView;

    open spec fn deep_view(&self) -> MetadataStructView {
        self@
    }
}

/// The tokens of a visibility qualifier.
pub open spec fn visibility_tokens(visibility: VisibilityView) -> Seq<TokenView> {
    match visibility {
        VisibilityView::Inherited => Seq::empty(),
        VisibilityView::Public => seq![TokenView::Ident("pub"@)],
        VisibilityView::Restricted(path) => seq![
            TokenView::Ident("pub"@),
            TokenView::Group(Delimiter::Parenthesis, path),
        ],
    }
}

/// The tokens of a prefix.
pub open spec fn prefix_tokens(prefix: PrefixView) -> Seq<TokenView> {
    match prefix {
        PrefixView::NoPrefix => Seq::empty(),
        PrefixView::StructKeyword => seq![TokenView::Ident("struct"@)],
        PrefixView::Visibility(visibility) => visibility_tokens(visibility) + seq![
            TokenView::Ident("struct"@),
        ],
    }
}

/// The tokens of a type with the colon before them.
pub open spec fn type_tokens(ty: MetadataTypeView) -> Seq<TokenView> {
    seq![ty.colon] + ty.metadata_type
}

/// The tokens of an alias with the equals sign before it.
pub open spec fn alias_tokens(alias: MetadataAliasView) -> Seq<TokenView> {
    seq![alias.eq, TokenView::Ident(alias.alias)]
}

impl MetadataStructView {
    /// The tokens of the annotation: prefix, name, type and alias.
    pub open spec fn tokens(self) -> Seq<TokenView> {
        prefix_tokens(self.prefix) + seq![TokenView::Ident(self.name)] + (match self.metadata_type {
            Some(ty) => type_tokens(ty),
            None => Seq::empty(),
        }) + (match self.alias {
            Some(alias) => alias_tokens(alias),
            None => Seq::empty(),
        })
    }
}

/// Whether `syn` reads `text` as one identifier that is no keyword.
pub uninterp spec fn accepts_identifier(text: Seq<char>) -> bool;

/// Whether `syn` reads `text` as one type.
pub uninterp spec fn accepts_type(text: Seq<char>) -> bool;

/// Whether `syn` reads `text` as one visibility qualifier.
pub uninterp spec fn accepts_visibility(text: Seq<char>) -> bool;

/// Asks `syn::parse_str` whether `text` is an `Ident`. The contract only
/// names the answer.
#[verifier::external_body]
fn is_identifier(text: &str) -> (yes: bool)
    ensures
        yes == accepts_identifier(text@),
{
    syn::parse_str::<syn::Ident>(text).is_ok()
}

/// Asks `syn::parse_str` whether `text` is a `Type`. The contract only
/// names the answer.
#[verifier::external_body]
fn is_type(text: &str) -> (yes: bool)
    ensures
        yes == accepts_type(text@),
{
    syn::parse_str::<syn::Type>(text).is_ok()
}

/// Asks `syn::parse_str` whether `text` is a `Visibility`. The contract
/// only names the answer.
#[verifier::external_body]
fn is_visibility(text: &str) -> (yes: bool)
    ensures
        yes == accepts_visibility(text@),
{
    syn::parse_str::<syn::Visibility>(text).is_ok()
}

/// The error of an annotation that is malformed at token `at` of the
/// arguments that hold it.
pub open spec fn malformed_annotation(at: int) -> ParseError {
    error_at(ErrorKind::MalformedAnnotation, Place::Arguments(0), at)
}

/// The error of an attribute that is malformed at token `at`.
pub open spec fn malformed_attribute(at: int) -> ParseError {
    error_at(ErrorKind::MalformedAnnotation, Place::Attribute(0), at)
}

/// Whether the annotation at `from` starts with `pub`.
pub open spec fn starts_with_pub(tokens: Seq<TokenView>, from: int) -> bool {
    0 <= from < tokens.len() && tokens[from].is_ident("pub"@)
}

/// The index of the keyword `struct`, where the annotation at `from` has
/// a prefix.
pub open spec fn arg_keyword_index(tokens: Seq<TokenView>, from: int) -> int {
    visibility_end(tokens, from)
}

/// Whether the keyword `struct` stands where the prefix wants it.
pub open spec fn has_keyword(tokens: Seq<TokenView>, from: int) -> bool {
    let at = arg_keyword_index(tokens, from);
    0 <= at < tokens.len() && tokens[at].is_ident("struct"@)
}

/// The index of the name: behind the keyword `struct`, or the first
/// token where there is no keyword.
pub open spec fn arg_name_index(tokens: Seq<TokenView>, from: int) -> int {
    if has_keyword(tokens, from) {
        arg_keyword_index(tokens, from) + 1
    } else {
        from
    }
}

/// The prefix, given that it is well formed.
pub open spec fn arg_prefix(tokens: Seq<TokenView>, from: int) -> PrefixView {
    if starts_with_pub(tokens, from) {
        PrefixView::Visibility(visibility_at(tokens, from))
    } else if has_keyword(tokens, from) {
        PrefixView::StructKeyword
    } else {
        PrefixView::NoPrefix
    }
}

/// Whether a colon, and so a type, follows the name.
pub open spec fn arg_has_type(tokens: Seq<TokenView>, from: int) -> bool {
    is_colon_at(tokens, arg_name_index(tokens, from) + 1)
}

/// The index behind the longest run of tokens from `from` on, and not
/// beyond `upto`, that `syn` reads as one type; `from` where it reads
/// none of them as a type.
pub open spec fn longest_type_end(tokens: Seq<TokenView>, from: int, upto: int) -> int
    decreases upto - from,
{
    if from < 0 || upto <= from || upto > tokens.len() {
        from
    } else if accepts_type(rendered(tokens.subrange(from, upto))) {
        upto
    } else {
        longest_type_end(tokens, from, upto - 1)
    }
}

/// The index at which an alias would start with its equals sign: behind
/// the type, or behind the name where there is no type.
pub open spec fn arg_alias_index(tokens: Seq<TokenView>, from: int, type_end: int) -> int {
    if arg_has_type(tokens, from) {
        type_end
    } else if arg_name_index(tokens, from) < tokens.len() {
        arg_name_index(tokens, from) + 1
    } else {
        tokens.len() as int
    }
}

/// Whether an equals sign stands at `at`.
pub open spec fn is_assign_at(tokens: Seq<TokenView>, at: int) -> bool {
    0 <= at < tokens.len() && tokens[at].is_punct('=')
}

/// The identifier or keyword at `i`; empty where none stands there.
pub open spec fn name_text_at(tokens: Seq<TokenView>, i: int) -> Seq<char> {
    if is_name_at(tokens, i) {
        tokens[i].name()
    } else {
        Seq::empty()
    }
}

/// The type that starts with its colon at `from` and ends before
/// `type_end`, with the index behind it: a colon and at least one token.
pub open spec fn typed_part(tokens: Seq<TokenView>, from: int, type_end: int) -> Result<
    (MetadataTypeView, int),
    ParseError,
> {
    if !is_colon_at(tokens, from) {
        Err(malformed_annotation(from))
    } else if !(from + 1 < type_end <= tokens.len()) {
        Err(malformed_annotation(from + 1))
    } else {
        Ok(
            (
                MetadataTypeView {
                    colon: tokens[from],
                    metadata_type: tokens.subrange(from + 1, type_end),
                },
                type_end,
            ),
        )
    }
}

/// The type at `from`: a colon and the longest run of tokens behind it
/// that `syn` reads as one type. What follows is left alone.
pub open spec fn metadata_type(tokens: Seq<TokenView>, from: int) -> Result<
    (MetadataTypeView, int),
    ParseError,
> {
    typed_part(tokens, from, longest_type_end(tokens, from + 1, tokens.len() as int))
}

/// The alias that starts with its equals sign at `from`, with the index
/// behind it, where `accepted` says whether `syn` takes the token behind
/// the equals sign for an identifier.
pub open spec fn alias_part(tokens: Seq<TokenView>, from: int, accepted: bool) -> Result<
    (MetadataAliasView, int),
    ParseError,
> {
    if !is_assign_at(tokens, from) {
        Err(malformed_annotation(from))
    } else if !(is_name_at(tokens, from + 1) && accepted) {
        Err(malformed_annotation(from + 1))
    } else {
        Ok((MetadataAliasView { eq: tokens[from], alias: tokens[from + 1].name() }, from + 2))
    }
}

/// The alias at `from`: an equals sign and an identifier. What follows
/// is left alone.
pub open spec fn metadata_alias(tokens: Seq<TokenView>, from: int) -> Result<
    (MetadataAliasView, int),
    ParseError,
> {
    alias_part(tokens, from, accepts_identifier(name_text_at(tokens, from + 1)))
}

/// What `syn` says of the parts of an annotation.
pub struct Checks {
    /// The visibility qualifier is one.
    pub visibility: bool,
    /// The name is an identifier.
    pub name: bool,
    /// The index behind the longest type behind the colon.
    pub type_end: usize,
    /// The alias is an identifier.
    pub alias: bool,
}

/// The index behind the type of the annotation at `from`, as `syn` gives
/// it; 0 where the annotation has no colon.
pub open spec fn arg_type_end(tokens: Seq<TokenView>, from: int) -> int {
    if arg_has_type(tokens, from) {
        longest_type_end(tokens, arg_name_index(tokens, from) + 2, tokens.len() as int)
    } else {
        0
    }
}

/// What `syn` says of the parts of the annotation at `from`.
pub open spec fn answers(tokens: Seq<TokenView>, from: int) -> Checks {
    let alias_at = arg_alias_index(tokens, from, arg_type_end(tokens, from));
    Checks {
        visibility: accepts_visibility(
            rendered(tokens.subrange(from, arg_keyword_index(tokens, from))),
        ),
        name: accepts_identifier(name_text_at(tokens, arg_name_index(tokens, from))),
        type_end: arg_type_end(tokens, from) as usize,
        alias: accepts_identifier(
            if is_assign_at(tokens, alias_at) {
                name_text_at(tokens, alias_at + 1)
            } else {
                Seq::empty()
            },
        ),
    }
}

/// The annotation that starts at `from`, with the index behind it, given
/// what `syn` says of its parts: a prefix (nothing, `struct`, or a
/// visibility qualifier and `struct`), a name, then a colon and a type
/// if there is a colon, then an equals sign and an alias if there is an
/// equals sign. The first part that does not fit is the error. What
/// follows the annotation is left alone.
pub open spec fn built(tokens: Seq<TokenView>, from: int, checks: Checks) -> Result<
    (MetadataStructView, int),
    ParseError,
> {
    let name_at = arg_name_index(tokens, from);
    let ty = typed_part(tokens, name_at + 1, checks.type_end as int);
    let alias_at = arg_alias_index(tokens, from, checks.type_end as int);
    let alias = alias_part(tokens, alias_at, checks.alias);
    if starts_with_pub(tokens, from) && arg_keyword_index(tokens, from) == from + 2
        && !checks.visibility {
        Err(malformed_annotation(from + 1))
    } else if starts_with_pub(tokens, from) && !has_keyword(tokens, from) {
        Err(malformed_annotation(arg_keyword_index(tokens, from)))
    } else if !(is_name_at(tokens, name_at) && checks.name) {
        Err(malformed_annotation(name_at))
    } else if arg_has_type(tokens, from) && ty is Err {
        Err(ty->Err_0)
    } else if is_assign_at(tokens, alias_at) && alias is Err {
        Err(alias->Err_0)
    } else {
        Ok(
            (
                MetadataStructView {
                    prefix: arg_prefix(tokens, from),
                    name: tokens[name_at].name(),
                    metadata_type: if arg_has_type(tokens, from) {
                        Some(ty->Ok_0.0)
                    } else {
                        None
                    },
                    alias: if is_assign_at(tokens, alias_at) {
                        Some(alias->Ok_0.0)
                    } else {
                        None
                    },
                },
                if is_assign_at(tokens, alias_at) {
                    alias_at + 2
                } else {
                    alias_at
                },
            ),
        )
    }
}

/// The annotation that starts at `from`, with the index behind it: the
/// longest that can be read there.
pub open spec fn metadata_struct(tokens: Seq<TokenView>, from: int) -> Result<
    (MetadataStructView, int),
    ParseError,
> {
    built(tokens, from, answers(tokens, from))
}

/// The mathematical value of the outcome of reading a part of an
/// annotation: the part and the index behind it.
pub open spec fn read_view<T: View>(outcome: Result<(T, usize), ParseError>) -> Result<
    (T::V, int),
    ParseError,
> {
    match outcome {
        Ok((part, end)) => Ok((part@, end as int)),
        Err(e) => Err(e),
    }
}

/// Finds the end of the longest type from `from` on.
pub fn find_type_end(tokens: &Vec<Token>, from: usize) -> (end: usize)
    requires
        from <= tokens.len(),
    ensures
        end == longest_type_end(tokens.deep_view(), from as int, tokens.len() as int),
        from <= end <= tokens.len(),
{
    let ghost all = tokens.deep_view();
    let mut upto: usize = tokens.len();
    while upto > from
        invariant
            from <= upto <= tokens.len(),
            all == tokens.deep_view(),
            longest_type_end(all, from as int, tokens.len() as int) == longest_type_end(
                all,
                from as int,
                upto as int,
            ),
        decreases upto,
    {
        let text = render(tokens, from, upto);
        if is_type(text.as_str()) {
            return upto;
        }
        upto = upto - 1;
    }
    from
}

/// The identifier or keyword at `i`; empty where none stands there.
pub fn name_or_empty(tokens: &Vec<Token>, i: usize) -> (name: String)
    ensures
        name@ == name_text_at(tokens.deep_view(), i as int),
{
    if name_at(tokens, i) {
        tokens[i].name()
    } else {
        String::new()
    }
}

/// Whether an equals sign stands at `at`.
pub fn assign_at(tokens: &Vec<Token>, at: usize) -> (yes: bool)
    ensures
        yes == is_assign_at(tokens.deep_view(), at as int),
{
    at < tokens.len() && tokens[at].is_punct('=')
}

impl MetadataType {
    /// Builds the type that starts with its colon at `from` and ends
    /// before `type_end`.
    pub fn build(tokens: &Vec<Token>, from: usize, type_end: usize) -> (parsed: Result<
        (MetadataType, usize),
        ParseError,
    >)
        ensures
            read_view(parsed) == typed_part(tokens.deep_view(), from as int, type_end as int),
            parsed matches Ok((_, end)) ==> from < end <= tokens.len(),
    {
        if !colon_at(tokens, from) {
            return Err(
                ParseError {
                    kind: ErrorKind::MalformedAnnotation,
                    place: Place::Arguments(0),
                    at: from,
                },
            );
        }
        assert(tokens.deep_view().len() == tokens.len());
        if !(from + 1 < type_end && type_end <= tokens.len()) {
            return Err(
                ParseError {
                    kind: ErrorKind::MalformedAnnotation,
                    place: Place::Arguments(0),
                    at: from + 1,
                },
            );
        }
        Ok(
            (
                MetadataType {
                    colon: tokens[from].duplicate(),
                    metadata_type: copy_range(tokens, from + 1, type_end),
                },
                type_end,
            ),
        )
    }

    /// Reads a colon at `from` and the longest type behind it; returns
    /// the type and the index behind it.
    pub fn parse(tokens: &Vec<Token>, from: usize) -> (parsed: Result<
        (MetadataType, usize),
        ParseError,
    >)
        ensures
            read_view(parsed) == metadata_type(tokens.deep_view(), from as int),
            parsed matches Ok((_, end)) ==> from < end <= tokens.len(),
    {
        if from < tokens.len() {
            let type_end = find_type_end(tokens, from + 1);
            MetadataType::build(tokens, from, type_end)
        } else {
            Err(
                ParseError {
                    kind: ErrorKind::MalformedAnnotation,
                    place: Place::Arguments(0),
                    at: from,
                },
            )
        }
    }

    /// Appends the colon and the type to `tokens`.
    pub fn to_tokens(&self, tokens: &mut Vec<Token>)
        ensures
            final(tokens).deep_view() == old(tokens).deep_view() + type_tokens(self@),
    {
        let ghost before = tokens.deep_view();
        let ghost ty = self@.metadata_type;
        tokens.push(self.colon.duplicate());
        assert(tokens.deep_view() =~= before + seq![self@.colon]);
        let mut i: usize = 0;
        while i < self.metadata_type.len()
            invariant
                i <= self.metadata_type.len(),
                ty == self@.metadata_type,
                tokens.deep_view() == before + seq![self@.colon] + ty.take(i as int),
            decreases self.metadata_type.len() - i,
        {
            let ghost so_far = tokens.deep_view();
            tokens.push(self.metadata_type[i].duplicate());
            assert(tokens.deep_view() =~= so_far.push(self.metadata_type[i as int]@));
            i = i + 1;
            assert(tokens.deep_view() =~= before + seq![self@.colon] + ty.take(i as int));
        }
        assert(ty.take(i as int) =~= ty);
        assert(tokens.deep_view() =~= before + type_tokens(self@));
    }
}

impl MetadataAlias {
    /// Builds the alias that starts with its equals sign at `from`, from
    /// what `syn` says of the token behind the sign.
    pub fn build(tokens: &Vec<Token>, from: usize, accepted: bool) -> (parsed: Result<
        (MetadataAlias, usize),
        ParseError,
    >)
        ensures
            read_view(parsed) == alias_part(tokens.deep_view(), from as int, accepted),
            parsed matches Ok((_, end)) ==> from < end <= tokens.len(),
    {
        if !assign_at(tokens, from) {
            return Err(
                ParseError {
                    kind: ErrorKind::MalformedAnnotation,
                    place: Place::Arguments(0),
                    at: from,
                },
            );
        }
        assert(tokens.deep_view().len() == tokens.len());
        if !(name_at(tokens, from + 1) && accepted) {
            return Err(
                ParseError {
                    kind: ErrorKind::MalformedAnnotation,
                    place: Place::Arguments(0),
                    at: from + 1,
                },
            );
        }
        Ok((MetadataAlias { eq: tokens[from].duplicate(), alias: tokens[from + 1].name() }, from + 2))
    }

    /// Reads an equals sign at `from` and the alias behind it; returns
    /// the alias and the index behind it.
    pub fn parse(tokens: &Vec<Token>, from: usize) -> (parsed: Result<
        (MetadataAlias, usize),
        ParseError,
    >)
        ensures
            read_view(parsed) == metadata_alias(tokens.deep_view(), from as int),
            parsed matches Ok((_, end)) ==> from < end <= tokens.len(),
    {
        let name = if from < tokens.len() {
            name_or_empty(tokens, from + 1)
        } else {
            String::new()
        };
        MetadataAlias::build(tokens, from, is_identifier(name.as_str()))
    }

    /// Appends the equals sign and the alias to `tokens`.
    pub fn to_tokens(&self, tokens: &mut Vec<Token>)
        ensures
            final(tokens).deep_view() == old(tokens).deep_view() + alias_tokens(self@),
    {
        let ghost before = tokens.deep_view();
        tokens.push(self.eq.duplicate());
        tokens.push(Token::Ident(self.alias.clone()));
        assert(tokens.deep_view() =~= before + alias_tokens(self@));
    }
}

impl Visibility {
    /// Appends the qualifier to `tokens`.
    pub fn to_tokens(&self, tokens: &mut Vec<Token>)
        ensures
            final(tokens).deep_view() == old(tokens).deep_view() + visibility_tokens(self@),
    {
        let ghost before = tokens.deep_view();
        match self {
            Visibility::Inherited => {},
            Visibility::Public => {
                tokens.push(Token::Ident("pub".to_owned()));
            },
            Visibility::Restricted(path) => {
                tokens.push(Token::Ident("pub".to_owned()));
                tokens.push(Token::Group(Delimiter::Parenthesis, path.clone()));
            },
        }
        assert(tokens.deep_view() =~= before + visibility_tokens(self@));
    }
}

impl StructLevelAttributeArgPrefix {
    /// Appends the prefix to `tokens`.
    pub fn to_tokens(&self, tokens: &mut Vec<Token>)
        ensures
            final(tokens).deep_view() == old(tokens).deep_view() + prefix_tokens(self@),
    {
        let ghost before = tokens.deep_view();
        match self {
            StructLevelAttributeArgPrefix::NoPrefix => {},
            StructLevelAttributeArgPrefix::StructKeyword => {
                tokens.push(Token::Ident("struct".to_owned()));
                assert(tokens.deep_view() =~= before.push(TokenView::Ident("struct"@)));
            },
            StructLevelAttributeArgPrefix::Visibility(visibility) => {
                visibility.to_tokens(tokens);
                let ghost qualified = tokens.deep_view();
                tokens.push(Token::Ident("struct".to_owned()));
                assert(tokens.deep_view() =~= qualified.push(TokenView::Ident("struct"@)));
            },
        }
        assert(tokens.deep_view() =~= before + prefix_tokens(self@));
    }
}

impl MetadataStruct {
    /// Builds the annotation that starts at `from` from what `syn` says
    /// of its parts; returns it with the index behind it.
    pub fn build(tokens: &Vec<Token>, from: usize, checks: Checks) -> (parsed: Result<
        (MetadataStruct, usize),
        ParseError,
    >)
        requires
            from <= tokens.len(),
        ensures
            read_view(parsed) == built(tokens.deep_view(), from as int, checks),
            parsed matches Ok((_, end)) ==> from < end <= tokens.len(),
    {
        let public = from < tokens.len() && tokens[from].is_ident("pub");
        let (visibility, keyword_at) = parse_visibility(tokens, from);
        let keyword = keyword_at < tokens.len() && tokens[keyword_at].is_ident("struct");
        if public && keyword_at - from == 2 && !checks.visibility {
            return Err(
                ParseError {
                    kind: ErrorKind::MalformedAnnotation,
                    place: Place::Arguments(0),
                    at: from + 1,
                },
            );
        }
        if public && !keyword {
            return Err(
                ParseError {
                    kind: ErrorKind::MalformedAnnotation,
                    place: Place::Arguments(0),
                    at: keyword_at,
                },
            );
        }
        let at = if keyword {
            keyword_at + 1
        } else {
            from
        };
        if !(name_at(tokens, at) && checks.name) {
            return Err(
                ParseError {
                    kind: ErrorKind::MalformedAnnotation,
                    place: Place::Arguments(0),
                    at,
                },
            );
        }
        let mut metadata_type: Option<MetadataType> = None;
        let mut alias_at = at + 1;
        if colon_at(tokens, at + 1) {
            match MetadataType::build(tokens, at + 1, checks.type_end) {
                Ok((ty, end)) => {
                    metadata_type = Some(ty);
                    alias_at = end;
                },
                Err(e) => {
                    return Err(e);
                },
            }
        }
        let mut alias: Option<MetadataAlias> = None;
        let mut end = alias_at;
        if assign_at(tokens, alias_at) {
            match MetadataAlias::build(tokens, alias_at, checks.alias) {
                Ok((found, behind)) => {
                    alias = Some(found);
                    end = behind;
                },
                Err(e) => {
                    return Err(e);
                },
            }
        }
        let prefix = if public {
            StructLevelAttributeArgPrefix::Visibility(visibility)
        } else if keyword {
            StructLevelAttributeArgPrefix::StructKeyword
        } else {
            StructLevelAttributeArgPrefix::NoPrefix
        };
        Ok((MetadataStruct { prefix, name: tokens[at].name(), metadata_type, alias }, end))
    }

    /// Reads the longest annotation that starts at `from`; returns it
    /// with the index behind it and leaves what follows alone.
    pub fn parse(tokens: &Vec<Token>, from: usize) -> (parsed: Result<
        (MetadataStruct, usize),
        ParseError,
    >)
        requires
            from <= tokens.len(),
        ensures
            read_view(parsed) == metadata_struct(tokens.deep_view(), from as int),
            parsed matches Ok((_, end)) ==> from < end <= tokens.len(),
    {
        let (_, keyword_at) = parse_visibility(tokens, from);
        let keyword = keyword_at < tokens.len() && tokens[keyword_at].is_ident("struct");
        let at = if keyword {
            keyword_at + 1
        } else {
            from
        };
        let typed = at < tokens.len() && colon_at(tokens, at + 1);
        let type_end = if typed {
            find_type_end(tokens, at + 2)
        } else {
            0
        };
        let alias_at = if typed {
            type_end
        } else if at < tokens.len() {
            at + 1
        } else {
            tokens.len()
        };
        let visibility = render(tokens, from, keyword_at);
        let name = name_or_empty(tokens, at);
        let alias = if assign_at(tokens, alias_at) {
            name_or_empty(tokens, alias_at + 1)
        } else {
            String::new()
        };
        let checks = Checks {
            visibility: is_visibility(visibility.as_str()),
            name: is_identifier(name.as_str()),
            type_end,
            alias: is_identifier(alias.as_str()),
        };
        MetadataStruct::build(tokens, from, checks)
    }

    /// Appends the annotation to `tokens`: prefix, name, type and alias,
    /// as they were read.
    pub fn to_tokens(&self, tokens: &mut Vec<Token>)
        ensures
            final(tokens).deep_view() == old(tokens).deep_view() + self@.tokens(),
    {
        let ghost before = tokens.deep_view();
        self.prefix.to_tokens(tokens);
        tokens.push(Token::Ident(self.name.clone()));
        let ghost named = tokens.deep_view();
        assert(named =~= before + prefix_tokens(self@.prefix) + seq![TokenView::Ident(self@.name)]);
        match &self.metadata_type {
            Some(ty) => {
                ty.to_tokens(tokens);
            },
            None => {},
        }
        match &self.alias {
            Some(alias) => {
                alias.to_tokens(tokens);
            },
            None => {},
        }
        assert(tokens.deep_view() =~= before + self@.tokens());
    }

    /// A copy of the annotation.
    pub fn duplicate(&self) -> (copy: MetadataStruct)
        ensures
            copy@ == self@,
    {
        let prefix = match &self.prefix {
            StructLevelAttributeArgPrefix::NoPrefix => StructLevelAttributeArgPrefix::NoPrefix,
            StructLevelAttributeArgPrefix::StructKeyword => {
                StructLevelAttributeArgPrefix::StructKeyword
            },
            StructLevelAttributeArgPrefix::Visibility(visibility) => {
                StructLevelAttributeArgPrefix::Visibility(visibility.duplicate())
            },
        };
        let metadata_type = match &self.metadata_type {
            Some(ty) => {
                assert(ty.metadata_type.deep_view().subrange(0, ty.metadata_type.len() as int)
                    =~= ty.metadata_type.deep_view());
                Some(
                    MetadataType {
                        colon: ty.colon.duplicate(),
                        metadata_type: copy_range(&ty.metadata_type, 0, ty.metadata_type.len()),
                    },
                )
            },
            None => None,
        };
        let alias = match &self.alias {
            Some(alias) => Some(
                MetadataAlias { eq: alias.eq.duplicate(), alias: alias.alias.clone() },
            ),
            None => None,
        };
        MetadataStruct { prefix, name: self.name.clone(), metadata_type, alias }
    }
}

/// The annotations behind what was read, put behind it.
pub open spec fn continued(
    read: Seq<MetadataStructView>,
    rest: Result<Seq<MetadataStructView>, ParseError>,
) -> Result<Seq<MetadataStructView>, ParseError> {
    match rest {
        Ok(more) => Ok(read + more),
        Err(e) => Err(e),
    }
}

/// The annotations that `tokens` list from `pos` on: behind each
/// annotation stands a comma or the end, and behind the last comma an
/// annotation or the end.
pub open spec fn annotation_list_from(tokens: Seq<TokenView>, pos: int) -> Result<
    Seq<MetadataStructView>,
    ParseError,
>
    decreases tokens.len() - pos,
{
    if pos < 0 || pos >= tokens.len() {
        Ok(Seq::empty())
    } else {
        match metadata_struct(tokens, pos) {
            Err(e) => Err(e),
            Ok((annotation, end)) => if end <= pos || end >= tokens.len() {
                Ok(seq![annotation])
            } else if !tokens[end].is_punct(',') {
                Err(malformed_annotation(end))
            } else {
                continued(seq![annotation], annotation_list_from(tokens, end + 1))
            },
        }
    }
}

/// The annotations that `tokens` list, separated by commas, with or
/// without a comma behind the last.
pub open spec fn annotation_list(tokens: Seq<TokenView>) -> Result<
    Seq<MetadataStructView>,
    ParseError,
> {
    annotation_list_from(tokens, 0)
}

/// Whether the token is a group with visible delimiters.
pub open spec fn is_delimited(token: TokenView) -> bool {
    token.is_group(Delimiter::Parenthesis) || token.is_group(Delimiter::Brace) || token.is_group(
        Delimiter::Bracket,
    )
}

/// The text of the arguments of an attribute: the attribute is a name
/// and one delimited group.
pub open spec fn attribute_args(attr: Seq<TokenView>) -> Result<Seq<char>, ParseError> {
    if attr.len() < 2 {
        Err(malformed_attribute(attr.len() as int))
    } else if !is_delimited(attr[1]) {
        Err(malformed_attribute(1))
    } else if attr.len() != 2 {
        Err(malformed_attribute(2))
    } else {
        Ok(attr[1].inner())
    }
}

/// The annotations of an attribute, where tokenizing its arguments gave `args`.
pub open spec fn annotations_from(attr: Seq<TokenView>, args: Option<Seq<TokenView>>) -> Result<
    Seq<MetadataStructView>,
    ParseError,
> {
    match attribute_args(attr) {
        Err(e) => Err(e),
        Ok(_) => match args {
            None => Err(malformed_attribute(1)),
            Some(tokens) => annotation_list(tokens),
        },
    }
}

/// The annotations of an attribute.
pub open spec fn annotations_of(attr: Seq<TokenView>) -> Result<
    Seq<MetadataStructView>,
    ParseError,
> {
    match attribute_args(attr) {
        Err(e) => Err(e),
        Ok(text) => annotations_from(attr, lexed(text)),
    }
}

/// The annotations of the attribute with the index `i`: its error says
/// that it is of this attribute.
pub open spec fn annotations_of_attribute(attr: Seq<TokenView>, i: int) -> Result<
    Seq<MetadataStructView>,
    ParseError,
> {
    match annotations_of(attr) {
        Ok(annotations) => Ok(annotations),
        Err(e) => Err(attributed(e, i)),
    }
}

/// The outcomes in order: every value of a batch counts for itself, the
/// error of a failed batch once.
pub open spec fn flattened<T>(batches: Seq<Result<Seq<T>, ParseError>>) -> Seq<
    Result<T, ParseError>,
>
    decreases batches.len(),
{
    if batches.len() == 0 {
        Seq::empty()
    } else {
        flattened(batches.drop_last()) + (match batches.last() {
            Ok(values) => Seq::new(values.len(), |i: int| Ok(values[i])),
            Err(e) => seq![Err(e)],
        })
    }
}

/// The outcomes of all attributes, in order.
pub open spec fn all_annotations(attrs: Seq<Seq<TokenView>>) -> Seq<
    Result<MetadataStructView, ParseError>,
> {
    flattened(Seq::new(attrs.len(), |i: int| annotations_of_attribute(attrs[i], i)))
}

/// The mathematical values of a list of outcomes.
pub open spec fn outcome_views(outcomes: Seq<Result<MetadataStruct, ParseError>>) -> Seq<
    Result<MetadataStructView, ParseError>,
> {
    Seq::new(outcomes.len(), |i: int| result_view(outcomes[i]))
}

/// The mathematical value of a batch.
pub open spec fn batch_view(batch: Result<Vec<MetadataStruct>, ParseError>) -> Result<
    Seq<MetadataStructView>,
    ParseError,
> {
    match batch {
        Ok(values) => Ok(values.deep_view()),
        Err(e) => Err(e),
    }
}

/// The mathematical values of a list of batches.
pub open spec fn batch_views(batches: Seq<Result<Vec<MetadataStruct>, ParseError>>) -> Seq<
    Result<Seq<MetadataStructView>, ParseError>,
> {
    Seq::new(batches.len(), |i: int| batch_view(batches[i]))
}

/// Flattens the batches with `itertools::Itertools::flatten_ok`: every
/// value of an `Ok` comes out as an `Ok` of its own, every `Err` as it
/// is, all in their order.
#[verifier::external_body]
fn flatten_ok(batches: Vec<Result<Vec<MetadataStruct>, ParseError>>) -> (outcomes: Vec<
    Result<MetadataStruct, ParseError>,
>)
    ensures
        outcome_views(outcomes@) == flattened(batch_views(batches@)),
{
    batches.into_iter().flatten_ok().collect()
}

/// Takes the text of the arguments out of an attribute.
pub fn attribute_arguments(attr: &Vec<Token>) -> (args: Result<String, ParseError>)
    ensures
        result_view(args) == attribute_args(attr.deep_view()),
{
    if attr.len() < 2 {
        return Err(
            ParseError {
                kind: ErrorKind::MalformedAnnotation,
                place: Place::Attribute(0),
                at: attr.len(),
            },
        );
    }
    if !(attr[1].is_group(Delimiter::Parenthesis) || attr[1].is_group(Delimiter::Brace)
        || attr[1].is_group(Delimiter::Bracket)) {
        return Err(
            ParseError { kind: ErrorKind::MalformedAnnotation, place: Place::Attribute(0), at: 1 },
        );
    }
    if attr.len() != 2 {
        return Err(
            ParseError { kind: ErrorKind::MalformedAnnotation, place: Place::Attribute(0), at: 2 },
        );
    }
    Ok(attr[1].inner())
}

/// Reads the annotations that `tokens` list: one after the other, each
/// followed by a comma or by the end.
pub fn parse_annotations(tokens: &Vec<Token>) -> (annotations: Result<
    Vec<MetadataStruct>,
    ParseError,
>)
    ensures
        batch_view(annotations) == annotation_list(tokens.deep_view()),
{
    let ghost all = tokens.deep_view();
    let mut annotations: Vec<MetadataStruct> = Vec::new();
    let mut pos: usize = 0;
    assert(annotations.deep_view() =~= Seq::<MetadataStructView>::empty());
    assert(continued(annotations.deep_view(), annotation_list_from(all, 0))
        == annotation_list_from(all, 0)) by {
        match annotation_list_from(all, 0) {
            Ok(more) => {
                assert(annotations.deep_view() + more =~= more);
            },
            Err(_) => {},
        }
    }
    while pos < tokens.len()
        invariant
            pos <= tokens.len(),
            all == tokens.deep_view(),
            annotation_list(all) == continued(
                annotations.deep_view(),
                annotation_list_from(all, pos as int),
            ),
        decreases tokens.len() - pos,
    {
        let ghost before = annotations.deep_view();
        match MetadataStruct::parse(tokens, pos) {
            Err(e) => {
                return Err(e);
            },
            Ok((annotation, end)) => {
                annotations.push(annotation);
                assert(annotations.deep_view() =~= before + seq![annotation@]);
                if end >= tokens.len() {
                    return Ok(annotations);
                }
                if !tokens[end].is_punct(',') {
                    return Err(
                        ParseError {
                            kind: ErrorKind::MalformedAnnotation,
                            place: Place::Arguments(0),
                            at: end,
                        },
                    );
                }
                assert(continued(before, annotation_list_from(all, pos as int)) == continued(
                    annotations.deep_view(),
                    annotation_list_from(all, end + 1),
                )) by {
                    match annotation_list_from(all, end + 1) {
                        Ok(more) => {
                            assert(before + (seq![annotation@] + more) =~= annotations.deep_view()
                                + more);
                        },
                        Err(_) => {},
                    }
                }
                pos = end + 1;
            },
        }
    }
    assert(annotations.deep_view() + Seq::<MetadataStructView>::empty()
        =~= annotations.deep_view());
    Ok(annotations)
}

/// Reads the annotations of one attribute, given as the tokens between
/// its brackets.
pub fn proc_attribute(attr: &Vec<Token>) -> (annotations: Result<Vec<MetadataStruct>, ParseError>)
    ensures
        batch_view(annotations) == annotations_of(attr.deep_view()),
{
    let text = match attribute_arguments(attr) {
        Ok(text) => text,
        Err(e) => {
            return Err(e);
        },
    };
    match lex(text.as_str()) {
        Some(args) => parse_annotations(&args),
        None => Err(
            ParseError { kind: ErrorKind::MalformedAnnotation, place: Place::Attribute(0), at: 1 },
        ),
    }
}

/// Reads the annotations of all attributes. Each annotation and each
/// attribute that could not be read has an outcome of its own: the
/// failure of one attribute hides no other. An error says of which
/// attribute it is, by the attribute's index in `attrs`.
pub fn proc_all_attributes(attrs: &Vec<Vec<Token>>) -> (outcomes: Vec<
    Result<MetadataStruct, ParseError>,
>)
    ensures
        outcome_views(outcomes@) == all_annotations(attrs.deep_view()),
{
    let ghost all = attrs.deep_view();
    let mut batches: Vec<Result<Vec<MetadataStruct>, ParseError>> = Vec::new();
    let mut i: usize = 0;
    assert(batch_views(batches@) =~= Seq::new(0, |k: int| annotations_of_attribute(all[k], k)));
    while i < attrs.len()
        invariant
            i <= attrs.len(),
            all == attrs.deep_view(),
            batch_views(batches@) == Seq::new(
                i as nat,
                |k: int| annotations_of_attribute(all[k], k),
            ),
        decreases attrs.len() - i,
    {
        let ghost before = batch_views(batches@);
        let batch = match proc_attribute(&attrs[i]) {
            Ok(annotations) => Ok(annotations),
            Err(e) => Err(e.in_attribute(i)),
        };
        batches.push(batch);
        assert(batch_views(batches@) =~= before.push(batch_view(batch)));
        i = i + 1;
        assert(batch_views(batches@) =~= Seq::new(
            i as nat,
            |k: int| annotations_of_attribute(all[k], k),
        ));
    }
    flatten_ok(batches)
}

/// The tokens of the prefix that was read are the tokens before the name.
proof fn lemma_prefix_is_lossless(tokens: Seq<TokenView>, from: int)
    requires
        0 <= from <= tokens.len(),
        starts_with_pub(tokens, from) ==> has_keyword(tokens, from),
    ensures
        prefix_tokens(arg_prefix(tokens, from)) == tokens.subrange(
            from,
            arg_name_index(tokens, from),
        ),
{
    let written = prefix_tokens(arg_prefix(tokens, from));
    let read = tokens.subrange(from, arg_name_index(tokens, from));
    if starts_with_pub(tokens, from) {
        assert(tokens[from] == TokenView::Ident("pub"@));
        let keyword_at = arg_keyword_index(tokens, from);
        assert(tokens[keyword_at] == TokenView::Ident("struct"@));
        if keyword_at == from + 2 {
            assert(tokens[from + 1] == TokenView::Group(
                Delimiter::Parenthesis,
                tokens[from + 1].inner(),
            ));
            assert(written =~= read);
        } else {
            assert(keyword_at == from + 1);
            assert(written =~= read);
        }
    } else if has_keyword(tokens, from) {
        assert(tokens[from] == TokenView::Ident("struct"@));
        assert(written =~= read);
    } else {
        assert(written =~= read);
    }
}

/// Reading an annotation loses nothing: the tokens of what was read are
/// the tokens that it was read from, up to where the reading stopped.
pub proof fn lemma_annotation_is_lossless(tokens: Seq<TokenView>, from: int, checks: Checks)
    requires
        0 <= from <= tokens.len(),
        built(tokens, from, checks) is Ok,
    ensures
        from < built(tokens, from, checks)->Ok_0.1 <= tokens.len(),
        built(tokens, from, checks)->Ok_0.0.tokens() == tokens.subrange(
            from,
            built(tokens, from, checks)->Ok_0.1,
        ),
{
    let annotation = built(tokens, from, checks)->Ok_0.0;
    let end = built(tokens, from, checks)->Ok_0.1;
    let name_at = arg_name_index(tokens, from);
    let alias_at = arg_alias_index(tokens, from, checks.type_end as int);
    let prefix = prefix_tokens(annotation.prefix);
    let name = seq![TokenView::Ident(annotation.name)];
    let ty = match annotation.metadata_type {
        Some(ty) => type_tokens(ty),
        None => Seq::empty(),
    };
    let alias = match annotation.alias {
        Some(alias) => alias_tokens(alias),
        None => Seq::empty(),
    };
    lemma_prefix_is_lossless(tokens, from);
    assert(prefix == tokens.subrange(from, name_at));
    assert(name =~= tokens.subrange(name_at, name_at + 1));
    assert(name_at + 1 <= alias_at <= end <= tokens.len());
    assert(ty =~= tokens.subrange(name_at + 1, alias_at));
    assert(alias =~= tokens.subrange(alias_at, end)) by {
        if is_assign_at(tokens, alias_at) {
            assert(tokens[alias_at + 1] == TokenView::Ident(tokens[alias_at + 1].name()));
        }
    }
    assert(annotation.tokens() == prefix + name + ty + alias);
    assert(prefix + name + ty + alias =~= tokens.subrange(from, end));
}

/// Whether a comma or the end stands at `at`.
pub open spec fn ends_at(tokens: Seq<TokenView>, at: int) -> bool {
    at == tokens.len() || (0 <= at < tokens.len() && tokens[at].is_punct(','))
}

/// What stands behind an annotation has no part in it: an annotation
/// that a comma or the end follows is read the same, and ends at the
/// same token, in every sequence that holds the same tokens from where
/// it starts to where it ends and a comma or the end behind them.
pub proof fn lemma_annotation_leaves_the_rest(
    tokens: Seq<TokenView>,
    other: Seq<TokenView>,
    from: int,
    checks: Checks,
)
    requires
        0 <= from <= tokens.len(),
        built(tokens, from, checks) is Ok,
        ends_at(tokens, built(tokens, from, checks)->Ok_0.1),
        ends_at(other, built(tokens, from, checks)->Ok_0.1),
        other.subrange(from, built(tokens, from, checks)->Ok_0.1) == tokens.subrange(
            from,
            built(tokens, from, checks)->Ok_0.1,
        ),
    ensures
        built(other, from, checks) == built(tokens, from, checks),
{
    let end = built(tokens, from, checks)->Ok_0.1;
    lemma_annotation_is_lossless(tokens, from, checks);
    assert forall|i: int| from <= i < end implies other[i] == tokens[i] by {
        assert(other.subrange(from, end)[i - from] == tokens.subrange(from, end)[i - from]);
    }
    let name_at = arg_name_index(tokens, from);
    assert(visibility_end(other, from) == visibility_end(tokens, from));
    assert(has_keyword(other, from) == has_keyword(tokens, from));
    assert(arg_name_index(other, from) == name_at);
    assert(is_colon_at(other, name_at + 1) == is_colon_at(tokens, name_at + 1));
    let alias_at = arg_alias_index(tokens, from, checks.type_end as int);
    assert(arg_alias_index(other, from, checks.type_end as int) == alias_at);
    if arg_has_type(tokens, from) {
        assert(other.subrange(name_at + 2, checks.type_end as int) =~= tokens.subrange(
            name_at + 2,
            checks.type_end as int,
        ));
    }
    assert(is_assign_at(other, alias_at) == is_assign_at(tokens, alias_at));
}

} // verus!
