//! The parser of record declarations.
//!
//! A declaration is read in two steps: its head, up to the group that
//! holds the fields, and then the fields from the text of that group.

use crate::error::{error_at, result_view, ErrorKind, ParseError, Place};
use crate::field::{
    attrs_end, attrs_from, fields_of, is_name_at, lemma_fields_trailing_comma, name_at,
    parse_attrs, parse_fields, parse_visibility, visibility_at, visibility_end,
};
use crate::shape::{
    Fields, FieldsView, RecordKind, RecordShape, RecordShapeView, Visibility, VisibilityView,
};
use crate::split::{angle_depth, segments, split, SegmentView};
use crate::token::{
    copy_range, lex, lexed, render, rendered, Delimiter, Token, TokenView,
};
use vstd::prelude::*;

verus! {

/// The head of a record declaration, with the text of the group that
/// holds its fields.
#[derive(Clone, Debug, PartialEq, Eq)]
pub struct Header {
    pub attrs: Vec<String>,
    pub visibility: Visibility,
    pub name: String,
    pub generics: Vec<String>,
    pub kind: RecordKind,
    pub body: String,
}

/// The mathematical value of a [`Header`].
pub struct HeaderView {
    pub attrs: Seq<Seq<char>>,
    pub visibility: VisibilityView,
    pub name: Seq<char>,
    pub generics: Seq<Seq<char>>,
    pub kind: RecordKind,
    pub body: Seq<char>,
}

impl View for Header {
    type V = HeaderView;

    open spec fn view(&self) -> HeaderView {
        HeaderView {
            attrs: self.attrs.deep_view(),
            visibility: self.visibility@,
            name: self.name@,
            generics: self.generics.deep_view(),
            kind: self.kind,
            body: self.body@,
        }
    }
}

/// The error of a declaration that is malformed at token `at`.
pub open spec fn malformed_head(at: int) -> ParseError {
    error_at(ErrorKind::MalformedRecord, Place::Head, at)
}

/// The index, from `i` on, of the first token behind which the angle
/// brackets opened from `open` on are all closed; the length of `tokens`
/// if there is none.
pub open spec fn closing_angle(tokens: Seq<TokenView>, open: int, i: int) -> int
    decreases tokens.len() - i,
{
    if i < open || open < 0 || i >= tokens.len() {
        tokens.len() as int
    } else if angle_depth(tokens.subrange(open, i + 1)) == 0 {
        i
    } else {
        closing_angle(tokens, open, i + 1)
    }
}

/// The texts of the pieces that hold tokens.
pub open spec fn piece_texts(pieces: Seq<SegmentView>) -> Seq<Seq<char>>
    decreases pieces.len(),
{
    if pieces.len() == 0 {
        Seq::empty()
    } else if pieces.last().tokens.len() == 0 {
        piece_texts(pieces.drop_last())
    } else {
        piece_texts(pieces.drop_last()).push(rendered(pieces.last().tokens))
    }
}

/// The generic parameters that `tokens` list, each as its text.
pub open spec fn generic_params(tokens: Seq<TokenView>) -> Seq<Seq<char>> {
    piece_texts(segments(tokens))
}

/// Whether generic parameters start at `i`.
pub open spec fn has_generics_at(tokens: Seq<TokenView>, i: int) -> bool {
    0 <= i < tokens.len() && tokens[i].is_punct('<')
}

/// The index of the `struct` keyword in a declaration.
pub open spec fn keyword_index(tokens: Seq<TokenView>) -> int {
    visibility_end(tokens, attrs_end(tokens, 0))
}

/// The index of the group that holds the fields, given that the head up
/// to it is well formed.
pub open spec fn body_index(tokens: Seq<TokenView>) -> int {
    let open = keyword_index(tokens) + 2;
    if has_generics_at(tokens, open) {
        closing_angle(tokens, open, open) + 1
    } else {
        open
    }
}

/// The generic parameters of a declaration whose head is well formed.
pub open spec fn generics_of(tokens: Seq<TokenView>) -> Seq<Seq<char>> {
    let open = keyword_index(tokens) + 2;
    if has_generics_at(tokens, open) {
        generic_params(tokens.subrange(open + 1, closing_angle(tokens, open, open)))
    } else {
        Seq::empty()
    }
}

/// The kind of record that the tokens from `at` on end: a brace group
/// ends a named record, a parenthesized group and a semicolon end a
/// positional one. Anything else is an error at the first token that
/// does not fit.
pub open spec fn kind_at(tokens: Seq<TokenView>, at: int) -> Result<RecordKind, ParseError> {
    if 0 <= at < tokens.len() && tokens[at].is_group(Delimiter::Brace) {
        if at + 1 == tokens.len() {
            Ok(RecordKind::Named)
        } else {
            Err(malformed_head(at + 1))
        }
    } else if 0 <= at < tokens.len() && tokens[at].is_group(Delimiter::Parenthesis) {
        if !(at + 1 < tokens.len() && tokens[at + 1].is_punct(';')) {
            Err(malformed_head(at + 1))
        } else if at + 2 != tokens.len() {
            Err(malformed_head(at + 2))
        } else {
            Ok(RecordKind::Positional)
        }
    } else {
        Err(malformed_head(at))
    }
}

/// The head that `tokens` spell: annotations, visibility, `struct`, a
/// name, generic parameters between angle brackets if there are any, and
/// the group of the fields.
pub open spec fn header_of(tokens: Seq<TokenView>) -> Result<HeaderView, ParseError> {
    let keyword = keyword_index(tokens);
    let open = keyword + 2;
    if !(0 <= keyword < tokens.len() && tokens[keyword].is_ident("struct"@)) {
        Err(malformed_head(keyword))
    } else if !is_name_at(tokens, keyword + 1) {
        Err(malformed_head(keyword + 1))
    } else if has_generics_at(tokens, open) && closing_angle(tokens, open, open) >= tokens.len() {
        Err(malformed_head(open))
    } else {
        match kind_at(tokens, body_index(tokens)) {
            Err(e) => Err(e),
            Ok(kind) => Ok(
                HeaderView {
                    attrs: attrs_from(tokens, 0),
                    visibility: visibility_at(tokens, attrs_end(tokens, 0)),
                    name: tokens[keyword + 1].name(),
                    generics: generics_of(tokens),
                    kind,
                    body: tokens[body_index(tokens)].inner(),
                },
            ),
        }
    }
}

/// The record that a head and its fields make.
pub open spec fn assembled(header: HeaderView, fields: FieldsView) -> RecordShapeView {
    RecordShapeView {
        attrs: header.attrs,
        visibility: header.visibility,
        name: header.name,
        generics: header.generics,
        fields,
    }
}

/// The record that the tokens of a declaration spell, where tokenizing
/// the group of the fields gave `body`.
pub open spec fn record_of_tokens(tokens: Seq<TokenView>, body: Option<Seq<TokenView>>) -> Result<
    RecordShapeView,
    ParseError,
> {
    match header_of(tokens) {
        Err(e) => Err(e),
        Ok(header) => match body {
            None => Err(malformed_head(body_index(tokens))),
            Some(inner) => match fields_of(inner, header.kind) {
                Err(e) => Err(e),
                Ok(fields) => Ok(assembled(header, fields)),
            },
        },
    }
}

/// The record that `text` declares.
pub open spec fn record_of(text: Seq<char>) -> Result<RecordShapeView, ParseError> {
    match lexed(text) {
        None => Err(malformed_head(0)),
        Some(tokens) => match header_of(tokens) {
            Err(e) => Err(e),
            Ok(header) => record_of_tokens(tokens, lexed(header.body)),
        },
    }
}

/// Finds the token that closes the angle bracket at `open`.
pub fn find_closing_angle(tokens: &Vec<Token>, open: usize) -> (close: usize)
    requires
        open <= tokens.len(),
    ensures
        close == closing_angle(tokens.deep_view(), open as int, open as int),
        open <= close <= tokens.len(),
        has_generics_at(tokens.deep_view(), open as int) ==> close > open,
{
    let ghost all = tokens.deep_view();
    let mut depth: usize = 0;
    let mut i: usize = open;
    assert(all.subrange(open as int, open as int).len() == 0);
    while i < tokens.len()
        invariant
            open <= i <= tokens.len(),
            all == tokens.deep_view(),
            depth == angle_depth(all.subrange(open as int, i as int)),
            depth <= i - open,
            closing_angle(all, open as int, open as int) == closing_angle(
                all,
                open as int,
                i as int,
            ),
        decreases tokens.len() - i,
    {
        let ghost before = all.subrange(open as int, i as int);
        let ghost upto = all.subrange(open as int, i + 1);
        assert(upto.drop_last() =~= before);
        assert(upto.last() == tokens[i as int]@);
        assert(before.len() > 0 ==> before.last() == tokens[i - 1]@);
        if tokens[i].is_punct('<') {
            depth = depth + 1;
        } else if depth > 0 && tokens[i].is_punct('>') && !(i > open && tokens[i - 1].is_punct('-')
            && tokens[i - 1].is_joint()) {
            depth = depth - 1;
        }
        if depth == 0 {
            return i;
        }
        i = i + 1;
    }
    i
}

/// Reads the generic parameters that `tokens` list.
pub fn parse_generics(tokens: &Vec<Token>) -> (params: Vec<String>)
    ensures
        params.deep_view() == generic_params(tokens.deep_view()),
{
    let ghost all = tokens.deep_view();
    let pieces = split(tokens);
    let mut params: Vec<String> = Vec::new();
    let mut k: usize = 0;
    assert(segments(all).take(0) =~= Seq::empty());
    assert(params.deep_view() =~= Seq::<Seq<char>>::empty());
    while k < pieces.len()
        invariant
            k <= pieces.len(),
            pieces.deep_view() == segments(all),
            params.deep_view() == piece_texts(segments(all).take(k as int)),
        decreases pieces.len() - k,
    {
        let piece = &pieces[k];
        assert(segments(all)[k as int] == piece@);
        assert(segments(all).take(k + 1).drop_last() =~= segments(all).take(k as int));
        if piece.tokens.len() > 0 {
            let ghost before = params.deep_view();
            let text = render(&piece.tokens, 0, piece.tokens.len());
            assert(piece.tokens.deep_view().subrange(0, piece.tokens.len() as int)
                =~= piece.tokens.deep_view());
            params.push(text);
            assert(params.deep_view() =~= before.push(text@));
        }
        k = k + 1;
    }
    assert(segments(all).take(k as int) =~= segments(all));
    params
}

/// Reads the head of a record declaration.
pub fn parse_header(tokens: &Vec<Token>) -> (header: Result<Header, ParseError>)
    ensures
        result_view(header) == header_of(tokens.deep_view()),
{
    let (attrs, attrs_end) = parse_attrs(tokens, 0);
    let (visibility, keyword) = parse_visibility(tokens, attrs_end);
    if !(keyword < tokens.len() && tokens[keyword].is_ident("struct")) {
        return Err(ParseError { kind: ErrorKind::MalformedRecord, place: Place::Head, at: keyword });
    }
    if !name_at(tokens, keyword + 1) {
        return Err(
            ParseError { kind: ErrorKind::MalformedRecord, place: Place::Head, at: keyword + 1 },
        );
    }
    let name = tokens[keyword + 1].name();
    let open = keyword + 2;
    let mut generics: Vec<String> = Vec::new();
    let mut at = open;
    assert(generics.deep_view() =~= Seq::<Seq<char>>::empty());
    if open < tokens.len() && tokens[open].is_punct('<') {
        let close = find_closing_angle(tokens, open);
        if close >= tokens.len() {
            return Err(ParseError { kind: ErrorKind::MalformedRecord, place: Place::Head, at: open });
        }
        let inner = copy_range(tokens, open + 1, close);
        generics = parse_generics(&inner);
        at = close + 1;
    }
    if at < tokens.len() && tokens[at].is_group(Delimiter::Brace) {
        if tokens.len() - at != 1 {
            return Err(ParseError { kind: ErrorKind::MalformedRecord, place: Place::Head, at: at + 1 });
        }
        let body = tokens[at].inner();
        Ok(Header { attrs, visibility, name, generics, kind: RecordKind::Named, body })
    } else if at < tokens.len() && tokens[at].is_group(Delimiter::Parenthesis) {
        if !(tokens.len() - at >= 2 && tokens[at + 1].is_punct(';')) {
            return Err(ParseError { kind: ErrorKind::MalformedRecord, place: Place::Head, at: at + 1 });
        }
        if tokens.len() - at != 2 {
            return Err(ParseError { kind: ErrorKind::MalformedRecord, place: Place::Head, at: at + 2 });
        }
        let body = tokens[at].inner();
        Ok(Header { attrs, visibility, name, generics, kind: RecordKind::Positional, body })
    } else {
        Err(ParseError { kind: ErrorKind::MalformedRecord, place: Place::Head, at })
    }
}

/// Puts a head and its fields together.
pub fn assemble(header: Header, fields: Fields) -> (shape: RecordShape)
    ensures
        shape@ == assembled(header@, fields@),
{
    RecordShape {
        attrs: header.attrs,
        visibility: header.visibility,
        name: header.name,
        generics: header.generics,
        fields,
    }
}

/// Reads a record from the tokens of its declaration and the tokens of
/// the group that holds its fields (`None` where that group's text could
/// not be tokenized).
pub fn parse_record_tokens(tokens: &Vec<Token>, body: Option<&Vec<Token>>) -> (shape: Result<
    RecordShape,
    ParseError,
>)
    ensures
        result_view(shape) == record_of_tokens(
            tokens.deep_view(),
            match body {
                Some(inner) => Some(inner.deep_view()),
                None => None,
            },
        ),
{
    let header = match parse_header(tokens) {
        Ok(header) => header,
        Err(e) => {
            return Err(e);
        },
    };
    let inner = match body {
        Some(inner) => inner,
        None => {
            let at = match header.kind {
                RecordKind::Named => tokens.len() - 1,
                RecordKind::Positional => tokens.len() - 2,
            };
            return Err(ParseError { kind: ErrorKind::MalformedRecord, place: Place::Head, at });
        },
    };
    match parse_fields(inner, header.kind) {
        Ok(fields) => Ok(assemble(header, fields)),
        Err(e) => Err(e),
    }
}

/// Reads the record that `text` declares. What is malformed in the head
/// is reported at its token in the declaration, what is malformed in a
/// field at its token in the field list.
pub fn parse_record(text: &str) -> (shape: Result<RecordShape, ParseError>)
    ensures
        result_view(shape) == record_of(text@),
{
    let tokens = match lex(text) {
        Some(tokens) => tokens,
        None => {
            return Err(ParseError { kind: ErrorKind::MalformedRecord, place: Place::Head, at: 0 });
        },
    };
    let header = match parse_header(&tokens) {
        Ok(header) => header,
        Err(e) => {
            return Err(e);
        },
    };
    let body = lex(header.body.as_str());
    parse_record_tokens(&tokens, body.as_ref())
}

/// A record is the same with and without a comma behind its last field.
pub proof fn lemma_record_trailing_comma(
    tokens: Seq<TokenView>,
    body: Seq<TokenView>,
    comma: TokenView,
)
    requires
        comma.is_punct(','),
    ensures
        record_of_tokens(tokens, Some(body.push(comma))) == record_of_tokens(tokens, Some(body)),
{
    if let Ok(header) = header_of(tokens) {
        lemma_fields_trailing_comma(body, comma, header.kind);
    }
}

} // verus!
